//! The order of a listing: by name without regard to case, directories
//! first if the settings say so, and entries that tie in the order in which
//! they were read.

use vstd::prelude::*;
use crate::config::Config;
use crate::entry::{EntryView, FileEntry};
use crate::text::{chars_of, lowercase};

verus! {

/// Whether `a` comes before `b` in the order of strings: at the first place
/// where they differ `a` has the smaller character, or `a` ends there and
/// `b` goes on.
pub open spec fn lex_less(a: Seq<char>, b: Seq<char>) -> bool
    decreases a.len(),
{
    if b.len() == 0 {
        false
    } else if a.len() == 0 {
        true
    } else if a[0] != b[0] {
        a[0] < b[0]
    } else {
        lex_less(a.drop_first(), b.drop_first())
    }
}

/// Of two strings, at most one comes before the other.
pub proof fn lemma_lex_less_asymmetric(a: Seq<char>, b: Seq<char>)
    ensures
        !(lex_less(a, b) && lex_less(b, a)),
    decreases a.len(),
{
    if a.len() > 0 && b.len() > 0 && a[0] == b[0] {
        lemma_lex_less_asymmetric(a.drop_first(), b.drop_first());
    }
}

/// If `b` does not come before `a`, nor `c` before `b`, then `c` does not
/// come before `a`.
pub proof fn lemma_lex_not_less_transitive(a: Seq<char>, b: Seq<char>, c: Seq<char>)
    requires
        !lex_less(b, a),
        !lex_less(c, b),
    ensures
        !lex_less(c, a),
    decreases a.len(),
{
    if a.len() > 0 && b.len() > 0 && c.len() > 0 && a[0] == b[0] && b[0] == c[0] {
        lemma_lex_not_less_transitive(a.drop_first(), b.drop_first(), c.drop_first());
    }
}

/// Whether the entry `a` goes before the entry `b`: a directory before a
/// file if directories go first, and otherwise by the order of the
/// lower-case names.
pub open spec fn goes_before(a: EntryView, b: EntryView, dirs_first: bool) -> bool {
    if dirs_first && a.is_dir != b.is_dir {
        a.is_dir
    } else {
        lex_less(lowercase(a.name), lowercase(b.name))
    }
}

/// Whether neither of two entries goes before the other.
pub open spec fn ties(a: EntryView, b: EntryView, dirs_first: bool) -> bool {
    !goes_before(a, b, dirs_first) && !goes_before(b, a, dirs_first)
}

/// Of two entries, at most one goes before the other.
pub proof fn lemma_goes_before_asymmetric(a: EntryView, b: EntryView, dirs_first: bool)
    ensures
        !(goes_before(a, b, dirs_first) && goes_before(b, a, dirs_first)),
{
    lemma_lex_less_asymmetric(lowercase(a.name), lowercase(b.name));
}

/// If `b` does not go before `a`, nor `c` before `b`, then `c` does not go
/// before `a`.
pub proof fn lemma_not_before_transitive(a: EntryView, b: EntryView, c: EntryView, dirs_first: bool)
    requires
        !goes_before(b, a, dirs_first),
        !goes_before(c, b, dirs_first),
    ensures
        !goes_before(c, a, dirs_first),
{
    if dirs_first && (a.is_dir != b.is_dir || b.is_dir != c.is_dir) {
    } else {
        lemma_lex_not_less_transitive(lowercase(a.name), lowercase(b.name), lowercase(c.name));
    }
}

/// Whether the entry at place `x` of `entries` is listed before the one at
/// place `y`: it goes before it, or the two tie and it stands before it.
pub open spec fn listed_before(entries: Seq<FileEntry>, x: int, y: int, dirs_first: bool) -> bool {
    goes_before(entries[x]@, entries[y]@, dirs_first) || (ties(
        entries[x]@,
        entries[y]@,
        dirs_first,
    ) && x < y)
}

/// Whether `sorted` holds the entries of `entries` in the order of a
/// listing, where `from[i]` is the place in `entries` of the entry at place
/// `i` of `sorted`: of two places of `sorted`, the earlier holds the entry
/// that is listed before the other.
pub open spec fn is_stable_order(
    from: Seq<int>,
    entries: Seq<FileEntry>,
    sorted: Seq<FileEntry>,
    dirs_first: bool,
) -> bool {
    &&& from.len() == entries.len()
    &&& sorted.len() == entries.len()
    &&& forall|i: int|
        0 <= i < from.len() ==> 0 <= #[trigger] from[i] < entries.len() && sorted[i]
            == entries[from[i]]
    &&& forall|i: int, j: int|
        0 <= i < j < from.len() ==> listed_before(
            entries,
            #[trigger] from[i],
            #[trigger] from[j],
            dirs_first,
        )
}

/// Whether `sorted` is the stable sorting of `entries`.
pub open spec fn is_stable_sort(entries: Seq<FileEntry>, sorted: Seq<FileEntry>, dirs_first: bool) -> bool {
    exists|from: Seq<int>| is_stable_order(from, entries, sorted, dirs_first)
}

/// Whether `a` comes before `b` in the order of strings.
pub fn less(a: &[char], b: &[char]) -> (r: bool)
    ensures
        r == lex_less(a@, b@),
{
    let mut i: usize = 0;
    assert(a@.skip(0) == a@ && b@.skip(0) == b@);
    while i < a.len() && i < b.len() && a[i] == b[i]
        invariant
            i <= a.len(),
            i <= b.len(),
            lex_less(a@, b@) == lex_less(a@.skip(i as int), b@.skip(i as int)),
        decreases a.len() - i,
    {
        assert(a@.skip(i as int).drop_first() == a@.skip(i as int + 1));
        assert(b@.skip(i as int).drop_first() == b@.skip(i as int + 1));
        i += 1;
    }
    if i >= b.len() {
        false
    } else if i >= a.len() {
        true
    } else {
        a[i] < b[i]
    }
}

/// Whether the entry `a` goes before the entry `b`, given the characters of
/// their lower-case names.
fn entry_goes_before(
    a: &FileEntry,
    a_key: &Vec<char>,
    b: &FileEntry,
    b_key: &Vec<char>,
    dirs_first: bool,
) -> (r: bool)
    requires
        a_key@ == lowercase(a.name@),
        b_key@ == lowercase(b.name@),
    ensures
        r == goes_before(a@, b@, dirs_first),
{
    if dirs_first && a.is_dir != b.is_dir {
        a.is_dir
    } else {
        less(a_key.as_slice(), b_key.as_slice())
    }
}

/// The characters of the lower-case name of each entry.
fn lower_names(entries: &Vec<FileEntry>) -> (keys: Vec<Vec<char>>)
    ensures
        keys@.len() == entries@.len(),
        forall|k: int| 0 <= k < keys@.len() ==> (#[trigger] keys@[k])@ == lowercase(entries@[k].name@),
{
    let mut keys: Vec<Vec<char>> = Vec::new();
    let mut i: usize = 0;
    while i < entries.len()
        invariant
            i <= entries.len(),
            keys@.len() == i,
            forall|k: int| 0 <= k < i ==> (#[trigger] keys@[k])@ == lowercase(entries@[k].name@),
        decreases entries.len() - i,
    {
        keys.push(chars_of(entries[i].name.as_str().to_lowercase().as_str()));
        i += 1;
    }
    keys
}

/// Brings `entries` into the order of a listing: directories before files if
/// the settings say so, then by lower-case name, and entries that tie in the
/// order in which they stood.
pub fn sort_entries(entries: &mut Vec<FileEntry>, config: &Config)
    ensures
        is_stable_sort(old(entries)@, final(entries)@, config.sort_dirs_first),
{
    let dirs_first = config.sort_dirs_first;
    let mut keys = lower_names(entries);
    let n = entries.len();
    let ghost mut from: Seq<int> = Seq::new(n as nat, |k: int| k);
    let mut i: usize = 0;
    while i < n
        invariant
            i <= n,
            n == old(entries)@.len(),
            entries@.len() == n,
            keys@.len() == n,
            from.len() == n,
            dirs_first == config.sort_dirs_first,
            forall|k: int| 0 <= k < n ==> (#[trigger] keys@[k])@ == lowercase(entries@[k].name@),
            forall|k: int|
                0 <= k < n ==> 0 <= #[trigger] from[k] < n && entries@[k] == old(entries)@[from[k]],
            forall|k: int| i <= k < n ==> #[trigger] from[k] == k,
            forall|k: int| 0 <= k < i ==> #[trigger] from[k] < i,
            forall|a: int, b: int|
                0 <= a < b < i ==> listed_before(
                    old(entries)@,
                    #[trigger] from[a],
                    #[trigger] from[b],
                    dirs_first,
                ),
        decreases n - i,
    {
        let mut p: usize = i;
        while p > 0 && entry_goes_before(&entries[i], &keys[i], &entries[p - 1], &keys[p - 1], dirs_first)
            invariant
                p <= i < n,
                entries@.len() == n,
                keys@.len() == n,
                forall|k: int| 0 <= k < n ==> (#[trigger] keys@[k])@ == lowercase(entries@[k].name@),
                forall|k: int| p <= k < i ==> goes_before(entries@[i as int]@, #[trigger] entries@[k]@, dirs_first),
            decreases p,
        {
            p -= 1;
        }
        let ghost before = entries@;
        let ghost keys_before = keys@;
        let ghost from_before = from;
        let entry = entries.remove(i);
        entries.insert(p, entry);
        let key = keys.remove(i);
        keys.insert(p, key);
        proof {
            from = from_before.remove(i as int).insert(p as int, i as int);
            before.remove_ensures(i as int);
            before.remove(i as int).insert_ensures(p as int, before[i as int]);
            keys_before.remove_ensures(i as int);
            keys_before.remove(i as int).insert_ensures(p as int, keys_before[i as int]);
            from_before.remove_ensures(i as int);
            from_before.remove(i as int).insert_ensures(p as int, i as int);
            // Where each place of the new order was before the move.
            let was = |k: int|
                if k < p {
                    k
                } else if k == p {
                    i as int
                } else if k <= i {
                    k - 1
                } else {
                    k
                };
            assert forall|k: int| 0 <= k < n implies entries@[k] == before[was(k)] && keys@[k]
                == keys_before[was(k)] && from[k] == from_before[was(k)] by {
                if k < p {
                } else if k == p {
                } else if k <= i {
                    assert(entries@[(k - 1) + 1] == before.remove(i as int)[k - 1]);
                    assert(keys@[(k - 1) + 1] == keys_before.remove(i as int)[k - 1]);
                    assert(from[(k - 1) + 1] == from_before.remove(i as int)[k - 1]);
                } else {
                    assert(entries@[(k - 1) + 1] == before.remove(i as int)[k - 1]);
                    assert(keys@[(k - 1) + 1] == keys_before.remove(i as int)[k - 1]);
                    assert(from[(k - 1) + 1] == from_before.remove(i as int)[k - 1]);
                }
            }
            assert forall|a: int, b: int| 0 <= a < b < i + 1 implies listed_before(
                old(entries)@,
                #[trigger] from[a],
                #[trigger] from[b],
                dirs_first,
            ) by {
                let x = before[i as int]@;
                assert(from[a] == from_before[was(a)] && from[b] == from_before[was(b)]);
                assert(before[was(a)] == old(entries)@[from_before[was(a)]]);
                assert(before[was(b)] == old(entries)@[from_before[was(b)]]);
                if b == p {
                    // `a` stood before the place at which the search stopped.
                    let last = before[p - 1]@;
                    let ea = before[a]@;
                    assert(!goes_before(x, last, dirs_first));
                    if a < p - 1 {
                        assert(listed_before(
                            old(entries)@,
                            from_before[a],
                            from_before[p - 1],
                            dirs_first,
                        ));
                        lemma_goes_before_asymmetric(ea, last, dirs_first);
                        assert(!goes_before(last, ea, dirs_first));
                    } else {
                        lemma_goes_before_asymmetric(ea, ea, dirs_first);
                    }
                    lemma_not_before_transitive(ea, last, x, dirs_first);
                } else if a == p {
                    assert(goes_before(x, before[b - 1]@, dirs_first));
                } else {
                    assert(was(a) < was(b) < i);
                    assert(listed_before(
                        old(entries)@,
                        from_before[was(a)],
                        from_before[was(b)],
                        dirs_first,
                    ));
                }
            }
        }
        i += 1;
    }
    assert(is_stable_order(from, old(entries)@, entries@, dirs_first));
}

/// Entries that tie are listed in the order in which they were read: two
/// entries with the same lower-case name that are both directories or both
/// files, or any two with the same lower-case name when directories do not
/// go first.
pub proof fn lemma_ties_keep_their_order(
    from: Seq<int>,
    entries: Seq<FileEntry>,
    sorted: Seq<FileEntry>,
    dirs_first: bool,
    i: int,
    j: int,
)
    requires
        is_stable_order(from, entries, sorted, dirs_first),
        0 <= i < sorted.len(),
        0 <= j < sorted.len(),
        from[i] < from[j],
        lowercase(sorted[i].name@) == lowercase(sorted[j].name@),
        !dirs_first || sorted[i].is_dir == sorted[j].is_dir,
    ensures
        i < j,
{
    let a = entries[from[i]]@;
    let b = entries[from[j]]@;
    lemma_lex_less_asymmetric(lowercase(a.name), lowercase(b.name));
    assert(ties(a, b, dirs_first));
    if j < i {
        assert(listed_before(entries, from[j], from[i], dirs_first));
    }
}

/// Of two different places, exactly one is listed before the other.
pub proof fn lemma_listed_before_total(entries: Seq<FileEntry>, x: int, y: int, dirs_first: bool)
    requires
        x != y,
    ensures
        listed_before(entries, x, y, dirs_first) != listed_before(entries, y, x, dirs_first),
{
    lemma_goes_before_asymmetric(entries[x]@, entries[y]@, dirs_first);
}

/// An order of a listing takes no place of the entries twice, and so takes
/// each of them.
pub proof fn lemma_order_takes_every_place(
    from: Seq<int>,
    entries: Seq<FileEntry>,
    sorted: Seq<FileEntry>,
    dirs_first: bool,
    x: int,
)
    requires
        is_stable_order(from, entries, sorted, dirs_first),
        0 <= x < entries.len(),
    ensures
        from.no_duplicates(),
        from.contains(x),
{
    let n = entries.len() as int;
    assert forall|i: int, j: int| 0 <= i < from.len() && 0 <= j < from.len() && i != j implies from[i]
        != from[j] by {
        lemma_goes_before_asymmetric(entries[from[i]]@, entries[from[i]]@, dirs_first);
        if i < j {
            assert(listed_before(entries, from[i], from[j], dirs_first));
        } else {
            assert(listed_before(entries, from[j], from[i], dirs_first));
        }
    }
    from.unique_seq_to_set();
    vstd::set_lib::lemma_int_range(0, n);
    let places = vstd::set_lib::set_int_range(0, n);
    assert forall|v: int| from.to_set().contains(v) implies places.contains(v) by {
        let i = choose|i: int| 0 <= i < from.len() && from[i] == v;
        assert(0 <= from[i] < n);
    }
    vstd::set_lib::lemma_len_subset(from.to_set(), places);
    vstd::set_lib::lemma_subset_equality(from.to_set(), places);
    assert(places.contains(x));
}

/// Two orders of one listing agree on their first `k` places.
proof fn lemma_orders_agree(
    first: Seq<int>,
    second: Seq<int>,
    entries: Seq<FileEntry>,
    sorted: Seq<FileEntry>,
    other: Seq<FileEntry>,
    dirs_first: bool,
    k: int,
)
    requires
        is_stable_order(first, entries, sorted, dirs_first),
        is_stable_order(second, entries, other, dirs_first),
        0 <= k <= entries.len(),
    ensures
        forall|i: int| 0 <= i < k ==> first[i] == second[i],
    decreases k,
{
    if k > 0 {
        lemma_orders_agree(first, second, entries, sorted, other, dirs_first, k - 1);
        let m = k - 1;
        let x = first[m];
        let y = second[m];
        if x != y {
            lemma_listed_before_total(entries, x, y, dirs_first);
            lemma_order_takes_every_place(first, entries, sorted, dirs_first, y);
            lemma_order_takes_every_place(second, entries, other, dirs_first, x);
            if listed_before(entries, x, y, dirs_first) {
                // `x` stands in the second order, and only after `y`.
                let j = choose|j: int| 0 <= j < second.len() && second[j] == x;
                if j < m {
                    assert(first[j] == second[j]);
                } else {
                    assert(listed_before(entries, second[m], second[j], dirs_first));
                }
            } else {
                let j = choose|j: int| 0 <= j < first.len() && first[j] == y;
                if j < m {
                    assert(first[j] == second[j]);
                } else {
                    assert(listed_before(entries, first[m], first[j], dirs_first));
                }
            }
        }
    }
}

/// The entries have one stable sorting and no other.
pub proof fn lemma_stable_sort_is_unique(
    entries: Seq<FileEntry>,
    sorted: Seq<FileEntry>,
    other: Seq<FileEntry>,
    dirs_first: bool,
)
    requires
        is_stable_sort(entries, sorted, dirs_first),
        is_stable_sort(entries, other, dirs_first),
    ensures
        sorted == other,
{
    let first = choose|from: Seq<int>| is_stable_order(from, entries, sorted, dirs_first);
    let second = choose|from: Seq<int>| is_stable_order(from, entries, other, dirs_first);
    lemma_orders_agree(first, second, entries, sorted, other, dirs_first, entries.len() as int);
    assert forall|i: int| 0 <= i < sorted.len() implies sorted[i] == other[i] by {
        assert(sorted[i] == entries[first[i]]);
        assert(other[i] == entries[second[i]]);
    }
    assert(sorted =~= other);
}

} // verus!
