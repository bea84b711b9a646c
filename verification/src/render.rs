//! A whole listing: which entries it holds, how wide its columns are, and
//! its lines.

use vstd::prelude::*;
use vstd::string::StringExecFns;
use crate::config::{Config, ConfigView};
use crate::entry::{
    column_text, column_width, display_line, entry_views, is_padded, is_resolution, shows, Column,
    EntryView, FileEntry, RawEntry, Widths,
};
use crate::icon::{is_hidden, starts_with_dot};
use crate::names::NameCache;
use crate::order::{is_stable_sort, sort_entries};
use crate::text::{byte_len, decimal, lemma_byte_len_covers_chars, padded, push_decimal, string_views};

verus! {

/// What stands for a listing that holds no entry.
pub const EMPTY_MESSAGE: &'static str = " Empty directory";

/// Whether a listing holds an entry of this name: every name if hidden
/// entries are shown, else the names that do not start with a dot.
pub open spec fn is_listed(name: Seq<char>, show_hidden: bool) -> bool {
    show_hidden || !is_hidden(name)
}

/// The entries that a listing holds, in the order in which they were read.
pub open spec fn listed(raws: Seq<RawEntry>, show_hidden: bool) -> Seq<RawEntry>
    decreases raws.len(),
{
    if raws.len() == 0 {
        Seq::empty()
    } else if is_listed(raws.last().name@, show_hidden) {
        listed(raws.drop_last(), show_hidden).push(raws.last())
    } else {
        listed(raws.drop_last(), show_hidden)
    }
}

/// Whether `entries` shows the entries `raws`, one for one and in their
/// order, each as it is resolved at some moment.
pub open spec fn shows_each(
    entries: Seq<FileEntry>,
    raws: Seq<RawEntry>,
    users: Map<u32, Seq<char>>,
    groups: Map<u32, Seq<char>>,
    use_fuzzy: bool,
) -> bool {
    &&& entries.len() == raws.len()
    &&& forall|i: int|
        0 <= i < entries.len() ==> is_resolution(
            (#[trigger] entries[i])@,
            raws[i],
            users,
            groups,
            use_fuzzy,
        )
}

/// The greatest number of bytes that the text of an entry takes in a
/// column; zero if there is no entry.
pub open spec fn widest(entries: Seq<EntryView>, column: Column) -> nat
    decreases entries.len(),
{
    if entries.len() == 0 {
        0
    } else {
        let earlier = widest(entries.drop_last(), column);
        let last = byte_len(column_text(entries.last(), column));
        if last > earlier {
            last
        } else {
            earlier
        }
    }
}

/// The width of a column in a listing: the width of its widest text if the
/// listing is aligned and shows the column, else zero.
pub open spec fn shown_width(entries: Seq<EntryView>, config: ConfigView, column: Column) -> nat {
    if config.column_format && shows(config, column) {
        widest(entries, column)
    } else {
        0
    }
}

/// The widths of the four padded columns of a listing.
pub open spec fn widths_of(entries: Seq<EntryView>, config: ConfigView) -> Widths {
    Widths {
        permissions: shown_width(entries, config, Column::Permissions) as usize,
        owner: shown_width(entries, config, Column::Owner) as usize,
        group: shown_width(entries, config, Column::Group) as usize,
        modified: shown_width(entries, config, Column::Modified) as usize,
    }
}

/// The first line of a listing that holds entries.
pub open spec fn header_text(directory: Seq<char>, count: nat) -> Seq<char> {
    directory + " ("@ + decimal(count) + " items)"@
}

/// The lines of a listing of `entries`: the empty message alone if there is
/// no entry; else the header, an empty line, and the line of each entry.
pub open spec fn listing(directory: Seq<char>, entries: Seq<EntryView>, config: ConfigView) -> Seq<
    Seq<char>,
> {
    if entries.len() == 0 {
        seq![EMPTY_MESSAGE@]
    } else {
        seq![header_text(directory, entries.len()), ""@] + Seq::new(
            entries.len(),
            |i: int| display_line(entries[i], config, widths_of(entries, config)),
        )
    }
}

impl Config {
    /// Whether a listing holds an entry named `name`.
    pub fn lists(&self, name: &str) -> (r: bool)
        ensures
            r == is_listed(name@, self.show_hidden),
    {
        self.show_hidden || !starts_with_dot(name)
    }
}

/// What is shown of the entries among `raws` that a listing holds.
pub fn resolve_entries(raws: &Vec<RawEntry>, name_cache: &NameCache, config: &Config) -> (entries:
    Vec<FileEntry>)
    ensures
        shows_each(
            entries@,
            listed(raws@, config.show_hidden),
            name_cache.user_names(),
            name_cache.group_names(),
            config.use_fuzzy_time,
        ),
{
    let mut entries: Vec<FileEntry> = Vec::new();
    let mut i: usize = 0;
    assert(raws@.take(0) == Seq::<RawEntry>::empty());
    while i < raws.len()
        invariant
            i <= raws.len(),
            shows_each(
                entries@,
                listed(raws@.take(i as int), config.show_hidden),
                name_cache.user_names(),
                name_cache.group_names(),
                config.use_fuzzy_time,
            ),
        decreases raws.len() - i,
    {
        let ghost seen = raws@.take(i as int + 1);
        let ghost before = entries@;
        assert(seen.drop_last() == raws@.take(i as int));
        assert(seen.last() == raws@[i as int]);
        if config.lists(raws[i].name.as_str()) {
            let entry = FileEntry::new(&raws[i], name_cache, config);
            entries.push(entry);
            assert forall|k: int| 0 <= k < entries@.len() implies is_resolution(
                (#[trigger] entries@[k])@,
                listed(seen, config.show_hidden)[k],
                name_cache.user_names(),
                name_cache.group_names(),
                config.use_fuzzy_time,
            ) by {
                if k < before.len() {
                    assert(entries@[k] == before[k]);
                }
            }
        }
        i += 1;
    }
    assert(raws@.take(i as int) == raws@);
    entries
}

/// The greatest number of bytes that the text of an entry takes in `column`.
pub fn widest_text(entries: &Vec<FileEntry>, column: Column) -> (width: usize)
    ensures
        width == widest(entry_views(entries@), column),
{
    let mut width: usize = 0;
    let mut i: usize = 0;
    assert(entry_views(entries@).take(0) == Seq::<EntryView>::empty());
    while i < entries.len()
        invariant
            i <= entries.len(),
            width == widest(entry_views(entries@).take(i as int), column),
        decreases entries.len() - i,
    {
        let ghost seen = entry_views(entries@).take(i as int + 1);
        assert(seen.drop_last() == entry_views(entries@).take(i as int));
        assert(seen.last() == entries@[i as int]@);
        let len = match column {
            Column::Permissions => entries[i].permissions.as_str().as_bytes().len(),
            Column::Owner => entries[i].owner.as_str().as_bytes().len(),
            Column::Group => entries[i].group.as_str().as_bytes().len(),
            Column::Modified => entries[i].modified_text.as_str().as_bytes().len(),
            _ => 0,
        };
        if len > width {
            width = len;
        }
        i += 1;
    }
    assert(entry_views(entries@).take(i as int) == entry_views(entries@));
    width
}

/// The widths of the four padded columns of a listing of `entries`.
pub fn column_widths(entries: &Vec<FileEntry>, config: &Config) -> (widths: Widths)
    ensures
        widths == widths_of(entry_views(entries@), config@),
{
    let aligned = config.column_format;
    Widths {
        permissions: if aligned && config.show_permissions {
            widest_text(entries, Column::Permissions)
        } else {
            0
        },
        owner: if aligned && config.show_owner {
            widest_text(entries, Column::Owner)
        } else {
            0
        },
        group: if aligned && config.show_group {
            widest_text(entries, Column::Group)
        } else {
            0
        },
        modified: if aligned && config.show_modified {
            widest_text(entries, Column::Modified)
        } else {
            0
        },
    }
}

/// The lines of a listing of `entries`, which stand in `directory`.
pub fn render(directory: &str, entries: &Vec<FileEntry>, config: &Config) -> (lines: Vec<String>)
    ensures
        string_views(lines@) == listing(directory@, entry_views(entries@), config@),
{
    let mut lines: Vec<String> = Vec::new();
    if entries.len() == 0 {
        lines.push(EMPTY_MESSAGE.to_owned());
        assert(string_views(lines@) == seq![EMPTY_MESSAGE@]);
        return lines;
    }
    let mut header = directory.to_owned();
    header.append(" (");
    push_decimal(&mut header, entries.len() as u128);
    header.append(" items)");
    lines.push(header);
    lines.push("".to_owned());
    let widths = column_widths(entries, config);
    let ghost views = entry_views(entries@);
    let ghost top = seq![header_text(directory@, views.len()), ""@];
    assert(string_views(lines@) == top);
    let mut i: usize = 0;
    while i < entries.len()
        invariant
            i <= entries.len(),
            views == entry_views(entries@),
            widths == widths_of(views, config@),
            string_views(lines@) == top + Seq::new(
                i as nat,
                |k: int| display_line(views[k], config@, widths),
            ),
        decreases entries.len() - i,
    {
        let ghost before = lines@;
        let line = entries[i].format_display(
            config,
            widths.permissions,
            widths.owner,
            widths.group,
            widths.modified,
        );
        lines.push(line);
        assert(string_views(lines@) == string_views(before).push(line@));
        i += 1;
    }
    lines
}

/// The lines of a listing of `directory`, from what was read of its entries:
/// the entries that the listing holds are resolved, brought into order and
/// laid out.
pub fn list_directory(
    directory: &str,
    raws: &Vec<RawEntry>,
    name_cache: &NameCache,
    config: &Config,
) -> (lines: Vec<String>)
    ensures
        exists|entries: Seq<FileEntry>, sorted: Seq<FileEntry>|
            {
                &&& shows_each(
                    entries,
                    listed(raws@, config.show_hidden),
                    name_cache.user_names(),
                    name_cache.group_names(),
                    config.use_fuzzy_time,
                )
                &&& is_stable_sort(entries, sorted, config.sort_dirs_first)
                &&& string_views(lines@) == listing(directory@, entry_views(sorted), config@)
            },
{
    let mut entries = resolve_entries(raws, name_cache, config);
    sort_entries(&mut entries, config);
    render(directory, &entries, config)
}

/// With hidden entries shown a listing holds every entry that was read;
/// without, it holds no entry whose name starts with a dot, and every other
/// one.
pub proof fn lemma_listed(raws: Seq<RawEntry>, show_hidden: bool)
    ensures
        show_hidden ==> listed(raws, show_hidden) == raws,
        forall|i: int|
            0 <= i < listed(raws, show_hidden).len() ==> is_listed(
                (#[trigger] listed(raws, show_hidden)[i]).name@,
                show_hidden,
            ),
        forall|i: int|
            0 <= i < raws.len() && is_listed((#[trigger] raws[i]).name@, show_hidden) ==> listed(
                raws,
                show_hidden,
            ).contains(raws[i]),
    decreases raws.len(),
{
    if raws.len() > 0 {
        let earlier = raws.drop_last();
        lemma_listed(earlier, show_hidden);
        if show_hidden {
            assert(earlier.push(raws.last()) == raws);
        }
        assert forall|i: int|
            0 <= i < raws.len() && is_listed((#[trigger] raws[i]).name@, show_hidden) implies listed(
            raws,
            show_hidden,
        ).contains(raws[i]) by {
            let all = listed(raws, show_hidden);
            if i < raws.len() - 1 {
                assert(raws[i] == earlier[i]);
                let k = choose|k: int|
                    0 <= k < listed(earlier, show_hidden).len() && listed(earlier, show_hidden)[k]
                        == earlier[i];
                assert(all[k] == raws[i]);
            } else {
                assert(all[all.len() - 1] == raws[i]);
            }
        }
    }
}

/// In an aligned listing the text of every entry in a padded column, once
/// padded, has exactly as many characters as the widest text of that column
/// has bytes; and a column that the settings do not show has width zero.
pub proof fn lemma_padded_to_common_width(
    entries: Seq<EntryView>,
    config: ConfigView,
    column: Column,
    i: int,
)
    requires
        0 <= i < entries.len(),
        config.column_format,
        is_padded(column),
        widest(entries, column) <= usize::MAX,
    ensures
        !shows(config, column) ==> column_width(widths_of(entries, config), column) == 0,
        shows(config, column) ==> column_width(widths_of(entries, config), column) == widest(
            entries,
            column,
        ) && padded(
            column_text(entries[i], column),
            column_width(widths_of(entries, config), column),
        ).len() == widest(entries, column),
{
    lemma_widest_covers(entries, column, i);
    lemma_byte_len_covers_chars(column_text(entries[i], column));
}

/// No text of a column takes more bytes than the widest.
pub proof fn lemma_widest_covers(entries: Seq<EntryView>, column: Column, i: int)
    requires
        0 <= i < entries.len(),
    ensures
        byte_len(column_text(entries[i], column)) <= widest(entries, column),
    decreases entries.len(),
{
    if i < entries.len() - 1 {
        lemma_widest_covers(entries.drop_last(), column, i);
    }
}

} // verus!
