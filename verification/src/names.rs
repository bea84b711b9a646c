//! Names for numeric user and group ids, read once from the lines of the
//! system's two identity tables.

use vstd::prelude::*;
use std::collections::HashMap;
use crate::text::{chars_of, decimal, parse_u32, push_decimal, read_u32, split, split_on, string_of, string_views};

verus! {

broadcast use vstd::std_specs::hash::group_hash_axioms;

/// The id and the name that one line of an identity table records: the line
/// is cut at its colons, the first field is the name and the third the id.
/// A line with fewer than three fields, or whose third field is no `u32`,
/// records nothing.
pub open spec fn record_of(line: Seq<char>) -> Option<(u32, Seq<char>)> {
    let fields = split(line, ':');
    if fields.len() >= 3 {
        match parse_u32(fields[2]) {
            Some(id) => Some((id, fields[0])),
            None => None,
        }
    } else {
        None
    }
}

/// The names that the lines of an identity table give to ids. Where several
/// lines record one id, the last of them counts.
pub open spec fn table_of(lines: Seq<Seq<char>>) -> Map<u32, Seq<char>>
    decreases lines.len(),
{
    if lines.len() == 0 {
        Map::empty()
    } else {
        let earlier = table_of(lines.drop_last());
        match record_of(lines.last()) {
            Some((id, name)) => earlier.insert(id, name),
            None => earlier,
        }
    }
}

/// The name under which `id` is shown: the one that `names` holds for it,
/// else the id as a decimal numeral.
pub open spec fn name_or_id(names: Map<u32, Seq<char>>, id: u32) -> Seq<char> {
    if names.contains_key(id) {
        names[id]
    } else {
        decimal(id as nat)
    }
}

/// The character sequences of the names that a table holds.
pub open spec fn names_of(table: Map<u32, String>) -> Map<u32, Seq<char>> {
    Map::new(|id: u32| table.contains_key(id), |id: u32| table[id]@)
}

/// User and group names by numeric id. The two tables are apart: a user id
/// is never looked up among the groups, nor a group id among the users.
pub struct NameCache {
    users: HashMap<u32, String>,
    groups: HashMap<u32, String>,
}

/// Reads the id and the name that `line` records.
pub fn read_record(line: &str) -> (r: Option<(u32, String)>)
    ensures
        match r {
            Some((id, name)) => record_of(line@) == Some((id, name@)),
            None => record_of(line@) is None,
        },
{
    let chars = chars_of(line);
    let fields = split_on(chars.as_slice(), ':');
    if fields.len() >= 3 {
        assert(split(line@, ':')[2] == fields@[2]@);
        assert(split(line@, ':')[0] == fields@[0]@);
        match read_u32(fields[2]) {
            Some(id) => Some((id, string_of(fields[0]))),
            None => None,
        }
    } else {
        None
    }
}

/// Reads a whole identity table.
fn read_table(lines: &Vec<String>) -> (table: HashMap<u32, String>)
    ensures
        names_of(table@) == table_of(string_views(lines@)),
{
    let mut table: HashMap<u32, String> = HashMap::new();
    let mut i: usize = 0;
    assert(string_views(lines@).take(0) == Seq::<Seq<char>>::empty());
    assert(names_of(table@) == Map::<u32, Seq<char>>::empty());
    while i < lines.len()
        invariant
            i <= lines.len(),
            names_of(table@) == table_of(string_views(lines@).take(i as int)),
        decreases lines.len() - i,
    {
        let ghost before = table@;
        let ghost seen = string_views(lines@).take(i as int + 1);
        assert(seen.drop_last() == string_views(lines@).take(i as int));
        assert(seen.last() == lines@[i as int]@);
        match read_record(lines[i].as_str()) {
            Some((id, name)) => {
                table.insert(id, name);
                assert(names_of(table@) == names_of(before).insert(id, name@));
            },
            None => {},
        }
        i += 1;
    }
    assert(string_views(lines@).take(i as int) == string_views(lines@));
    table
}

impl NameCache {
    /// The user names that the cache holds, by user id.
    pub closed spec fn user_names(&self) -> Map<u32, Seq<char>> {
        names_of(self.users@)
    }

    /// The group names that the cache holds, by group id.
    pub closed spec fn group_names(&self) -> Map<u32, Seq<char>> {
        names_of(self.groups@)
    }

    /// A cache of the names that the lines of the user table and of the
    /// group table record. A table that could not be read is passed as no
    /// lines, and gives an empty half.
    pub fn new(user_lines: &Vec<String>, group_lines: &Vec<String>) -> (cache: NameCache)
        ensures
            cache.user_names() == table_of(string_views(user_lines@)),
            cache.group_names() == table_of(string_views(group_lines@)),
    {
        NameCache { users: read_table(user_lines), groups: read_table(group_lines) }
    }

    /// The name of the user `uid`, or `uid` as a decimal numeral if the cache
    /// holds no name for it.
    pub fn get_user_name(&self, uid: u32) -> (name: String)
        ensures
            name@ == name_or_id(self.user_names(), uid),
            !self.user_names().contains_key(uid) ==> name@ == decimal(uid as nat),
    {
        lookup(&self.users, uid)
    }

    /// The name of the group `gid`, or `gid` as a decimal numeral if the
    /// cache holds no name for it.
    pub fn get_group_name(&self, gid: u32) -> (name: String)
        ensures
            name@ == name_or_id(self.group_names(), gid),
            !self.group_names().contains_key(gid) ==> name@ == decimal(gid as nat),
    {
        lookup(&self.groups, gid)
    }
}

/// The name that `table` holds for `id`, or `id` as a decimal numeral.
fn lookup(table: &HashMap<u32, String>, id: u32) -> (name: String)
    ensures
        name@ == name_or_id(names_of(table@), id),
{
    match table.get(&id) {
        Some(name) => name.clone(),
        None => {
            let mut numeral = String::new();
            push_decimal(&mut numeral, id as u128);
            numeral
        },
    }
}

} // verus!
