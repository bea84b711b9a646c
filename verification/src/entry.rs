//! One entry of a listing: what is read of it, what is shown of it, and the
//! line that shows it.

use vstd::prelude::*;
use vstd::string::StringExecFns;
use crate::config::{Config, ConfigView};
use crate::icon::{classifying_extension, get_file_icon, icon_for};
use crate::names::{name_or_id, NameCache};
use crate::text::{digit, digit_char, join, join_strings, padded, push_padded, string_views};
use crate::time::{duration_text, format_duration_since, Timestamp};

verus! {

/// The escape sequence that ends a colour.
pub const RESET: &'static str = "\x1b[0m";

/// The escape sequence that starts the colour of a directory's name.
pub const DIRECTORY_COLOR: &'static str = "\x1b[34;1m";

/// What is read of a directory entry before it is shown.
#[derive(Debug)]
pub struct RawEntry {
    /// The name of the entry.
    pub name: String,
    /// The mode bits of the entry; the low nine are its permissions.
    pub mode: u32,
    /// The numeric id of the owner.
    pub uid: u32,
    /// The numeric id of the group.
    pub gid: u32,
    /// The modification time, if it could be read.
    pub modified: Option<Timestamp>,
    /// Whether the entry is a directory.
    pub is_dir: bool,
}

/// What is shown of a directory entry.
#[derive(Debug)]
pub struct FileEntry {
    /// The name, as it was read.
    pub name: String,
    /// The permissions, as three octal digits.
    pub permissions: String,
    /// The owner's name, or the owner's id as a numeral.
    pub owner: String,
    /// The group's name, or the group's id as a numeral.
    pub group: String,
    /// The modification time, as text.
    pub modified_text: String,
    /// The glyph for the kind of entry.
    pub icon: &'static str,
    /// Whether the entry is a directory.
    pub is_dir: bool,
}

/// A `FileEntry` as plain values.
pub struct EntryView {
    pub name: Seq<char>,
    pub permissions: Seq<char>,
    pub owner: Seq<char>,
    pub group: Seq<char>,
    pub modified_text: Seq<char>,
    pub icon: Seq<char>,
    pub is_dir: bool,
}

impl View for FileEntry {
    type V = EntryView;

    open spec fn view(&self) -> EntryView {
        EntryView {
            name: self.name@,
            permissions: self.permissions@,
            owner: self.owner@,
            group: self.group@,
            modified_text: self.modified_text@,
            icon: self.icon@,
            is_dir: self.is_dir,
        }
    }
}

/// The views of a sequence of entries.
pub open spec fn entry_views(entries: Seq<FileEntry>) -> Seq<EntryView> {
    Seq::new(entries.len(), |i: int| entries[i]@)
}

/// The columns that a line can hold.
#[derive(Clone, Copy, Debug)]
pub enum Column {
    Icon,
    Permissions,
    Owner,
    Group,
    Modified,
    Name,
}

/// The widths to which the four padded columns are brought.
#[derive(Clone, Copy, Debug)]
pub struct Widths {
    pub permissions: usize,
    pub owner: usize,
    pub group: usize,
    pub modified: usize,
}

/// The low nine bits of a mode as three octal digits, zeros included.
pub open spec fn permission_text(mode: u32) -> Seq<char> {
    let bits = mode as int % 512;
    seq![digit(bits / 64), digit(bits / 8 % 8), digit(bits % 8)]
}

/// The text for a modification time that may not have been read, at the
/// moment `now`.
pub open spec fn modified_text(modified: Option<Timestamp>, now: int, use_fuzzy: bool) -> Seq<char> {
    match modified {
        Some(time) => duration_text(time@, now, use_fuzzy),
        None => "unknown"@,
    }
}

/// What is shown of the entry `raw` at the moment `now`, with the names that
/// `users` and `groups` hold.
pub open spec fn resolved(
    raw: RawEntry,
    users: Map<u32, Seq<char>>,
    groups: Map<u32, Seq<char>>,
    use_fuzzy: bool,
    now: int,
) -> EntryView {
    EntryView {
        name: raw.name@,
        permissions: permission_text(raw.mode),
        owner: name_or_id(users, raw.uid),
        group: name_or_id(groups, raw.gid),
        modified_text: modified_text(raw.modified, now, use_fuzzy),
        icon: icon_for(raw.name@, raw.is_dir, classifying_extension(raw.name@)),
        is_dir: raw.is_dir,
    }
}

/// Whether `entry` is what is shown of the entry `raw` at some moment.
pub open spec fn is_resolution(
    entry: EntryView,
    raw: RawEntry,
    users: Map<u32, Seq<char>>,
    groups: Map<u32, Seq<char>>,
    use_fuzzy: bool,
) -> bool {
    exists|now: int| entry == resolved(raw, users, groups, use_fuzzy, now)
}

/// Whether a column is one of the four that are padded and coloured.
pub open spec fn is_padded(column: Column) -> bool {
    column is Permissions || column is Owner || column is Group || column is Modified
}

/// The column that a name in a column order stands for, if any.
pub open spec fn column_named(name: Seq<char>) -> Option<Column> {
    if name == "icon"@ {
        Some(Column::Icon)
    } else if name == "permissions"@ {
        Some(Column::Permissions)
    } else if name == "owner"@ {
        Some(Column::Owner)
    } else if name == "group"@ {
        Some(Column::Group)
    } else if name == "modified"@ {
        Some(Column::Modified)
    } else if name == "name"@ {
        Some(Column::Name)
    } else {
        None
    }
}

/// Whether the settings show a column. The name is always shown.
pub open spec fn shows(config: ConfigView, column: Column) -> bool {
    match column {
        Column::Icon => config.show_icons,
        Column::Permissions => config.show_permissions,
        Column::Owner => config.show_owner,
        Column::Group => config.show_group,
        Column::Modified => config.show_modified,
        Column::Name => true,
    }
}

/// The text of an entry in one of the four padded columns; empty for the
/// icon and the name, which are not padded.
pub open spec fn column_text(entry: EntryView, column: Column) -> Seq<char> {
    match column {
        Column::Permissions => entry.permissions,
        Column::Owner => entry.owner,
        Column::Group => entry.group,
        Column::Modified => entry.modified_text,
        _ => Seq::empty(),
    }
}

/// The width to which a column is padded; zero for the icon and the name.
pub open spec fn column_width(widths: Widths, column: Column) -> nat {
    match column {
        Column::Permissions => widths.permissions as nat,
        Column::Owner => widths.owner as nat,
        Column::Group => widths.group as nat,
        Column::Modified => widths.modified as nat,
        _ => 0,
    }
}

/// The escape sequence that starts the colour of a padded column: yellow
/// for permissions, green for the owner, cyan for the group, magenta for the
/// modification time.
pub open spec fn column_color(column: Column) -> Seq<char> {
    match column {
        Column::Permissions => "\x1b[33m"@,
        Column::Owner => "\x1b[32m"@,
        Column::Group => "\x1b[36m"@,
        Column::Modified => "\x1b[35m"@,
        _ => Seq::empty(),
    }
}

/// What a column holds on the line of an entry.
///
/// The icon stands uncoloured, followed by two spaces when the line is
/// aligned. The name stands between `name_color` and `reset`. Each other
/// column stands in its colour, padded to its width when the line is aligned.
pub open spec fn cell(
    column: Column,
    entry: EntryView,
    widths: Widths,
    aligned: bool,
    name_color: Seq<char>,
    reset: Seq<char>,
) -> Seq<char> {
    match column {
        Column::Icon => if aligned {
            entry.icon + "  "@
        } else {
            entry.icon
        },
        Column::Name => name_color + entry.name + reset,
        _ => column_color(column) + padded(
            column_text(entry, column),
            if aligned {
                column_width(widths, column)
            } else {
                0
            },
        ) + RESET@,
    }
}

/// The cells of a line, for the names of a column order. A name that is no
/// column, or one of a column that the settings do not show, gives no cell.
pub open spec fn cells(
    order: Seq<Seq<char>>,
    entry: EntryView,
    config: ConfigView,
    widths: Widths,
    aligned: bool,
    name_color: Seq<char>,
    reset: Seq<char>,
) -> Seq<Seq<char>>
    decreases order.len(),
{
    if order.len() == 0 {
        Seq::empty()
    } else {
        let earlier = cells(order.drop_last(), entry, config, widths, aligned, name_color, reset);
        match column_named(order.last()) {
            Some(column) => if shows(config, column) {
                earlier.push(cell(column, entry, widths, aligned, name_color, reset))
            } else {
                earlier
            },
            None => earlier,
        }
    }
}

/// The line of an entry: its cells, one space between each two.
pub open spec fn line(
    entry: EntryView,
    config: ConfigView,
    widths: Widths,
    aligned: bool,
    name_color: Seq<char>,
    reset: Seq<char>,
) -> Seq<char> {
    join(cells(config.column_order, entry, config, widths, aligned, name_color, reset), " "@)
}

/// No padding.
pub open spec fn no_widths() -> Widths {
    Widths { permissions: 0, owner: 0, group: 0, modified: 0 }
}

/// The line of an entry as a listing shows it: aligned to `widths` if the
/// settings ask for padded columns, and a directory's name in bold blue.
pub open spec fn display_line(entry: EntryView, config: ConfigView, widths: Widths) -> Seq<char> {
    let name_color = if entry.is_dir {
        DIRECTORY_COLOR@
    } else {
        ""@
    };
    let reset = if entry.is_dir {
        RESET@
    } else {
        ""@
    };
    if config.column_format {
        line(entry, config, widths, true, name_color, reset)
    } else {
        line(entry, config, no_widths(), false, name_color, reset)
    }
}

impl Column {
    /// The column that `name` stands for, if any.
    pub fn from_name(name: &str) -> (r: Option<Column>)
        ensures
            r == column_named(name@),
    {
        if name.eq("icon") {
            Some(Column::Icon)
        } else if name.eq("permissions") {
            Some(Column::Permissions)
        } else if name.eq("owner") {
            Some(Column::Owner)
        } else if name.eq("group") {
            Some(Column::Group)
        } else if name.eq("modified") {
            Some(Column::Modified)
        } else if name.eq("name") {
            Some(Column::Name)
        } else {
            None
        }
    }
}

impl Config {
    /// Whether the settings show `column`.
    pub fn shows(&self, column: Column) -> (r: bool)
        ensures
            r == shows(self@, column),
    {
        match column {
            Column::Icon => self.show_icons,
            Column::Permissions => self.show_permissions,
            Column::Owner => self.show_owner,
            Column::Group => self.show_group,
            Column::Modified => self.show_modified,
            Column::Name => true,
        }
    }
}

/// The low nine bits of `mode` as three octal digits.
pub fn format_permissions(mode: u32) -> (r: String)
    ensures
        r@ == permission_text(mode),
{
    let bits = mode & 0o777;
    assert(bits == mode % 512) by (bit_vector)
        requires
            bits == mode & 0o777,
    ;
    let mut r = String::new();
    r.push(digit_char((bits / 64) as u8));
    r.push(digit_char((bits / 8 % 8) as u8));
    r.push(digit_char((bits % 8) as u8));
    r
}

impl FileEntry {
    /// What is shown of the entry `raw`, with the names of `name_cache` and
    /// the time format of `config`. A fuzzy modification time is an age at
    /// the moment of the call.
    pub fn new(raw: &RawEntry, name_cache: &NameCache, config: &Config) -> (entry: FileEntry)
        ensures
            is_resolution(
                entry@,
                *raw,
                name_cache.user_names(),
                name_cache.group_names(),
                config.use_fuzzy_time,
            ),
            !config.use_fuzzy_time || raw.modified is None ==> entry@ == resolved(
                *raw,
                name_cache.user_names(),
                name_cache.group_names(),
                config.use_fuzzy_time,
                0,
            ),
    {
        let permissions = format_permissions(raw.mode);
        let owner = name_cache.get_user_name(raw.uid);
        let group = name_cache.get_group_name(raw.gid);
        let modified_text = match raw.modified {
            Some(time) => format_duration_since(time, config.use_fuzzy_time),
            None => "unknown".to_owned(),
        };
        let ghost now = match raw.modified {
            Some(time) => choose|now: int|
                modified_text@ == duration_text(time@, now, config.use_fuzzy_time),
            None => 0,
        };
        let icon = get_file_icon(raw.name.as_str(), raw.is_dir);
        let entry = FileEntry {
            name: raw.name.clone(),
            permissions,
            owner,
            group,
            modified_text,
            icon,
            is_dir: raw.is_dir,
        };
        assert(entry@ == resolved(
            *raw,
            name_cache.user_names(),
            name_cache.group_names(),
            config.use_fuzzy_time,
            now,
        ));
        entry
    }

    /// The text of the entry in one of the four padded columns.
    fn text_of(&self, column: Column) -> (r: &str)
        ensures
            r@ == column_text(self@, column),
    {
        proof {
            reveal_strlit("");
            assert(""@ == Seq::<char>::empty());
        }
        match column {
            Column::Permissions => self.permissions.as_str(),
            Column::Owner => self.owner.as_str(),
            Column::Group => self.group.as_str(),
            Column::Modified => self.modified_text.as_str(),
            _ => "",
        }
    }

    /// What `column` holds on the line of the entry.
    fn cell(
        &self,
        column: Column,
        widths: Widths,
        aligned: bool,
        name_color: &str,
        reset: &str,
    ) -> (r: String)
        ensures
            r@ == cell(column, self@, widths, aligned, name_color@, reset@),
    {
        let mut r = String::new();
        match column {
            Column::Icon => {
                r.append(self.icon);
                if aligned {
                    r.append("  ");
                }
            },
            Column::Name => {
                r.append(name_color);
                r.append(self.name.as_str());
                r.append(reset);
            },
            _ => {
                let (color, width) = match column {
                    Column::Permissions => ("\x1b[33m", widths.permissions),
                    Column::Owner => ("\x1b[32m", widths.owner),
                    Column::Group => ("\x1b[36m", widths.group),
                    _ => ("\x1b[35m", widths.modified),
                };
                r.append(color);
                push_padded(
                    &mut r,
                    self.text_of(column),
                    if aligned {
                        width
                    } else {
                        0
                    },
                );
                r.append(RESET);
            },
        }
        r
    }

    /// The line of the entry: for each name of the column order that is a
    /// column the settings show, its cell, one space between each two.
    fn line(
        &self,
        config: &Config,
        widths: Widths,
        aligned: bool,
        name_color: &str,
        reset: &str,
    ) -> (r: String)
        ensures
            r@ == line(self@, config@, widths, aligned, name_color@, reset@),
    {
        let mut parts: Vec<String> = Vec::new();
        let mut i: usize = 0;
        let ghost order = config@.column_order;
        assert(order.take(0) == Seq::<Seq<char>>::empty());
        assert(string_views(parts@) == Seq::<Seq<char>>::empty());
        while i < config.column_order.len()
            invariant
                i <= config.column_order.len(),
                order == config@.column_order,
                string_views(parts@) == cells(
                    order.take(i as int),
                    self@,
                    config@,
                    widths,
                    aligned,
                    name_color@,
                    reset@,
                ),
            decreases config.column_order.len() - i,
        {
            let ghost seen = order.take(i as int + 1);
            let ghost before = parts@;
            assert(seen.drop_last() == order.take(i as int));
            assert(seen.last() == config.column_order@[i as int]@);
            match Column::from_name(config.column_order[i].as_str()) {
                Some(column) => {
                    if config.shows(column) {
                        let part = self.cell(column, widths, aligned, name_color, reset);
                        parts.push(part);
                        assert(string_views(parts@) == string_views(before).push(part@));
                    }
                },
                None => {},
            }
            i += 1;
        }
        assert(order.take(i as int) == order);
        join_strings(&parts, " ")
    }

    /// The line of the entry as a listing shows it: padded to the four
    /// widths if the settings ask for padded columns, and a directory's name
    /// in bold blue.
    pub fn format_display(
        &self,
        config: &Config,
        max_perms_len: usize,
        max_owner_len: usize,
        max_group_len: usize,
        max_modified_len: usize,
    ) -> (r: String)
        ensures
            r@ == display_line(
                self@,
                config@,
                (Widths {
                    permissions: max_perms_len,
                    owner: max_owner_len,
                    group: max_group_len,
                    modified: max_modified_len,
                }),
            ),
    {
        let (name_color, reset) = if self.is_dir {
            (DIRECTORY_COLOR, RESET)
        } else {
            ("", "")
        };
        if config.column_format {
            self.format_columns(
                config,
                max_perms_len,
                max_owner_len,
                max_group_len,
                max_modified_len,
                name_color,
                reset,
            )
        } else {
            self.format_simple(config, name_color, reset)
        }
    }

    /// The line of the entry with its columns padded to the four widths,
    /// and its name between `name_color` and `reset`.
    pub fn format_columns(
        &self,
        config: &Config,
        max_perms_len: usize,
        max_owner_len: usize,
        max_group_len: usize,
        max_modified_len: usize,
        name_color: &str,
        reset: &str,
    ) -> (r: String)
        ensures
            r@ == line(
                self@,
                config@,
                (Widths {
                    permissions: max_perms_len,
                    owner: max_owner_len,
                    group: max_group_len,
                    modified: max_modified_len,
                }),
                true,
                name_color@,
                reset@,
            ),
    {
        let widths = Widths {
            permissions: max_perms_len,
            owner: max_owner_len,
            group: max_group_len,
            modified: max_modified_len,
        };
        self.line(config, widths, true, name_color, reset)
    }

    /// The line of the entry with every column at its own width, and its
    /// name between `name_color` and `reset`.
    pub fn format_simple(&self, config: &Config, name_color: &str, reset: &str) -> (r: String)
        ensures
            r@ == line(self@, config@, no_widths(), false, name_color@, reset@),
    {
        let widths = Widths { permissions: 0, owner: 0, group: 0, modified: 0 };
        self.line(config, widths, false, name_color, reset)
    }
}

} // verus!
