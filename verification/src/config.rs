//! The settings of a listing, their defaults, and the `key=value` text that
//! changes them.

use vstd::prelude::*;
use crate::text::{
    chars_of, first_index, find, lowercase, slice_views, split, split_on, string_of, string_views,
    trim, trimmed,
};
use std::path::Path;
use vstd::slice::slice_subrange;

verus! {

/// The name of the settings file.
pub const CONFIG_FILE_NAME: &'static str = "yal.conf";

/// The settings of a listing.
#[derive(Debug, Clone)]
pub struct Config {
    /// Show the icon column.
    pub show_icons: bool,
    /// Show the permissions column.
    pub show_permissions: bool,
    /// Show the owner column.
    pub show_owner: bool,
    /// Show the group column.
    pub show_group: bool,
    /// Show the modification time column.
    pub show_modified: bool,
    /// Show modification times as fuzzy ages.
    pub use_fuzzy_time: bool,
    /// Pad the columns to a common width.
    pub column_format: bool,
    /// The columns of a line, in their order. A name that is no column is
    /// kept here and passed over when a line is laid out.
    pub column_order: Vec<String>,
    /// List directories before files.
    pub sort_dirs_first: bool,
    /// List entries whose name starts with a dot.
    pub show_hidden: bool,
    /// Accepted in the settings text; no part of a listing depends on it.
    pub long_format: bool,
}

/// The settings as plain values.
pub struct ConfigView {
    pub show_icons: bool,
    pub show_permissions: bool,
    pub show_owner: bool,
    pub show_group: bool,
    pub show_modified: bool,
    pub use_fuzzy_time: bool,
    pub column_format: bool,
    pub column_order: Seq<Seq<char>>,
    pub sort_dirs_first: bool,
    pub show_hidden: bool,
    pub long_format: bool,
}

impl View for Config {
    type V = ConfigView;

    open spec fn view(&self) -> ConfigView {
        ConfigView {
            show_icons: self.show_icons,
            show_permissions: self.show_permissions,
            show_owner: self.show_owner,
            show_group: self.show_group,
            show_modified: self.show_modified,
            use_fuzzy_time: self.use_fuzzy_time,
            column_format: self.column_format,
            column_order: string_views(self.column_order@),
            sort_dirs_first: self.sort_dirs_first,
            show_hidden: self.show_hidden,
            long_format: self.long_format,
        }
    }
}

/// The settings of a listing for which nothing was configured: every column
/// shown, in the order icon, permissions, owner, group, modified, name;
/// fuzzy times; padded columns; directories first; hidden entries left out.
pub open spec fn default_config() -> ConfigView {
    ConfigView {
        show_icons: true,
        show_permissions: true,
        show_owner: true,
        show_group: true,
        show_modified: true,
        use_fuzzy_time: true,
        column_format: true,
        column_order: seq!["icon"@, "permissions"@, "owner"@, "group"@, "modified"@, "name"@],
        sort_dirs_first: true,
        show_hidden: false,
        long_format: false,
    }
}

/// Whether a lower-case word is one of the spellings of true.
pub open spec fn is_true_word(word: Seq<char>) -> bool {
    word == "true"@ || word == "yes"@ || word == "1"@ || word == "on"@ || word == "enabled"@
}

/// Whether a lower-case word is one of the spellings of false.
pub open spec fn is_false_word(word: Seq<char>) -> bool {
    word == "false"@ || word == "no"@ || word == "0"@ || word == "off"@ || word == "disabled"@
}

/// The truth value that a settings text gives with `value`: true for the
/// spellings of true in any mix of cases, false for everything else.
pub open spec fn bool_of(value: Seq<char>) -> bool {
    is_true_word(lowercase(value))
}

/// The pieces, trimmed, that are not empty once trimmed.
pub open spec fn trimmed_nonempty(pieces: Seq<Seq<char>>) -> Seq<Seq<char>>
    decreases pieces.len(),
{
    if pieces.len() == 0 {
        Seq::empty()
    } else {
        let earlier = trimmed_nonempty(pieces.drop_last());
        let piece = trim(pieces.last());
        if piece.len() == 0 {
            earlier
        } else {
            earlier.push(piece)
        }
    }
}

/// The column names that a comma-separated list holds.
pub open spec fn column_list(value: Seq<char>) -> Seq<Seq<char>> {
    trimmed_nonempty(split(value, ','))
}

/// The settings `c` with the option `key`, in lower case, set from `value`.
/// A key that names no option changes nothing.
pub open spec fn with_option(c: ConfigView, key: Seq<char>, value: Seq<char>) -> ConfigView {
    if key == "show_icons"@ {
        ConfigView { show_icons: bool_of(value), ..c }
    } else if key == "show_permissions"@ {
        ConfigView { show_permissions: bool_of(value), ..c }
    } else if key == "show_owner"@ {
        ConfigView { show_owner: bool_of(value), ..c }
    } else if key == "show_group"@ {
        ConfigView { show_group: bool_of(value), ..c }
    } else if key == "show_modified"@ {
        ConfigView { show_modified: bool_of(value), ..c }
    } else if key == "use_fuzzy_time"@ {
        ConfigView { use_fuzzy_time: bool_of(value), ..c }
    } else if key == "column_format"@ {
        ConfigView { column_format: bool_of(value), ..c }
    } else if key == "sort_dirs_first"@ {
        ConfigView { sort_dirs_first: bool_of(value), ..c }
    } else if key == "show_hidden"@ {
        ConfigView { show_hidden: bool_of(value), ..c }
    } else if key == "long_format"@ {
        ConfigView { long_format: bool_of(value), ..c }
    } else if key == "column_order"@ {
        ConfigView { column_order: column_list(value), ..c }
    } else {
        c
    }
}

/// The settings `c` after one line of settings text. A line that is blank
/// once trimmed, that then starts with `#`, or that holds no `=` changes
/// nothing. Any other line is cut at its first `=` into a key and a value,
/// both trimmed, the key read without regard to case.
pub open spec fn apply_line(c: ConfigView, line: Seq<char>) -> ConfigView {
    let text = trim(line);
    let cut = first_index(text, '=') as int;
    if text.len() == 0 || text[0] == '#' || cut >= text.len() {
        c
    } else {
        with_option(c, lowercase(trim(text.take(cut))), trim(text.skip(cut + 1)))
    }
}

/// The settings `c` after the lines `lines`, applied first to last.
pub open spec fn apply_lines(c: ConfigView, lines: Seq<Seq<char>>) -> ConfigView
    decreases lines.len(),
{
    if lines.len() == 0 {
        c
    } else {
        apply_line(apply_lines(c, lines.drop_last()), lines.last())
    }
}

/// The settings `c` after the settings text `contents`, one line per line
/// feed.
pub open spec fn parsed(c: ConfigView, contents: Seq<char>) -> ConfigView {
    apply_lines(c, split(contents, '\n'))
}

/// What `Path::join` gives for a path and a relative path added to it.
pub uninterp spec fn joined_path(base: Seq<char>, added: Seq<char>) -> Seq<char>;

/// `Path::join`, on strings. The joined path depends on the two paths
/// alone, and `joined_path` is the name of that result.
#[verifier::external_body]
fn join_path(base: &str, added: &str) -> (r: String)
    ensures
        r@ == joined_path(base@, added@),
{
    Path::new(base).join(added).to_string_lossy().into_owned()
}

/// The places at which the settings file is looked for, first to last:
/// in the directory `xdg_config_home`, if there is one; in `.config` under
/// the directory `home` and, as `.yal.conf`, in `home` itself, if there is
/// one; and in the working directory.
pub open spec fn candidate_paths(xdg_config_home: Option<&str>, home: Option<&str>) -> Seq<
    Seq<char>,
> {
    let in_xdg = match xdg_config_home {
        Some(dir) => seq![joined_path(dir@, CONFIG_FILE_NAME@)],
        None => Seq::empty(),
    };
    let in_home = match home {
        Some(dir) => seq![
            joined_path(joined_path(dir@, ".config"@), CONFIG_FILE_NAME@),
            joined_path(dir@, ".yal.conf"@),
        ],
        None => Seq::empty(),
    };
    in_xdg + in_home + seq![CONFIG_FILE_NAME@]
}

/// The places at which the settings file is looked for, first to last. The
/// first of them that exists is the settings file.
pub fn config_candidates(xdg_config_home: Option<&str>, home: Option<&str>) -> (paths: Vec<String>)
    ensures
        string_views(paths@) == candidate_paths(xdg_config_home, home),
{
    let mut paths: Vec<String> = Vec::new();
    match xdg_config_home {
        Some(dir) => {
            paths.push(join_path(dir, CONFIG_FILE_NAME));
        },
        None => {},
    }
    match home {
        Some(dir) => {
            let config_dir = join_path(dir, ".config");
            paths.push(join_path(config_dir.as_str(), CONFIG_FILE_NAME));
            paths.push(join_path(dir, ".yal.conf"));
        },
        None => {},
    }
    paths.push(CONFIG_FILE_NAME.to_owned());
    assert(string_views(paths@) == candidate_paths(xdg_config_home, home));
    paths
}

/// The truth value of a word that is already in lower case.
pub fn truth_of_word(word: &str) -> (r: bool)
    ensures
        r == is_true_word(word@),
{
    word.eq("true") || word.eq("yes") || word.eq("1") || word.eq("on") || word.eq("enabled")
}

/// The truth value that `value` stands for.
fn truth_of(value: &[char]) -> (r: bool)
    ensures
        r == bool_of(value@),
{
    Config::parse_bool(string_of(value).as_str())
}

/// Reads a comma-separated list of column names.
pub fn read_column_list(value: &[char]) -> (columns: Vec<String>)
    ensures
        string_views(columns@) == column_list(value@),
{
    let pieces = split_on(value, ',');
    let mut columns: Vec<String> = Vec::new();
    let mut i: usize = 0;
    assert(slice_views(pieces@).take(0) == Seq::<Seq<char>>::empty());
    assert(string_views(columns@) == Seq::<Seq<char>>::empty());
    while i < pieces.len()
        invariant
            i <= pieces.len(),
            slice_views(pieces@) == split(value@, ','),
            string_views(columns@) == trimmed_nonempty(slice_views(pieces@).take(i as int)),
        decreases pieces.len() - i,
    {
        let ghost seen = slice_views(pieces@).take(i as int + 1);
        let ghost before = columns@;
        assert(seen.drop_last() == slice_views(pieces@).take(i as int));
        assert(seen.last() == pieces@[i as int]@);
        let piece = trimmed(pieces[i]);
        if piece.len() > 0 {
            columns.push(string_of(piece));
            assert(string_views(columns@) == string_views(before).push(piece@));
        }
        i += 1;
    }
    assert(slice_views(pieces@).take(i as int) == slice_views(pieces@));
    columns
}

impl Default for Config {
    fn default() -> (c: Config)
        ensures
            c@ == default_config(),
    {
        let mut column_order: Vec<String> = Vec::new();
        column_order.push("icon".to_owned());
        column_order.push("permissions".to_owned());
        column_order.push("owner".to_owned());
        column_order.push("group".to_owned());
        column_order.push("modified".to_owned());
        column_order.push("name".to_owned());
        assert(string_views(column_order@) == default_config().column_order);
        Config {
            show_icons: true,
            show_permissions: true,
            show_owner: true,
            show_group: true,
            show_modified: true,
            use_fuzzy_time: true,
            column_format: true,
            column_order,
            sort_dirs_first: true,
            show_hidden: false,
            long_format: false,
        }
    }
}

impl Config {
    /// The settings for a run: the defaults, changed by the text of the
    /// settings file if there is one.
    pub fn load(contents: Option<&str>) -> (c: Config)
        ensures
            c@ == match contents {
                Some(text) => parsed(default_config(), text@),
                None => default_config(),
            },
    {
        let mut config = Config::default();
        match contents {
            Some(text) => {
                config.parse_config(text);
            },
            None => {},
        }
        config
    }

    /// Changes the settings as the settings text `contents` says.
    pub fn parse_config(&mut self, contents: &str)
        ensures
            final(self)@ == parsed(old(self)@, contents@),
    {
        let chars = chars_of(contents);
        let lines = split_on(chars.as_slice(), '\n');
        let mut i: usize = 0;
        assert(slice_views(lines@).take(0) == Seq::<Seq<char>>::empty());
        while i < lines.len()
            invariant
                i <= lines.len(),
                slice_views(lines@) == split(contents@, '\n'),
                self@ == apply_lines(old(self)@, slice_views(lines@).take(i as int)),
            decreases lines.len() - i,
        {
            let ghost seen = slice_views(lines@).take(i as int + 1);
            assert(seen.drop_last() == slice_views(lines@).take(i as int));
            assert(seen.last() == lines@[i as int]@);
            self.parse_line(lines[i]);
            i += 1;
        }
        assert(slice_views(lines@).take(i as int) == slice_views(lines@));
    }

    /// Changes the settings as one line of settings text says.
    pub fn parse_line(&mut self, line: &[char])
        ensures
            final(self)@ == apply_line(old(self)@, line@),
    {
        let text = trimmed(line);
        if text.len() == 0 || text[0] == '#' {
            return ;
        }
        let cut = find(text, '=');
        if cut >= text.len() {
            return ;
        }
        let key = string_of(trimmed(slice_subrange(text, 0, cut))).as_str().to_lowercase();
        let value = trimmed(slice_subrange(text, cut + 1, text.len()));
        assert(text@.subrange(0, cut as int) == text@.take(cut as int));
        assert(text@.subrange(cut as int + 1, text@.len() as int) == text@.skip(cut as int + 1));
        self.set_option(key.as_str(), value);
    }

    /// Sets the option `key`, in lower case, from `value`.
    pub fn set_option(&mut self, key: &str, value: &[char])
        ensures
            final(self)@ == with_option(old(self)@, key@, value@),
    {
        if key.eq("show_icons") {
            self.show_icons = truth_of(value);
        } else if key.eq("show_permissions") {
            self.show_permissions = truth_of(value);
        } else if key.eq("show_owner") {
            self.show_owner = truth_of(value);
        } else if key.eq("show_group") {
            self.show_group = truth_of(value);
        } else if key.eq("show_modified") {
            self.show_modified = truth_of(value);
        } else if key.eq("use_fuzzy_time") {
            self.use_fuzzy_time = truth_of(value);
        } else if key.eq("column_format") {
            self.column_format = truth_of(value);
        } else if key.eq("sort_dirs_first") {
            self.sort_dirs_first = truth_of(value);
        } else if key.eq("show_hidden") {
            self.show_hidden = truth_of(value);
        } else if key.eq("long_format") {
            self.long_format = truth_of(value);
        } else if key.eq("column_order") {
            self.column_order = read_column_list(value);
        }
    }

    /// The truth value that `value` stands for: true for `true`, `yes`, `1`,
    /// `on` and `enabled` in any mix of cases, false for everything else.
    pub fn parse_bool(value: &str) -> (r: bool)
        ensures
            r == bool_of(value@),
    {
        truth_of_word(value.to_lowercase().as_str())
    }
}

/// Values that differ only in case stand for the same truth value; the
/// spellings of true stand for true, and the spellings of false, like every
/// other value, stand for false.
pub proof fn lemma_bool_of_spellings(a: Seq<char>, b: Seq<char>)
    ensures
        lowercase(a) == lowercase(b) ==> bool_of(a) == bool_of(b),
        is_true_word(lowercase(a)) ==> bool_of(a),
        is_false_word(lowercase(a)) ==> !bool_of(a),
        !is_true_word(lowercase(a)) ==> !bool_of(a),
{
    reveal_strlit("true");
    reveal_strlit("yes");
    reveal_strlit("1");
    reveal_strlit("on");
    reveal_strlit("enabled");
    reveal_strlit("false");
    reveal_strlit("no");
    reveal_strlit("0");
    reveal_strlit("off");
    reveal_strlit("disabled");
    assert("true"@.len() == 4 && "yes"@.len() == 3 && "1"@.len() == 1 && "on"@.len() == 2
        && "enabled"@.len() == 7);
    assert("false"@.len() == 5 && "no"@.len() == 2 && "0"@.len() == 1 && "off"@.len() == 3
        && "disabled"@.len() == 8);
    assert("no"@[0] != "on"@[0]);
    assert("0"@[0] != "1"@[0]);
    assert("off"@[0] != "yes"@[0]);
}

} // verus!
