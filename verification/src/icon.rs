//! Icons by file type: a glyph for directories, one for each known file
//! extension, one for hidden names and one for everything else.

use vstd::prelude::*;
use crate::text::lowercase;
use std::path::Path;

verus! {

/// The glyph of a directory.
pub const FOLDER_ICON: &'static str = "ðŸ“";

/// The glyph of a file with no known extension whose name starts with a dot.
pub const HIDDEN_ICON: &'static str = "ó°˜“";

/// The glyph of any other file with no known extension.
pub const FILE_ICON: &'static str = "ðŸ“„";

/// The number of extensions with a glyph of their own.
pub const ICON_COUNT: usize = 64;

/// The known extensions, in lower case, each with its glyph.
pub open spec fn icon_table() -> Seq<(&'static str, &'static str)> {
    seq![
        ("rs", "ðŸ¦€"),
        ("py", "ðŸ"),
        ("js", "ó°Œž"),
        ("ts", "ó°›¦"),
        ("html", "ó°Œ"),
        ("htm", "ó°Œ"),
        ("css", "ó°Œœ"),
        ("json", "ó°˜¦"),
        ("md", "ó°”"),
        ("markdown", "ó°”"),
        ("txt", "ó°ˆ™"),
        ("pdf", "ó°ˆ¦"),
        ("zip", "ðŸ—œï¸"),
        ("tar", "ðŸ—œï¸"),
        ("gz", "ðŸ—œï¸"),
        ("rar", "ðŸ—œï¸"),
        ("jpg", "ðŸ–¼ï¸"),
        ("jpeg", "ðŸ–¼ï¸"),
        ("png", "ðŸ–¼ï¸"),
        ("gif", "ðŸ–¼ï¸"),
        ("bmp", "ðŸ–¼ï¸"),
        ("svg", "ðŸ–¼ï¸"),
        ("mp3", "ðŸŽµ"),
        ("wav", "ðŸŽµ"),
        ("flac", "ðŸŽµ"),
        ("ogg", "ðŸŽµ"),
        ("mp4", "ðŸŽ¬"),
        ("mkv", "ðŸŽ¬"),
        ("avi", "ðŸŽ¬"),
        ("mov", "ðŸŽ¬"),
        ("exe", "âš™ï¸"),
        ("bin", "âš™ï¸"),
        ("toml", "âš™ï¸"),
        ("yaml", "âš™ï¸"),
        ("yml", "âš™ï¸"),
        ("ini", "âš™ï¸"),
        ("conf", "âš™ï¸"),
        ("c", "ó°™±"),
        ("h", "ó°™±"),
        ("cpp", "ó°™²"),
        ("cc", "ó°™²"),
        ("cxx", "ó°™²"),
        ("hpp", "ó°™²"),
        ("java", "ó°¬·"),
        ("php", "ó°ŒŸ"),
        ("rb", "ó°´\u{ad}"),
        ("go", "ó°Ÿ“"),
        ("sh", "ó°†"),
        ("bash", "ó°†"),
        ("zsh", "ó°†"),
        ("sql", "ó°†¼"),
        ("xml", "ó°—€"),
        ("log", "ó°Œ±"),
        ("lock", "ó°Œ¾"),
        ("dockerfile", "ðŸ³"),
        ("vue", "ó°¡„"),
        ("react", "ó°œˆ"),
        ("jsx", "ó°œˆ"),
        ("tsx", "ó°œˆ"),
        ("git", "ó°Š¢"),
        ("node", "ó°Ž™"),
        ("npm", "ó°Ž™"),
        ("yarn", "ó°¬·"),
        ("docker", "ðŸ³"),
    ]
}

/// What `Path::extension` gives for a path: the part of its file name after
/// the last dot, if the file name has one that is not its first character.
pub uninterp spec fn path_extension(path: Seq<char>) -> Option<Seq<char>>;

/// `Path::extension`, as a string. The extension of a path depends on the
/// path alone, and `path_extension` is the name of that result.
#[verifier::external_body]
fn extension_of(path: &str) -> (r: Option<String>)
    ensures
        match r {
            Some(e) => path_extension(path@) == Some(e@),
            None => path_extension(path@) is None,
        },
{
    match Path::new(path).extension() {
        Some(extension) => Some(extension.to_string_lossy().into_owned()),
        None => None,
    }
}

/// The glyph that the first entry of `table` for `extension` holds.
pub open spec fn table_glyph(table: Seq<(&'static str, &'static str)>, extension: Seq<char>) -> Option<
    Seq<char>,
>
    decreases table.len(),
{
    if table.len() == 0 {
        None
    } else if table[0].0@ == extension {
        Some(table[0].1@)
    } else {
        table_glyph(table.drop_first(), extension)
    }
}

/// Whether a name starts with a dot.
pub open spec fn is_hidden(name: Seq<char>) -> bool {
    name.len() > 0 && name[0] == '.'
}

/// The glyph of an entry, given its name, whether it is a directory, and the
/// lower-case extension of the name: directories have the folder glyph
/// whatever their name; a file has the glyph of its extension if the table
/// knows it, else the hidden glyph if its name starts with a dot, else the
/// plain file glyph.
pub open spec fn icon_for(name: Seq<char>, is_dir: bool, extension: Seq<char>) -> Seq<char> {
    if is_dir {
        FOLDER_ICON@
    } else {
        match table_glyph(icon_table(), extension) {
            Some(glyph) => glyph,
            None => if is_hidden(name) {
                HIDDEN_ICON@
            } else {
                FILE_ICON@
            },
        }
    }
}

/// The lower-case extension by which a file name is classified: empty when
/// the name has no extension.
pub open spec fn classifying_extension(name: Seq<char>) -> Seq<char> {
    match path_extension(name) {
        Some(e) => lowercase(e),
        None => lowercase(Seq::empty()),
    }
}

/// The known extensions, each with its glyph.
fn icon_entries() -> (table: [(&'static str, &'static str); 64])
    ensures
        table@ == icon_table(),
{
    let table = [
        ("rs", "ðŸ¦€"),
        ("py", "ðŸ"),
        ("js", "ó°Œž"),
        ("ts", "ó°›¦"),
        ("html", "ó°Œ"),
        ("htm", "ó°Œ"),
        ("css", "ó°Œœ"),
        ("json", "ó°˜¦"),
        ("md", "ó°”"),
        ("markdown", "ó°”"),
        ("txt", "ó°ˆ™"),
        ("pdf", "ó°ˆ¦"),
        ("zip", "ðŸ—œï¸"),
        ("tar", "ðŸ—œï¸"),
        ("gz", "ðŸ—œï¸"),
        ("rar", "ðŸ—œï¸"),
        ("jpg", "ðŸ–¼ï¸"),
        ("jpeg", "ðŸ–¼ï¸"),
        ("png", "ðŸ–¼ï¸"),
        ("gif", "ðŸ–¼ï¸"),
        ("bmp", "ðŸ–¼ï¸"),
        ("svg", "ðŸ–¼ï¸"),
        ("mp3", "ðŸŽµ"),
        ("wav", "ðŸŽµ"),
        ("flac", "ðŸŽµ"),
        ("ogg", "ðŸŽµ"),
        ("mp4", "ðŸŽ¬"),
        ("mkv", "ðŸŽ¬"),
        ("avi", "ðŸŽ¬"),
        ("mov", "ðŸŽ¬"),
        ("exe", "âš™ï¸"),
        ("bin", "âš™ï¸"),
        ("toml", "âš™ï¸"),
        ("yaml", "âš™ï¸"),
        ("yml", "âš™ï¸"),
        ("ini", "âš™ï¸"),
        ("conf", "âš™ï¸"),
        ("c", "ó°™±"),
        ("h", "ó°™±"),
        ("cpp", "ó°™²"),
        ("cc", "ó°™²"),
        ("cxx", "ó°™²"),
        ("hpp", "ó°™²"),
        ("java", "ó°¬·"),
        ("php", "ó°ŒŸ"),
        ("rb", "ó°´\u{ad}"),
        ("go", "ó°Ÿ“"),
        ("sh", "ó°†"),
        ("bash", "ó°†"),
        ("zsh", "ó°†"),
        ("sql", "ó°†¼"),
        ("xml", "ó°—€"),
        ("log", "ó°Œ±"),
        ("lock", "ó°Œ¾"),
        ("dockerfile", "ðŸ³"),
        ("vue", "ó°¡„"),
        ("react", "ó°œˆ"),
        ("jsx", "ó°œˆ"),
        ("tsx", "ó°œˆ"),
        ("git", "ó°Š¢"),
        ("node", "ó°Ž™"),
        ("npm", "ó°Ž™"),
        ("yarn", "ó°¬·"),
        ("docker", "ðŸ³"),
    ];
    assert(table@ =~= icon_table());
    table
}

/// Whether `name` starts with a dot.
pub fn starts_with_dot(name: &str) -> (r: bool)
    ensures
        r == is_hidden(name@),
{
    !name.is_empty() && name.get_char(0) == '.'
}

/// The glyph of an entry named `name` whose lower-case extension is
/// `extension`.
pub fn icon_for_extension(name: &str, is_dir: bool, extension: &str) -> (glyph: &'static str)
    ensures
        glyph@ == icon_for(name@, is_dir, extension@),
{
    if is_dir {
        return FOLDER_ICON;
    }
    let table = icon_entries();
    let mut i: usize = 0;
    assert(icon_table().skip(0) == icon_table());
    while i < ICON_COUNT
        invariant
            !is_dir,
            i <= ICON_COUNT,
            table@ == icon_table(),
            table@.len() == ICON_COUNT,
            table_glyph(icon_table(), extension@) == table_glyph(
                icon_table().skip(i as int),
                extension@,
            ),
        decreases ICON_COUNT - i,
    {
        let ghost rest = icon_table().skip(i as int);
        assert(rest.len() > 0 && rest[0] == table@[i as int]);
        assert(rest.drop_first() == icon_table().skip(i as int + 1));
        if table[i].0.eq(extension) {
            return table[i].1;
        }
        i += 1;
    }
    if starts_with_dot(name) {
        HIDDEN_ICON
    } else {
        FILE_ICON
    }
}

/// The glyph of an entry: the folder glyph for a directory, else the glyph
/// of the file name's lower-case extension, else the hidden glyph for a name
/// that starts with a dot, else the plain file glyph.
pub fn get_file_icon(filename: &str, is_dir: bool) -> (glyph: &'static str)
    ensures
        glyph@ == icon_for(filename@, is_dir, classifying_extension(filename@)),
{
    let extension = match extension_of(filename) {
        Some(e) => e.as_str().to_lowercase(),
        None => "".to_lowercase(),
    };
    proof {
        reveal_strlit("");
        assert(""@ =~= Seq::<char>::empty());
    }
    icon_for_extension(filename, is_dir, extension.as_str())
}

/// A file whose name starts with a dot has the hidden glyph only if the
/// table knows no glyph for its extension; a directory has the folder glyph
/// whatever its name.
pub proof fn lemma_hidden_glyph(name: Seq<char>, extension: Seq<char>)
    requires
        is_hidden(name),
    ensures
        icon_for(name, true, extension) == FOLDER_ICON@,
        icon_for(name, false, extension) == match table_glyph(icon_table(), extension) {
            Some(glyph) => glyph,
            None => HIDDEN_ICON@,
        },
{
}

} // verus!
