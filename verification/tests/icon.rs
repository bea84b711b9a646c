use yal::icon::{get_file_icon, icon_for_extension, starts_with_dot, FILE_ICON, FOLDER_ICON, HIDDEN_ICON};

#[test]
fn directories_have_the_folder_glyph() {
    assert_eq!(get_file_icon("src", true), "ðŸ“");
    assert_eq!(get_file_icon("main.rs", true), FOLDER_ICON);
    assert_eq!(get_file_icon(".git", true), FOLDER_ICON);
    assert_eq!(get_file_icon("", true), FOLDER_ICON);
}

#[test]
fn files_by_extension() {
    assert_eq!(get_file_icon("main.rs", false), "ðŸ¦€");
    assert_eq!(get_file_icon("script.py", false), "ðŸ");
    assert_eq!(get_file_icon("notes.txt", false), "ó°ˆ™");
    assert_eq!(get_file_icon("index.html", false), get_file_icon("index.htm", false));
    assert_eq!(get_file_icon("a.zip", false), "ðŸ—œï¸");
    assert_eq!(get_file_icon("a.tar", false), get_file_icon("a.rar", false));
    assert_eq!(get_file_icon("photo.jpeg", false), "ðŸ–¼ï¸");
    assert_eq!(get_file_icon("song.flac", false), "ðŸŽµ");
    assert_eq!(get_file_icon("film.mkv", false), "ðŸŽ¬");
    assert_eq!(get_file_icon("tool.exe", false), "âš™ï¸");
    assert_eq!(get_file_icon("Cargo.toml", false), "âš™ï¸");
    assert_eq!(get_file_icon("Cargo.lock", false), "ó°Œ¾");
    assert_eq!(get_file_icon("x.docker", false), get_file_icon("x.dockerfile", false));
    assert_eq!(get_file_icon("lib.rb", false), "ó°´\u{ad}");
}

#[test]
fn the_last_extension_counts() {
    assert_eq!(get_file_icon("archive.tar.gz", false), get_file_icon("x.gz", false));
    assert_eq!(get_file_icon("main.rs.txt", false), get_file_icon("x.txt", false));
    assert_eq!(get_file_icon("main.txt.rs", false), get_file_icon("x.rs", false));
}

#[test]
fn extensions_are_read_without_regard_to_case() {
    assert_eq!(get_file_icon("MAIN.RS", false), "ðŸ¦€");
    assert_eq!(get_file_icon("Photo.JpG", false), get_file_icon("photo.jpg", false));
}

#[test]
fn files_without_a_known_extension() {
    assert_eq!(get_file_icon("README", false), "ðŸ“„");
    assert_eq!(get_file_icon("data.xyz", false), FILE_ICON);
    assert_eq!(get_file_icon("rs", false), FILE_ICON);
    assert_eq!(get_file_icon("trailing.", false), FILE_ICON);
    assert_eq!(get_file_icon("", false), FILE_ICON);
}

#[test]
fn hidden_files_without_a_known_extension() {
    assert_eq!(get_file_icon(".bashrc", false), "ó°˜“");
    assert_eq!(get_file_icon(".rs", false), HIDDEN_ICON);
    assert_eq!(get_file_icon(".hidden.xyz", false), HIDDEN_ICON);
    assert_eq!(get_file_icon(".", false), HIDDEN_ICON);
    assert_eq!(get_file_icon("..", false), HIDDEN_ICON);
}

#[test]
fn hidden_files_with_a_known_extension() {
    assert_eq!(get_file_icon(".config.toml", false), "âš™ï¸");
    assert_eq!(get_file_icon(".notes.md", false), get_file_icon("notes.md", false));
}

#[test]
fn the_extension_is_that_of_the_file_name() {
    assert_eq!(get_file_icon("dir.rs/file", false), FILE_ICON);
    assert_eq!(get_file_icon("dir/file.rs", false), "ðŸ¦€");
}

#[test]
fn glyph_for_a_given_extension() {
    assert_eq!(icon_for_extension("anything", false, "rs"), "ðŸ¦€");
    assert_eq!(icon_for_extension("anything", false, "RS"), FILE_ICON);
    assert_eq!(icon_for_extension(".anything", false, "RS"), HIDDEN_ICON);
    assert_eq!(icon_for_extension(".anything", false, "go"), "ó°Ÿ“");
    assert_eq!(icon_for_extension(".anything", true, "go"), FOLDER_ICON);
    assert_eq!(icon_for_extension("x", false, ""), FILE_ICON);
    assert_eq!(icon_for_extension("x", false, "docker"), "ðŸ³");
    assert_eq!(icon_for_extension("x", false, "yarn"), icon_for_extension("x", false, "java"));
}

#[test]
fn names_that_start_with_a_dot() {
    assert!(starts_with_dot(".a"));
    assert!(starts_with_dot("."));
    assert!(!starts_with_dot(""));
    assert!(!starts_with_dot("a.b"));
    assert!(!starts_with_dot(" .a"));
}
