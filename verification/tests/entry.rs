use yal::config::Config;
use yal::entry::{format_permissions, Column, FileEntry, RawEntry};
use yal::names::NameCache;
use yal::time::Timestamp;

fn entry(name: &str, is_dir: bool) -> FileEntry {
    FileEntry {
        name: name.to_string(),
        permissions: "644".to_string(),
        owner: "alice".to_string(),
        group: "staff".to_string(),
        modified_text: "now".to_string(),
        icon: "I",
        is_dir,
    }
}

fn config(text: &str) -> Config {
    Config::load(Some(text))
}

fn cache() -> NameCache {
    let users = vec!["root:x:0:0::/root:/bin/sh".to_string(), "alice:x:1000:50::/h:/bin/sh".to_string()];
    let groups = vec!["root:x:0:".to_string(), "staff:x:50:".to_string()];
    NameCache::new(&users, &groups)
}

#[test]
fn permissions_are_three_octal_digits() {
    assert_eq!(format_permissions(0o644), "644");
    assert_eq!(format_permissions(0o755), "755");
    assert_eq!(format_permissions(0o777), "777");
    assert_eq!(format_permissions(0o007), "007");
    assert_eq!(format_permissions(0o070), "070");
    assert_eq!(format_permissions(0o044), "044");
    assert_eq!(format_permissions(0), "000");
}

#[test]
fn permissions_are_the_low_nine_bits() {
    assert_eq!(format_permissions(0o100644), "644");
    assert_eq!(format_permissions(0o040755), "755");
    assert_eq!(format_permissions(0o104750), "750");
    assert_eq!(format_permissions(0o1000), "000");
    assert_eq!(format_permissions(u32::MAX), "777");
}

#[test]
fn column_names() {
    assert!(matches!(Column::from_name("icon"), Some(Column::Icon)));
    assert!(matches!(Column::from_name("permissions"), Some(Column::Permissions)));
    assert!(matches!(Column::from_name("owner"), Some(Column::Owner)));
    assert!(matches!(Column::from_name("group"), Some(Column::Group)));
    assert!(matches!(Column::from_name("modified"), Some(Column::Modified)));
    assert!(matches!(Column::from_name("name"), Some(Column::Name)));
    assert!(Column::from_name("Name").is_none());
    assert!(Column::from_name("size").is_none());
    assert!(Column::from_name("").is_none());
}

#[test]
fn shown_columns() {
    let c = config("show_owner=false\nshow_icons=false");
    assert!(!c.shows(Column::Owner));
    assert!(!c.shows(Column::Icon));
    assert!(c.shows(Column::Group));
    assert!(c.shows(Column::Permissions));
    assert!(c.shows(Column::Modified));
    assert!(c.shows(Column::Name));
}

#[test]
fn resolving_a_file() {
    let raw = RawEntry {
        name: "main.rs".to_string(),
        mode: 0o100640,
        uid: 1000,
        gid: 50,
        modified: Some(Timestamp { before_epoch: false, secs: 90061, nanos: 0 }),
        is_dir: false,
    };
    let e = FileEntry::new(&raw, &cache(), &config("use_fuzzy_time=false"));
    assert_eq!(e.name, "main.rs");
    assert_eq!(e.permissions, "640");
    assert_eq!(e.owner, "alice");
    assert_eq!(e.group, "staff");
    assert_eq!(e.modified_text, "1d 1h:1m");
    assert_eq!(e.icon, "ðŸ¦€");
    assert!(!e.is_dir);
}

#[test]
fn resolving_a_directory_of_unknown_owner() {
    let raw = RawEntry {
        name: "photos.png".to_string(),
        mode: 0o040755,
        uid: 77,
        gid: 88,
        modified: None,
        is_dir: true,
    };
    let e = FileEntry::new(&raw, &cache(), &Config::default());
    assert_eq!(e.name, "photos.png");
    assert_eq!(e.permissions, "755");
    assert_eq!(e.owner, "77");
    assert_eq!(e.group, "88");
    assert_eq!(e.modified_text, "unknown");
    assert_eq!(e.icon, "ðŸ“");
    assert!(e.is_dir);
}

#[test]
fn resolving_with_a_fuzzy_time() {
    let raw = RawEntry {
        name: "later".to_string(),
        mode: 0,
        uid: 0,
        gid: 0,
        modified: Some(Timestamp { before_epoch: false, secs: u64::MAX, nanos: 0 }),
        is_dir: false,
    };
    let e = FileEntry::new(&raw, &cache(), &Config::default());
    assert_eq!(e.modified_text, "future");
    assert_eq!(e.owner, "root");
    assert_eq!(e.group, "root");
    assert_eq!(e.permissions, "000");
}

#[test]
fn aligned_line_of_a_file() {
    let line = entry("a.rs", false).format_display(&Config::default(), 3, 5, 5, 3);
    assert_eq!(
        line,
        "I   \x1b[33m644\x1b[0m \x1b[32malice\x1b[0m \x1b[36mstaff\x1b[0m \x1b[35mnow\x1b[0m a.rs"
    );
}

#[test]
fn aligned_line_is_padded_on_the_left() {
    let line = entry("a.rs", false).format_display(&Config::default(), 4, 8, 5, 10);
    assert_eq!(
        line,
        "I   \x1b[33m 644\x1b[0m \x1b[32m   alice\x1b[0m \x1b[36mstaff\x1b[0m \x1b[35m       now\x1b[0m a.rs"
    );
}

#[test]
fn a_width_below_the_text_cuts_nothing() {
    let line = entry("a.rs", false).format_display(&Config::default(), 0, 1, 2, 0);
    assert_eq!(
        line,
        "I   \x1b[33m644\x1b[0m \x1b[32malice\x1b[0m \x1b[36mstaff\x1b[0m \x1b[35mnow\x1b[0m a.rs"
    );
}

#[test]
fn aligned_line_of_a_directory() {
    let line = entry("docs", true).format_display(&Config::default(), 3, 5, 5, 3);
    assert_eq!(
        line,
        "I   \x1b[33m644\x1b[0m \x1b[32malice\x1b[0m \x1b[36mstaff\x1b[0m \x1b[35mnow\x1b[0m \x1b[34;1mdocs\x1b[0m"
    );
}

#[test]
fn simple_line() {
    let c = config("column_format=false");
    let line = entry("a.rs", false).format_display(&c, 9, 9, 9, 9);
    assert_eq!(
        line,
        "I \x1b[33m644\x1b[0m \x1b[32malice\x1b[0m \x1b[36mstaff\x1b[0m \x1b[35mnow\x1b[0m a.rs"
    );
    let dir = entry("docs", true).format_display(&c, 9, 9, 9, 9);
    assert_eq!(
        dir,
        "I \x1b[33m644\x1b[0m \x1b[32malice\x1b[0m \x1b[36mstaff\x1b[0m \x1b[35mnow\x1b[0m \x1b[34;1mdocs\x1b[0m"
    );
}

#[test]
fn name_and_permissions_only() {
    let c = config("column_order=name,permissions\nshow_owner=false");
    assert_eq!(entry("a.rs", false).format_display(&c, 3, 0, 5, 3), "a.rs \x1b[33m644\x1b[0m");
    assert_eq!(
        entry("docs", true).format_display(&c, 3, 0, 5, 3),
        "\x1b[34;1mdocs\x1b[0m \x1b[33m644\x1b[0m"
    );
    let simple = config("column_order=name,permissions\nshow_owner=false\ncolumn_format=false");
    assert_eq!(entry("a.rs", false).format_display(&simple, 3, 0, 5, 3), "a.rs \x1b[33m644\x1b[0m");
}

#[test]
fn columns_that_are_not_shown_take_no_room() {
    let c = config("show_owner=false\nshow_group=false\nshow_icons=false");
    assert_eq!(
        entry("a.rs", false).format_display(&c, 3, 0, 0, 3),
        "\x1b[33m644\x1b[0m \x1b[35mnow\x1b[0m a.rs"
    );
}

#[test]
fn unknown_column_names_are_passed_over() {
    let c = config("column_order=size,name,Owner,,group,bogus");
    assert_eq!(entry("a.rs", false).format_display(&c, 3, 5, 5, 3), "a.rs \x1b[36mstaff\x1b[0m");
}

#[test]
fn a_column_may_stand_twice() {
    let c = config("column_order=name,name,icon");
    assert_eq!(entry("a", false).format_display(&c, 0, 0, 0, 0), "a a I  ");
}

#[test]
fn no_column_gives_an_empty_line() {
    let c = config("column_order=\n");
    assert_eq!(entry("a", false).format_display(&c, 3, 5, 5, 3), "");
    let hidden = config("column_order=owner\nshow_owner=off");
    assert_eq!(entry("a", false).format_display(&hidden, 3, 5, 5, 3), "");
}

#[test]
fn format_columns_with_a_colour_of_the_caller() {
    let line = entry("a", false).format_columns(&config("column_order=name,owner"), 0, 6, 0, 0, "<", ">");
    assert_eq!(line, "<a> \x1b[32m alice\x1b[0m");
}

#[test]
fn format_simple_with_a_colour_of_the_caller() {
    let line = entry("a", false).format_simple(&config("column_order=icon,name,owner"), "<", ">");
    assert_eq!(line, "I <a> \x1b[32malice\x1b[0m");
}

#[test]
fn padding_counts_characters() {
    let mut e = entry("a", false);
    e.owner = "zoë".to_string();
    let line = e.format_columns(&config("column_order=owner"), 0, 5, 0, 0, "", "");
    assert_eq!(line, "\x1b[32m  zoë\x1b[0m");
}
