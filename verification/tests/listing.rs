use yal::config::Config;
use yal::entry::{Column, FileEntry, RawEntry};
use yal::names::NameCache;
use yal::order::sort_entries;
use yal::render::{column_widths, list_directory, render, resolve_entries, widest_text};

fn entry(name: &str, is_dir: bool, owner: &str) -> FileEntry {
    FileEntry {
        name: name.to_string(),
        permissions: "644".to_string(),
        owner: owner.to_string(),
        group: "staff".to_string(),
        modified_text: "now".to_string(),
        icon: "I",
        is_dir,
    }
}

fn raw(name: &str, is_dir: bool) -> RawEntry {
    RawEntry { name: name.to_string(), mode: 0o644, uid: 1000, gid: 50, modified: None, is_dir }
}

fn cache() -> NameCache {
    NameCache::new(&vec!["alice:x:1000:50::/h:/bin/sh".to_string()], &vec!["staff:x:50:".to_string()])
}

fn names(entries: &Vec<FileEntry>) -> Vec<(&str, &str)> {
    entries.iter().map(|e| (e.name.as_str(), e.owner.as_str())).collect()
}

#[test]
fn directories_first_then_by_name() {
    let mut entries = vec![entry("b.txt", false, "1"), entry("A", true, "2"), entry("a.rs", false, "3")];
    sort_entries(&mut entries, &Config::default());
    assert_eq!(names(&entries), vec![("A", "2"), ("a.rs", "3"), ("b.txt", "1")]);
}

#[test]
fn directories_first_whatever_their_names() {
    let mut entries = vec![
        entry("a", false, "1"),
        entry("zz", true, "2"),
        entry("B", false, "3"),
        entry("Yy", true, "4"),
    ];
    sort_entries(&mut entries, &Config::default());
    assert_eq!(names(&entries), vec![("Yy", "4"), ("zz", "2"), ("a", "1"), ("B", "3")]);
}

#[test]
fn by_name_alone() {
    let mut entries = vec![
        entry("a", false, "1"),
        entry("zz", true, "2"),
        entry("B", false, "3"),
        entry("Yy", true, "4"),
    ];
    sort_entries(&mut entries, &Config::load(Some("sort_dirs_first=false")));
    assert_eq!(names(&entries), vec![("a", "1"), ("B", "3"), ("Yy", "4"), ("zz", "2")]);
}

#[test]
fn names_are_ordered_without_regard_to_case() {
    let mut entries = vec![entry("b", false, ""), entry("C", false, ""), entry("a", false, ""), entry("D", false, "")];
    sort_entries(&mut entries, &Config::default());
    let order: Vec<&str> = entries.iter().map(|e| e.name.as_str()).collect();
    assert_eq!(order, vec!["a", "b", "C", "D"]);
}

#[test]
fn ties_keep_the_order_in_which_they_were_read() {
    let mut entries = vec![
        entry("readme", false, "1"),
        entry("README", false, "2"),
        entry("a", false, "3"),
        entry("ReadMe", false, "4"),
        entry("readme", false, "5"),
    ];
    sort_entries(&mut entries, &Config::default());
    assert_eq!(
        names(&entries),
        vec![("a", "3"), ("readme", "1"), ("README", "2"), ("ReadMe", "4"), ("readme", "5")]
    );
    let mut reversed = vec![
        entry("readme", false, "5"),
        entry("ReadMe", false, "4"),
        entry("README", false, "2"),
        entry("readme", false, "1"),
    ];
    sort_entries(&mut reversed, &Config::default());
    assert_eq!(
        names(&reversed),
        vec![("readme", "5"), ("ReadMe", "4"), ("README", "2"), ("readme", "1")]
    );
}

#[test]
fn ties_between_a_directory_and_a_file() {
    let mut entries = vec![entry("x", false, "1"), entry("X", true, "2"), entry("x", true, "3")];
    sort_entries(&mut entries, &Config::default());
    assert_eq!(names(&entries), vec![("X", "2"), ("x", "3"), ("x", "1")]);
    let mut plain = vec![entry("x", false, "1"), entry("X", true, "2"), entry("x", true, "3")];
    sort_entries(&mut plain, &Config::load(Some("sort_dirs_first=no")));
    assert_eq!(names(&plain), vec![("x", "1"), ("X", "2"), ("x", "3")]);
}

#[test]
fn sorting_few_entries() {
    let mut none: Vec<FileEntry> = Vec::new();
    sort_entries(&mut none, &Config::default());
    assert!(none.is_empty());
    let mut one = vec![entry("a", false, "1")];
    sort_entries(&mut one, &Config::default());
    assert_eq!(names(&one), vec![("a", "1")]);
}

#[test]
fn sorting_many_entries() {
    let mut entries = Vec::new();
    for i in 0..200u32 {
        let k = (i * 37) % 101;
        entries.push(entry(&format!("{:03}", k), k % 3 == 0, &format!("{}", i)));
    }
    sort_entries(&mut entries, &Config::default());
    for pair in entries.windows(2) {
        let (a, b) = (&pair[0], &pair[1]);
        let key_a = (!a.is_dir, a.name.clone(), a.owner.parse::<u32>().unwrap());
        let key_b = (!b.is_dir, b.name.clone(), b.owner.parse::<u32>().unwrap());
        assert!(key_a < key_b, "{:?} {:?}", key_a, key_b);
    }
    assert_eq!(entries.len(), 200);
}

#[test]
fn hidden_entries_are_left_out() {
    let raws = vec![raw(".git", true), raw("a", false), raw(".env", false), raw("b.", false), raw("..c", false)];
    let entries = resolve_entries(&raws, &cache(), &Config::default());
    let listed: Vec<&str> = entries.iter().map(|e| e.name.as_str()).collect();
    assert_eq!(listed, vec!["a", "b."]);
}

#[test]
fn hidden_entries_are_shown_on_demand() {
    let raws = vec![raw(".git", true), raw("a", false), raw(".env", false), raw(".notes.md", false)];
    let entries = resolve_entries(&raws, &cache(), &Config::load(Some("show_hidden=true")));
    let listed: Vec<(&str, &str)> = entries.iter().map(|e| (e.name.as_str(), e.icon)).collect();
    assert_eq!(
        listed,
        vec![(".git", "ðŸ“"), ("a", "ðŸ“„"), (".env", "ó°˜“"), (".notes.md", "ó°”")]
    );
}

#[test]
fn whether_a_name_is_listed() {
    let c = Config::default();
    assert!(c.lists("a"));
    assert!(c.lists(""));
    assert!(!c.lists(".a"));
    let all = Config::load(Some("show_hidden=1"));
    assert!(all.lists("a"));
    assert!(all.lists(".a"));
}

#[test]
fn widths_are_those_of_the_widest_texts() {
    let mut a = entry("a", false, "al");
    a.permissions = "7".to_string();
    a.modified_text = "3 minutes".to_string();
    let mut b = entry("b", false, "barbara");
    b.group = "g".to_string();
    let entries = vec![a, b];
    let w = column_widths(&entries, &Config::default());
    assert_eq!((w.permissions, w.owner, w.group, w.modified), (3, 7, 5, 9));
    assert_eq!(widest_text(&entries, Column::Owner), 7);
    assert_eq!(widest_text(&entries, Column::Name), 0);
    assert_eq!(widest_text(&Vec::new(), Column::Owner), 0);
}

#[test]
fn widths_of_columns_that_are_not_shown_are_zero() {
    let entries = vec![entry("a", false, "alice")];
    let w = column_widths(&entries, &Config::load(Some("show_owner=false\nshow_modified=no")));
    assert_eq!((w.permissions, w.owner, w.group, w.modified), (3, 0, 5, 0));
    let simple = column_widths(&entries, &Config::load(Some("column_format=false")));
    assert_eq!((simple.permissions, simple.owner, simple.group, simple.modified), (0, 0, 0, 0));
}

#[test]
fn widths_count_bytes() {
    let entries = vec![entry("a", false, "zoë"), entry("b", false, "bob")];
    let w = column_widths(&entries, &Config::default());
    assert_eq!(w.owner, 4);
    let lines = render("/d", &entries, &Config::load(Some("column_order=owner")));
    assert_eq!(lines[2], "\x1b[32m zoë\x1b[0m");
    assert_eq!(lines[3], "\x1b[32m bob\x1b[0m");
}

#[test]
fn every_text_of_a_column_is_padded_to_one_width() {
    let entries = vec![entry("a", false, "al"), entry("b", false, "barbara"), entry("c", false, "")];
    let lines = render("/d", &entries, &Config::load(Some("column_order=owner,name")));
    assert_eq!(
        lines,
        vec![
            "/d (3 items)",
            "",
            "\x1b[32m     al\x1b[0m a",
            "\x1b[32mbarbara\x1b[0m b",
            "\x1b[32m       \x1b[0m c",
        ]
    );
}

#[test]
fn listing_of_nothing() {
    assert_eq!(render("/tmp/x", &Vec::new(), &Config::default()), vec![" Empty directory"]);
    assert_eq!(
        list_directory("/tmp/x", &Vec::new(), &cache(), &Config::default()),
        vec![" Empty directory"]
    );
}

#[test]
fn listing_of_hidden_entries_only() {
    let raws = vec![raw(".git", true), raw(".env", false)];
    assert_eq!(list_directory("/tmp/x", &raws, &cache(), &Config::default()), vec![" Empty directory"]);
}

#[test]
fn listing_in_order() {
    let raws = vec![raw("b.txt", false), raw("A", true), raw("a.rs", false)];
    let config = Config::load(Some("column_order=name\nsort_dirs_first=true"));
    assert_eq!(
        list_directory("/home/u/project", &raws, &cache(), &config),
        vec!["/home/u/project (3 items)", "", "\x1b[34;1mA\x1b[0m", "a.rs", "b.txt"]
    );
}

#[test]
fn listing_with_name_and_permissions() {
    let raws = vec![raw("b.txt", false), raw("A", true)];
    let config = Config::load(Some("column_order=name,permissions\nshow_owner=false\n"));
    assert_eq!(
        list_directory(".", &raws, &cache(), &config),
        vec![". (2 items)", "", "\x1b[34;1mA\x1b[0m \x1b[33m644\x1b[0m", "b.txt \x1b[33m644\x1b[0m"]
    );
}

#[test]
fn listing_with_every_column() {
    let raws = vec![
        RawEntry { name: "x.py".to_string(), mode: 0o100600, uid: 1000, gid: 7, modified: None, is_dir: false },
        RawEntry { name: "lib".to_string(), mode: 0o040755, uid: 0, gid: 50, modified: None, is_dir: true },
    ];
    assert_eq!(
        list_directory("/p", &raws, &cache(), &Config::default()),
        vec![
            "/p (2 items)",
            "",
            "ðŸ“   \x1b[33m755\x1b[0m \x1b[32m    0\x1b[0m \x1b[36mstaff\x1b[0m \x1b[35munknown\x1b[0m \x1b[34;1mlib\x1b[0m",
            "ðŸ   \x1b[33m600\x1b[0m \x1b[32malice\x1b[0m \x1b[36m    7\x1b[0m \x1b[35munknown\x1b[0m x.py",
        ]
    );
}

#[test]
fn listing_counts_its_entries() {
    let raws: Vec<RawEntry> = (0..12).map(|i| raw(&format!("f{:02}", i), false)).collect();
    let lines = list_directory("d", &raws, &cache(), &Config::load(Some("column_order=name")));
    assert_eq!(lines.len(), 14);
    assert_eq!(lines[0], "d (12 items)");
    assert_eq!(lines[1], "");
    assert_eq!(lines[2], "f00");
    assert_eq!(lines[13], "f11");
}
