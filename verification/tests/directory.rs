use see::directory_tree::{chars_le, entry_before, handle_directory, sort_entries, DirEntry};
use see::output::Output;

fn entry(name: &str, is_dir: bool) -> DirEntry {
    DirEntry { name: name.to_string(), is_dir, icon: "*".to_string() }
}

#[test]
fn names_are_ordered_like_strings() {
    let samples = ["", "a", "ab", "b", "B", "a b", "\u{e9}", "z", "aa", "a\u{10000}", "a\u{ffff}"];
    for x in samples {
        for y in samples {
            let a: Vec<char> = x.chars().collect();
            let b: Vec<char> = y.chars().collect();
            assert_eq!(chars_le(&a, &b), x <= y, "{:?} {:?}", x, y);
        }
    }
}

#[test]
fn directories_come_first_then_names() {
    let entries = vec![
        entry("zeta.txt", false),
        entry("src", true),
        entry("Alpha.md", false),
        entry("docs", true),
        entry("alpha.md", false),
    ];
    let sorted = sort_entries(&entries);
    let names: Vec<&str> = sorted.iter().map(|e| e.name.as_str()).collect();
    assert_eq!(names, vec!["docs", "src", "Alpha.md", "alpha.md", "zeta.txt"]);
    assert!(entry_before(&entry("z", true), &entry("a", false)));
    assert!(!entry_before(&entry("a", false), &entry("z", true)));
    assert!(entry_before(&entry("a", false), &entry("a", false)));
}

#[test]
fn directory_listing() {
    let entries = vec![entry("b.rs", false), entry("a", true)];
    let mut out = Output::new();
    let listed = handle_directory("proj", &entries, &mut out);
    assert_eq!(listed.len(), 2);
    assert_eq!(
        out.plain_text(),
        "\u{f115}  proj\n\u{251c}\u{2500}\u{2500} \u{f115}  a\n\u{2514}\u{2500}\u{2500} *  b.rs\n"
    );
    let mut out = Output::new();
    handle_directory("empty", &vec![], &mut out);
    assert_eq!(out.plain_text(), "\u{f115}  empty\n");
}

#[test]
fn alike_entries_keep_their_order() {
    let mut first = entry("same", false);
    first.icon = "1".to_string();
    let mut second = entry("same", false);
    second.icon = "2".to_string();
    let mut third = entry("same", false);
    third.icon = "3".to_string();
    let sorted = sort_entries(&vec![first, entry("z", true), second, entry("a", false), third]);
    let icons: Vec<&str> = sorted.iter().map(|e| e.icon.as_str()).collect();
    assert_eq!(icons, vec!["*", "*", "1", "2", "3"]);
}
