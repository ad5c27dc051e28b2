use std::path::PathBuf;
use tere_state::dir_entry::CustomDirEntry;
use tere_state::listing_order::{listed_entries, sort_listing};
use tere_state::text::{chars_le_exec, chars_of, has_prefix};

fn entry(name: &str, is_dir: bool) -> CustomDirEntry {
    CustomDirEntry::new(PathBuf::from(name), name.to_string(), is_dir)
}

fn names(v: &[CustomDirEntry]) -> Vec<String> {
    v.iter().map(|e| e.file_name_checked()).collect()
}

#[test]
fn sort_puts_folders_first_then_names_in_order() {
    let v = vec![
        entry("zeta.txt", false),
        entry("beta", true),
        entry("alpha.txt", false),
        entry("..", true),
        entry("Gamma", true),
        entry("alpha", true),
    ];
    let sorted = sort_listing(v);
    assert_eq!(names(&sorted), vec!["..", "Gamma", "alpha", "beta", "alpha.txt", "zeta.txt"]);
}

#[test]
fn sort_of_empty_listing() {
    let sorted = sort_listing(Vec::new());
    assert!(sorted.is_empty());
}

#[test]
fn sort_orders_by_code_points() {
    let v = vec![entry("é", false), entry("z", false), entry("ab", false), entry("a", false)];
    let sorted = sort_listing(v);
    assert_eq!(names(&sorted), vec!["a", "ab", "z", "é"]);
}

#[test]
fn sort_keeps_entries_with_equal_names() {
    let v = vec![entry("x", false), entry("x", false), entry("w", false)];
    let sorted = sort_listing(v);
    assert_eq!(names(&sorted), vec!["w", "x", "x"]);
}

#[test]
fn listed_entries_keeps_only_folders_when_asked() {
    let v = vec![entry("a", false), entry("b", true), entry("c", true), entry("d", false)];
    assert_eq!(names(&listed_entries(v, true)), vec!["b", "c"]);
    let v = vec![entry("a", false), entry("b", true)];
    assert_eq!(names(&listed_entries(v, false)), vec!["a", "b"]);
}

#[test]
fn chars_order_is_lexicographic() {
    let a = chars_of("abc");
    let b = chars_of("abd");
    let c = chars_of("ab");
    assert!(chars_le_exec(&a, &b));
    assert!(!chars_le_exec(&b, &a));
    assert!(chars_le_exec(&c, &a));
    assert!(!chars_le_exec(&a, &c));
    assert!(chars_le_exec(&a, &a));
}

#[test]
fn prefix_test() {
    assert!(has_prefix(&chars_of("frob"), &chars_of("fr")));
    assert!(has_prefix(&chars_of("frob"), &chars_of("")));
    assert!(!has_prefix(&chars_of("frob"), &chars_of("fo")));
    assert!(!has_prefix(&chars_of("fr"), &chars_of("frob")));
    assert_eq!(chars_of("héllo"), vec!['h', 'é', 'l', 'l', 'o']);
}

#[test]
fn entry_getters() {
    let e = entry("docs", true);
    assert_eq!(e.file_name_checked(), "docs");
    assert_eq!(e.file_name(), "docs");
    assert!(e.is_dir());
    assert_eq!(e.path(), &PathBuf::from("docs"));
}

#[test]
fn sort_is_stable_for_tied_entries() {
    let v = vec![
        CustomDirEntry::new(PathBuf::from("one"), String::new(), false),
        entry("b", false),
        CustomDirEntry::new(PathBuf::from("two"), String::new(), false),
        entry("a", true),
        CustomDirEntry::new(PathBuf::from("three"), String::new(), false),
    ];
    let sorted = sort_listing(v);
    let paths: Vec<PathBuf> = sorted.iter().map(|e| e.path().clone()).collect();
    assert_eq!(
        paths,
        vec![
            PathBuf::from("a"),
            PathBuf::from("one"),
            PathBuf::from("two"),
            PathBuf::from("three"),
            PathBuf::from("b"),
        ]
    );
}

#[test]
fn entries_can_be_cloned() {
    let e = entry("x", true);
    let c = e.clone();
    assert_eq!(c.file_name_checked(), "x");
    assert!(c.is_dir());
    assert_eq!(c.path(), e.path());
}
