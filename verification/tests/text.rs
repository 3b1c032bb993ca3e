use crossover_mod_manager::text::{concat2, contains_text, ends_with, owned, same_text};

#[test]
fn suffixes() {
    assert!(ends_with("a.archive", ".archive"));
    assert!(ends_with(".archive", ".archive"));
    assert!(!ends_with("archive", ".archive"));
    assert!(!ends_with("a.archive.bak", ".archive"));
    assert!(ends_with("x", ""));
}

#[test]
fn substrings() {
    assert!(contains_text("mymod/bin/x64", "bin"));
    assert!(!contains_text("mymod/BIN", "bin"));
    assert!(contains_text("abc", ""));
    assert!(!contains_text("ab", "abc"));
    assert!(contains_text("éarchive", "archive"));
}

#[test]
fn equality_and_concatenation() {
    assert!(same_text("abc", "abc"));
    assert!(!same_text("abc", "abd"));
    assert_eq!(concat2("ab", "cd"), "abcd");
    assert_eq!(owned("x"), "x");
}
