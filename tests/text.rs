use web_automator::text::{contains_str, ends_with_str, same_text};

#[test]
fn substring_search() {
    assert!(contains_str("skip this ad", "this"));
    assert!(contains_str("abc", ""));
    assert!(!contains_str("abc", "abcd"));
    assert!(!contains_str("Buy now", "now!"));
}

#[test]
fn suffix_and_equality() {
    assert!(ends_with_str("www.example.com", "example.com"));
    assert!(!ends_with_str("example.com", "www.example.com"));
    assert!(same_text("id", "id"));
    assert!(!same_text("id", "xpath"));
}
