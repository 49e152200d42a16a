use csv_to_anki::text::{contains_substring, is_blank, trim_str};

#[test]
fn blankness_covers_empty_and_whitespace_only_strings() {
    assert!(is_blank(""));
    assert!(is_blank("   "));
    assert!(is_blank(" \t\r\n"));
    assert!(is_blank("\u{3000}\u{00A0}"));
    assert!(!is_blank(" x "));
    assert!(!is_blank("x"));
}

#[test]
fn trimming_strips_surrounding_whitespace_only() {
    assert_eq!(trim_str("  hello  "), "hello");
    assert_eq!(trim_str("hello"), "hello");
    assert_eq!(trim_str("\t a b \n"), "a b");
    assert_eq!(trim_str("   "), "");
    assert_eq!(trim_str(""), "");
    assert_eq!(trim_str("\u{3000}neko\u{3000}"), "neko");
}

#[test]
fn substring_search_finds_needles_anywhere() {
    assert!(contains_substring("Duplicate note", "Duplicate"));
    assert!(contains_substring("a duplicate was found", "duplicate"));
    assert!(contains_substring("abc", ""));
    assert!(contains_substring("", ""));
    assert!(!contains_substring("", "x"));
    assert!(!contains_substring("duplicate", "Duplicate"));
    assert!(!contains_substring("abc", "abcd"));
    assert!(contains_substring("aaab", "aab"));
}
