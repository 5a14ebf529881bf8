use nrush::text::{chars_of, contains, push_chars, push_decimal};

#[test]
fn chars_of_gives_every_character() {
    assert_eq!(chars_of("^1.2"), vec!['^', '1', '.', '2']);
    assert_eq!(chars_of(""), Vec::<char>::new());
    assert_eq!(chars_of("a\u{e9}\u{4e2d}"), vec!['a', '\u{e9}', '\u{4e2d}']);
}

#[test]
fn push_chars_appends_a_range() {
    let chars = vec!['a', 'b', 'c', 'd'];
    let mut out = String::from("x");
    push_chars(&mut out, &chars, 1, 3);
    assert_eq!(out, "xbc");
    push_chars(&mut out, &chars, 2, 2);
    assert_eq!(out, "xbc");
    push_chars(&mut out, &chars, 0, 4);
    assert_eq!(out, "xbcabcd");
}

#[test]
fn contains_finds_a_substring() {
    assert!(contains("lodash: 1 -> 2 (major)", "(major)"));
    assert!(contains("(major)", "(major)"));
    assert!(contains("x(major)", "(major)"));
    assert!(contains("(major)x", "(major)"));
    assert!(!contains("(majo)r", "(major)"));
    assert!(!contains("(major", "(major)"));
    assert!(!contains("", "(major)"));
}

#[test]
fn contains_finds_the_empty_text_everywhere() {
    assert!(contains("abc", ""));
    assert!(contains("", ""));
}

#[test]
fn contains_rejects_a_longer_needle() {
    assert!(!contains("ab", "abc"));
}

#[test]
fn contains_handles_overlapping_starts() {
    assert!(contains("aaab", "aab"));
    assert!(contains("((major)", "(major)"));
    assert!(!contains("aaaa", "aab"));
}

#[test]
fn push_decimal_writes_the_number() {
    let mut out = String::new();
    push_decimal(&mut out, 0);
    assert_eq!(out, "0");
    push_decimal(&mut out, 7);
    assert_eq!(out, "07");
    let mut out = String::from("v");
    push_decimal(&mut out, 10);
    assert_eq!(out, "v10");
    let mut out = String::new();
    push_decimal(&mut out, 1234567890);
    assert_eq!(out, "1234567890");
    let mut out = String::new();
    push_decimal(&mut out, u64::MAX);
    assert_eq!(out, "18446744073709551615");
}
