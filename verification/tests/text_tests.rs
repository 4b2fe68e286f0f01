use monclub_bot::number::{decimal_text, parse_i64, parse_u64, signed_text};
use monclub_bot::text::{
    byte_len, contains, is_before, is_whitespace, leading_bytes, split_entries, split_once, split_whitespace,
    strip_prefix, strip_suffix, trim, trim_start_matches,
};

#[test]
fn renders_and_reads_decimal() {
    assert_eq!(decimal_text(0), "0");
    assert_eq!(decimal_text(18446744073709551615), "18446744073709551615");
    assert_eq!(parse_u64("+12"), Some(12));
    assert_eq!(parse_u64("18446744073709551616"), None);
    assert_eq!(parse_u64("+"), None);
    assert_eq!(parse_u64(""), None);
    assert_eq!(parse_u64("-1"), None);
}

#[test]
fn renders_and_reads_signed_numbers() {
    assert_eq!(signed_text(i64::MIN), "-9223372036854775808");
    assert_eq!(signed_text(-7), "-7");
    assert_eq!(parse_i64("-9223372036854775808"), Some(i64::MIN));
    assert_eq!(parse_i64("9223372036854775808"), None);
    assert_eq!(parse_i64("+5"), Some(5));
    assert_eq!(parse_i64("--5"), None);
    assert_eq!(parse_i64("-"), None);
    assert_eq!(parse_i64("-007"), Some(-7));
}

#[test]
fn white_space_is_that_of_unicode() {
    assert!(('\0'..=char::MAX).all(|c| is_whitespace(c) == c.is_whitespace()));
    assert_eq!(trim("\u{2003} a b\u{a0}\n"), "a b");
    assert_eq!(trim(" \t"), "");
    assert_eq!(split_whitespace(" a\u{3000}b \n c"), ["a", "b", "c"]);
    assert_eq!(split_entries(" a, ,b c ,"), ["a", "b c"]);
    assert_eq!(split_entries("").len(), 0);
}

#[test]
fn texts_are_searched_and_split() {
    assert!(contains("abcabd", "abd"));
    assert!(contains("abc", ""));
    assert!(!contains("ab", "abc"));
    assert_eq!(split_once("a: b: c", ": "), Some(("a", "b: c")));
    assert_eq!(split_once("abc", ":"), None);
    assert_eq!(strip_prefix("<@1>", "<@"), Some("1>"));
    assert_eq!(strip_prefix("<", "<@"), None);
    assert_eq!(strip_suffix("1>", ">"), Some("1"));
    assert_eq!(strip_suffix("1", ">"), None);
    assert_eq!(trim_start_matches("@@a@", '@'), "a@");
}

#[test]
fn bytes_are_those_of_utf8() {
    assert_eq!(byte_len("a\u{e9}\u{20ac}\u{1f600}"), 1 + 2 + 3 + 4);
    assert_eq!(leading_bytes("a\u{e9}b", 3), Some("a\u{e9}"));
    assert_eq!(leading_bytes("a\u{e9}b", 2), None);
    assert_eq!(leading_bytes("ab", 3), None);
    assert!(is_before("2026-01", "2026-02"));
    assert!(is_before("a", "ab"));
    assert!(is_before("z", "\u{e9}"));
    assert!(!is_before("b", "b"));
}
