//! The verified text utilities on concrete values.

use irctweets::text::{has_prefix, parse_u64, str_eq, trim};

#[test]
fn parse_u64_reads_plain_digit_strings() {
    assert_eq!(parse_u64("0"), Some(0));
    assert_eq!(parse_u64("12345"), Some(12345));
    assert_eq!(parse_u64("18446744073709551615"), Some(u64::MAX));
}

#[test]
fn parse_u64_rejects_anything_else() {
    assert_eq!(parse_u64(""), None);
    assert_eq!(parse_u64("18446744073709551616"), None);
    assert_eq!(parse_u64("99999999999999999999999"), None);
    assert_eq!(parse_u64("+1"), None);
    assert_eq!(parse_u64("-1"), None);
    assert_eq!(parse_u64("12a"), None);
    assert_eq!(parse_u64(" 12"), None);
}

#[test]
fn trim_strips_edges_only() {
    assert_eq!(trim("  hey there \t\r\n"), "hey there");
    assert_eq!(trim("nothing"), "nothing");
    assert_eq!(trim("   "), "");
    assert_eq!(trim(""), "");
}

#[test]
fn str_eq_compares_by_characters() {
    assert!(str_eq("abc", "abc"));
    assert!(!str_eq("abc", "abd"));
    assert!(!str_eq("abc", "ab"));
    assert!(str_eq("", ""));
}

#[test]
fn has_prefix_checks_the_start() {
    assert!(has_prefix("bot: help", "bot"));
    assert!(!has_prefix("bo", "bot"));
    assert!(!has_prefix("robot", "bot"));
    assert!(has_prefix("anything", ""));
}
