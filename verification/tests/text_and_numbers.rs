use backupr::number::{fmt_i64, fmt_padded, fmt_u64, parse_i64};
use backupr::text::{chars_of, contains_char, eq_ignore_case, find_chars, replace_chars, trim_chars};

fn text(v: &Vec<char>) -> String {
    v.iter().collect()
}

#[test]
fn chars_round_trip() {
    let c = chars_of("héllo");
    assert_eq!(c, vec!['h', 'é', 'l', 'l', 'o']);
    assert_eq!(text(&c), "héllo");
}

#[test]
fn trim_removes_unicode_whitespace() {
    let t = trim_chars(&chars_of("\u{3000} a b\t\n"));
    assert_eq!(text(&t), "a b");
    assert_eq!(text(&trim_chars(&chars_of("   "))), "");
    assert_eq!(text(&trim_chars(&chars_of("x"))), "x");
}

#[test]
fn replace_single_char() {
    let r = replace_chars(&chars_of("a:b:c"), ':', &chars_of("--"));
    assert_eq!(text(&r), "a--b--c");
    let r = replace_chars(&chars_of(".txt."), '.', &Vec::new());
    assert_eq!(text(&r), "txt");
}

#[test]
fn find_first_occurrence() {
    assert_eq!(find_chars(&chars_of("24hh"), &chars_of("h")), Some(2));
    assert_eq!(find_chars(&chars_of("24"), &chars_of("h")), None);
    assert_eq!(find_chars(&chars_of("abcabc"), &chars_of("ca")), Some(2));
    assert_eq!(find_chars(&chars_of("ab"), &chars_of("")), Some(0));
    assert!(contains_char(&chars_of("a/b"), '/'));
    assert!(!contains_char(&chars_of("ab"), '/'));
}

#[test]
fn ascii_case_insensitive_equality() {
    assert!(eq_ignore_case(&chars_of("-ZONEutc"), &chars_of("-zoneUTC")));
    assert!(!eq_ignore_case(&chars_of("-zoneUT"), &chars_of("-zoneUTC")));
    assert!(!eq_ignore_case(&chars_of("É"), &chars_of("é")));
}

#[test]
fn decimal_formatting() {
    assert_eq!(text(&fmt_u64(0)), "0");
    assert_eq!(text(&fmt_u64(1234567890)), "1234567890");
    assert_eq!(text(&fmt_u64(u64::MAX)), "18446744073709551615");
    assert_eq!(text(&fmt_i64(-42)), "-42");
    assert_eq!(text(&fmt_i64(i64::MIN)), "-9223372036854775808");
    assert_eq!(text(&fmt_padded(7, 2)), "07");
    assert_eq!(text(&fmt_padded(123, 2)), "123");
    assert_eq!(text(&fmt_padded(5, 4)), "0005");
}

#[test]
fn integer_parsing_follows_from_str() {
    for s in ["0", "42", "+42", "-42", "007", "9223372036854775807", "-9223372036854775808"] {
        assert_eq!(parse_i64(&chars_of(s)), s.parse::<i64>().ok(), "{}", s);
    }
    for s in ["", "+", "-", "4 2", "x1", "9223372036854775808", "-9223372036854775809", "99999999999999999999999"] {
        assert_eq!(parse_i64(&chars_of(s)), None, "{}", s);
        assert!(s.parse::<i64>().is_err());
    }
}

#[test]
fn law_parse_decimal_on_values() {
    for n in [0u64, 9, 10, 120, 9223372036854775807] {
        assert_eq!(parse_i64(&fmt_u64(n)), Some(n as i64));
    }
    for i in [i64::MIN, -1, 0, 77, i64::MAX] {
        assert_eq!(parse_i64(&fmt_i64(i)), Some(i));
    }
}
