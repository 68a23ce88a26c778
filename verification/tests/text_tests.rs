use get_paper::number::{decimal_chars, parse_i32, parse_int_in, parse_isize};
use get_paper::text::{chars_eq, chars_of, is_space_char, split_chars, string_of, trim_chars};

fn cs(s: &str) -> Vec<char> {
    s.chars().collect()
}

fn st(v: &[char]) -> String {
    v.iter().collect()
}

#[test]
fn trim_removes_unicode_whitespace_at_both_ends() {
    assert_eq!(st(&trim_chars(&cs("  \t\nab c \r\n"))), "ab c");
    assert_eq!(st(&trim_chars(&cs("\u{3000}x\u{85}"))), "x");
    assert_eq!(st(&trim_chars(&cs(" \u{a0} "))), "");
    assert_eq!(st(&trim_chars(&cs(""))), "");
    assert_eq!(st(&trim_chars(&cs("a"))), "a");
}

#[test]
fn trim_matches_str_trim() {
    for s in ["  x  ", "\u{2028}y\u{2029}", "\u{200b}z", "\u{1680} \u{205f}w\u{202f}", "\x0b\x0cq"] {
        assert_eq!(st(&trim_chars(&cs(s))), s.trim());
    }
}

#[test]
fn whitespace_is_unicode_white_space() {
    for c in [' ', '\t', '\n', '\u{0b}', '\u{0c}', '\r', '\u{85}', '\u{a0}', '\u{1680}', '\u{2000}', '\u{200a}', '\u{2028}', '\u{2029}', '\u{202f}', '\u{205f}', '\u{3000}'] {
        assert!(is_space_char(c));
        assert!(c.is_whitespace());
    }
    for c in ['a', '0', '\u{200b}', '\u{1f}', '=', '\u{feff}'] {
        assert!(!is_space_char(c));
        assert!(!c.is_whitespace());
    }
}

#[test]
fn split_matches_str_split() {
    for s in ["a=b", "a==b", "", "=", "x", "a=b=c", "=x="] {
        let got: Vec<String> = split_chars(&cs(s), '=').iter().map(|p| st(p)).collect();
        let want: Vec<String> = s.split('=').map(|p| p.to_string()).collect();
        assert_eq!(got, want);
    }
}

#[test]
fn chars_and_strings_convert_both_ways() {
    assert_eq!(chars_of("héllo"), cs("héllo"));
    assert_eq!(string_of(&cs("héllo")), "héllo");
    assert!(chars_eq(&cs("ab"), &cs("ab")));
    assert!(!chars_eq(&cs("ab"), &cs("abc")));
    assert!(!chars_eq(&cs("ab"), &cs("ac")));
}

#[test]
fn parse_i32_accepts_what_str_parse_accepts() {
    for s in ["0", "12", "+12", "-12", "2147483647", "-2147483648", "007", "-0"] {
        assert_eq!(parse_i32(&cs(s)), s.parse::<i32>().ok(), "{}", s);
        assert!(parse_i32(&cs(s)).is_some());
    }
}

#[test]
fn parse_i32_rejects_what_str_parse_rejects() {
    for s in ["", "+", "-", "2147483648", "-2147483649", " 1", "1 ", "1a", "+-1", "--1", "١", "99999999999999999999999"] {
        assert_eq!(parse_i32(&cs(s)), None, "{}", s);
        assert!(s.parse::<i32>().is_err());
    }
}

#[test]
fn parse_isize_reads_years() {
    assert_eq!(parse_isize(&cs("2022")), Some(2022));
    assert_eq!(parse_isize(&cs("-5")), Some(-5));
    assert_eq!(parse_isize(&cs(&isize::MAX.to_string())), Some(isize::MAX));
    assert_eq!(parse_isize(&cs(&isize::MIN.to_string())), Some(isize::MIN));
    assert_eq!(parse_isize(&cs("20x2")), None);
}

#[test]
fn parse_int_in_keeps_to_the_range() {
    assert_eq!(parse_int_in(&cs("100"), -100, 100), Some(100));
    assert_eq!(parse_int_in(&cs("101"), -100, 100), None);
    assert_eq!(parse_int_in(&cs("-100"), -100, 100), Some(-100));
    assert_eq!(parse_int_in(&cs("-101"), -100, 100), None);
    assert_eq!(parse_int_in(&cs("-9223372036854775808"), i64::MIN, i64::MAX), Some(i64::MIN));
}

#[test]
fn decimal_matches_to_string() {
    for n in [0i64, 7, 10, 42, -1, -907, i64::MAX, i64::MIN, i32::MIN as i64] {
        assert_eq!(st(&decimal_chars(n)), n.to_string());
    }
}

#[test]
fn decimal_reads_back() {
    for n in [0i32, 5, -5, 1000, 950, i32::MAX, i32::MIN] {
        assert_eq!(parse_i32(&decimal_chars(n as i64)), Some(n));
    }
}
