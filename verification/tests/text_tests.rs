use kagi_session_mcp::num::{parse_unsigned_exec, u64_to_string, usize_to_u32_wrapping};
use kagi_session_mcp::text::{
    clean_text, contains, ends_with, find_vec, lines, replace_all, starts_with, strip_prefix, tidy_lines, trim,
    trim_is_empty, trim_start_matches, truncate_chars, utf8_len_exceeds,
};

fn string_of(v: &[char]) -> String {
    v.iter().collect()
}

fn v(s: &str) -> Vec<char> {
    s.chars().collect()
}

#[test]
fn whitespace_is_collapsed() {
    assert_eq!(clean_text("  a \t\n b\u{a0}c  "), "a b c");
    assert_eq!(clean_text("   "), "");
    assert_eq!(clean_text("x\u{2003}y"), "x y");
}

#[test]
fn truncation_marks_the_cut() {
    assert_eq!(truncate_chars("hello", 5), "hello");
    assert_eq!(truncate_chars("hello!", 5), "hell…");
    assert_eq!(truncate_chars("héllo wörld", 4), "hél…");
    assert_eq!(truncate_chars("ab", 0), "");
    assert_eq!(truncate_chars("", 0), "");
}

#[test]
fn prefixes_and_suffixes() {
    assert!(starts_with("/signin/x", "/signin"));
    assert!(!starts_with("/sign", "/signin"));
    assert!(ends_with("www.kagi.com", "kagi.com"));
    assert!(contains("a Profile b", "Profile"));
    assert_eq!(strip_prefix("Profile 3", "Profile ").as_deref(), Some("3"));
    assert_eq!(strip_prefix("Prof", "Profile "), None);
    assert_eq!(trim_start_matches("xxxabc", "x"), "abc");
    assert_eq!(find_vec(&v("abcabc"), &v("ca")), Some(2));
    assert_eq!(find_vec(&v("abc"), &v("z")), None);
}

#[test]
fn lines_and_trimming() {
    assert_eq!(lines(&v("a\nb\r\n\nc")), vec![v("a"), v("b"), v(""), v("c")]);
    assert_eq!(string_of(&trim(" \t x y \n")), "x y");
    assert!(trim_is_empty(" \n\t"));
    assert!(!trim_is_empty(" . "));
    assert_eq!(string_of(&tidy_lines(&v("  a   b \n\n  c\n"))), "a b\nc");
}

#[test]
fn replacing() {
    assert_eq!(string_of(&replace_all(&v("a&amp;b&amp;"), "&amp;", "&")), "a&b&");
}

#[test]
fn utf8() {
    assert!(utf8_len_exceeds("ééé", 5));
    assert!(!utf8_len_exceeds("ééé", 6));
}

#[test]
fn numbers() {
    assert_eq!(u64_to_string(0), "0");
    assert_eq!(u64_to_string(18446744073709551615), "18446744073709551615");
    assert_eq!(parse_unsigned_exec(&v("+42"), 100), Some(42));
    assert_eq!(parse_unsigned_exec(&v("007"), 100), Some(7));
    assert_eq!(parse_unsigned_exec(&v("101"), 100), None);
    assert_eq!(parse_unsigned_exec(&v(""), 100), None);
    assert_eq!(parse_unsigned_exec(&v("-1"), 100), None);
    assert_eq!(parse_unsigned_exec(&v("1 "), 100), None);
    assert_eq!(usize_to_u32_wrapping(4294967297), 1);
}
