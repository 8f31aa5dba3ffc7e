use cue::text::{contains_str, ends_with_str, i64_to_string, starts_with_str, str_eq, trim,
    u64_to_string};

#[test]
fn contains_finds_substrings() {
    assert!(contains_str("abcdef", "cde"));
    assert!(contains_str("abcdef", ""));
    assert!(contains_str("abcdef", "abcdef"));
    assert!(!contains_str("abcdef", "xyz"));
    assert!(!contains_str("ab", "abc"));
    assert!(contains_str("aaab", "aab"));
}

#[test]
fn prefix_and_suffix_tests() {
    assert!(starts_with_str("download-progress:42.5%", "download-progress:"));
    assert!(!starts_with_str("xdownload-progress:", "download-progress:"));
    assert!(ends_with_str("42.5%", "%"));
    assert!(!ends_with_str("42.5", "%"));
    assert!(ends_with_str("bun.exe", "bun.exe"));
    assert!(!ends_with_str("exe", "bun.exe"));
}

#[test]
fn trim_strips_ascii_whitespace() {
    assert_eq!(trim("  hello \r\n"), "hello");
    assert_eq!(trim("hello"), "hello");
    assert_eq!(trim("   "), "");
    assert_eq!(trim(""), "");
    assert_eq!(trim("\ta b\t"), "a b");
}

#[test]
fn str_eq_compares_by_characters() {
    assert!(str_eq("abc", "abc"));
    assert!(!str_eq("abc", "abd"));
    assert!(!str_eq("abc", "abcd"));
    assert!(str_eq("", ""));
}

#[test]
fn decimal_rendering_is_exact() {
    assert_eq!(u64_to_string(0), "0");
    assert_eq!(u64_to_string(7), "7");
    assert_eq!(u64_to_string(425), "425");
    assert_eq!(u64_to_string(1000), "1000");
    assert_eq!(u64_to_string(18446744073709551615), "18446744073709551615");
    assert_eq!(i64_to_string(-1), "-1");
    assert_eq!(i64_to_string(-2147483648), "-2147483648");
    assert_eq!(i64_to_string(42), "42");
}
