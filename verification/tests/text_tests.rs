use gh_guard::download::check_digest;
use gh_guard::text::{
    bracket_list, contains, debug_list, debug_option, debug_str, ends_with, is_whitespace,
    split_on, split_whitespace, starts_with, str_eq,
};

#[test]
fn string_predicates() {
    assert!(str_eq("héllo", "héllo"));
    assert!(!str_eq("a", "ab"));
    assert!(starts_with("--body=x", "--body="));
    assert!(!starts_with("-", "--"));
    assert!(ends_with("gh_1_linux_amd64.tar.gz", ".tar.gz"));
    assert!(!ends_with("gz", ".tar.gz"));
    assert!(contains("cli/cli", "/"));
    assert!(contains("abc", ""));
    assert!(!contains("cli", "/"));
}

#[test]
fn splitting() {
    assert_eq!(split_on("a//b/", '/'), vec!["a", "", "b", ""]);
    assert_eq!(split_on("", '\n'), vec![""]);
    assert_eq!(split_whitespace("  a\tbb\u{3000}c \r\n"), vec!["a", "bb", "c"]);
    assert!(split_whitespace(" \u{a0} ").is_empty());
    assert!(is_whitespace('\u{2028}'));
    assert!(!is_whitespace('x'));
    assert!(!is_whitespace('\u{200b}'));
}

#[test]
fn debug_formatting() {
    assert_eq!(debug_str("a\"b"), "\"a\\\"b\"");
    assert_eq!(debug_list(&vec!["pr".to_string(), "list".to_string()]), "[\"pr\", \"list\"]");
    assert_eq!(debug_list(&vec![]), "[]");
    assert_eq!(debug_option(&None), "None");
    assert_eq!(debug_option(&Some("v1".to_string())), "Some(\"v1\")");
    assert_eq!(bracket_list(&vec!["1".to_string(), "2".to_string()]), "[1, 2]");
}

#[test]
fn digest_checks_use_lower_case_hex() {
    assert!(check_digest(&[0x00, 0xab, 0x0f, 0xf0], "00ab0ff0").is_ok());
    assert!(check_digest(&[0x00, 0xab], "00AB").is_err());
    assert!(check_digest(&[], "").is_ok());
}

