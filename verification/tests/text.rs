use boswell::text::{
    contains_str, is_whitespace, nonempty_lines_of, split_lines, strip_prefix, to_lowercase,
    trim_end_str, trim_str,
};

#[test]
fn trimming_uses_unicode_white_space() {
    assert_eq!(trim_str("\u{a0} a b \n"), "a b");
    assert_eq!(trim_end_str("  a \t"), "  a");
    assert!(is_whitespace('\n'));
    assert!(!is_whitespace('x'));
}

#[test]
fn lines_split_like_str_lines() {
    assert_eq!(split_lines("a\r\nb\n\nc"), vec!["a", "b", "", "c"]);
    assert_eq!(split_lines("a\n"), vec!["a"]);
    assert_eq!(split_lines("a\r"), vec!["a\r"]);
    assert!(split_lines("").is_empty());
    assert_eq!(nonempty_lines_of("\n\na\n\n"), vec!["a"]);
}

#[test]
fn searching_and_stripping() {
    assert!(contains_str("abc", "bc"));
    assert!(contains_str("abc", ""));
    assert!(!contains_str("ab", "abc"));
    assert_eq!(strip_prefix("~/docs", "~/").as_deref(), Some("docs"));
    assert_eq!(strip_prefix("/docs", "~/"), None);
    assert_eq!(to_lowercase("[REJECTED]"), "[rejected]");
}

#[test]
fn white_space_agrees_with_the_standard_library() {
    for n in 0u32..=0x10FFFF {
        if let Some(c) = char::from_u32(n) {
            assert_eq!(is_whitespace(c), c.is_whitespace(), "{n:#x}");
        }
    }
}
