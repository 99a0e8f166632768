use statusline::text::{
    contains_text, count_nonblank_lines, format_i64, format_u64, join_texts, parse_u32, path_last_segment,
    split_words, take_chars, text_eq, trim_end_nul, trim_text, only_alphanumeric,
};

#[test]
fn decimal_formatting() {
    assert_eq!(format_u64(0), "0");
    assert_eq!(format_u64(7), "7");
    assert_eq!(format_u64(1234567890), "1234567890");
    assert_eq!(format_u64(u64::MAX), u64::MAX.to_string());
    assert_eq!(format_i64(-42), "-42");
    assert_eq!(format_i64(i64::MIN), i64::MIN.to_string());
    assert_eq!(format_i64(15), "15");
}

#[test]
fn u32_parsing() {
    assert_eq!(parse_u32("12"), Some(12));
    assert_eq!(parse_u32("+12"), Some(12));
    assert_eq!(parse_u32("4294967295"), Some(u32::MAX));
    assert_eq!(parse_u32("4294967296"), None);
    assert_eq!(parse_u32(""), None);
    assert_eq!(parse_u32("+"), None);
    assert_eq!(parse_u32("-1"), None);
    assert_eq!(parse_u32("12a"), None);
    assert_eq!(parse_u32("99999999999999999999x"), None);
    assert_eq!(parse_u32("007"), Some(7));
}

#[test]
fn parse_agrees_with_std() {
    for s in ["0", "+0", "-0", " 1", "1 ", "65536", "x", "4294967295", "+4294967296"] {
        assert_eq!(parse_u32(s), s.parse::<u32>().ok(), "{:?}", s);
    }
}

#[test]
fn words_of_text() {
    assert_eq!(split_words("  3\t4\n"), vec!["3".to_string(), "4".to_string()]);
    assert_eq!(split_words(""), Vec::<String>::new());
    assert_eq!(split_words("a\u{3000}b  c"), vec!["a".to_string(), "b".to_string(), "c".to_string()]);
}

#[test]
fn nonblank_lines() {
    assert_eq!(count_nonblank_lines(" M a.rs\n\n  \n?? b.rs\n"), 2);
    assert_eq!(count_nonblank_lines(""), 0);
    assert_eq!(count_nonblank_lines("x"), 1);
    assert_eq!(count_nonblank_lines("x\r\n\r\ny"), 2);
    let s = " M a\n\t\n?? b\r\nc";
    assert_eq!(count_nonblank_lines(s), s.lines().filter(|l| !l.trim().is_empty()).count());
}

#[test]
fn trimming() {
    assert_eq!(trim_text("  {} \n"), "{}");
    assert_eq!(trim_text(" \t "), "");
    assert_eq!(trim_text("\u{feff} x"), "\u{feff} x");
    assert_eq!(trim_end_nul("ab\u{0}\u{0}"), "ab");
}

#[test]
fn text_search() {
    assert!(contains_text("gemini35flash", "flash"));
    assert!(contains_text("abc", ""));
    assert!(!contains_text("ab", "abc"));
    assert!(!contains_text("abc", "ac"));
    assert!(text_eq("idle", "idle"));
    assert!(!text_eq("idle", "idl"));
}

#[test]
fn path_segments() {
    assert_eq!(path_last_segment("C:\\work\\my-project"), "my-project");
    assert_eq!(path_last_segment("/path/to/my-project"), "my-project");
    assert_eq!(path_last_segment("/path/to/"), "");
    assert_eq!(path_last_segment("plain"), "plain");
}

#[test]
fn take_and_filter() {
    assert_eq!(take_chars("\u{e9}t\u{e9}", 2), "\u{e9}t");
    assert_eq!(only_alphanumeric("gemini-3.5 flash!"), "gemini35flash");
}

#[test]
fn joining() {
    let parts = vec!["a".to_string(), "b".to_string(), "c".to_string()];
    assert_eq!(join_texts(&parts, " | "), "a | b | c");
    assert_eq!(join_texts(&vec![], "-"), "");
    assert_eq!(join_texts(&vec!["x".to_string()], "-"), "x");
}
