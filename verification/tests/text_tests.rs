use circle_checker::text::{
    char_is_white_space, find_line_end, join_strings, push_decimal, str_equal, trims_to_empty,
};

#[test]
fn decimal_numerals() {
    let mut s = String::from("row ");
    push_decimal(&mut s, 0);
    assert_eq!(s, "row 0");
    let mut s = String::new();
    push_decimal(&mut s, 1234567890);
    assert_eq!(s, "1234567890");
    let mut s = String::new();
    push_decimal(&mut s, usize::MAX);
    assert_eq!(s, usize::MAX.to_string());
}

#[test]
fn join_matches_std_join() {
    let parts = vec!["a".to_string(), "".to_string(), "ccc".to_string()];
    assert_eq!(join_strings(&parts, "\t"), "a\t\tccc");
    assert_eq!(join_strings(&vec![], ","), "");
    assert_eq!(join_strings(&vec!["only".to_string()], ","), "only");
}

#[test]
fn blank_text_follows_trim() {
    assert!(trims_to_empty(""));
    assert!(trims_to_empty(" \t\r\n\u{3000}\u{a0}"));
    assert!(!trims_to_empty("  1234 \n"));
    assert!(char_is_white_space('\u{2028}'));
    assert!(!char_is_white_space('x'));
    for c in [' ', '\t', '\n', '\u{85}', '\u{1680}', '\u{2009}', '\u{205f}', 'a', '_', '\u{200b}'] {
        assert_eq!(char_is_white_space(c), c.is_whitespace());
    }
}

#[test]
fn line_end_counts_characters() {
    assert_eq!(find_line_end("abc\ndef"), 3);
    assert_eq!(find_line_end("日本語\nx"), 3);
    assert_eq!(find_line_end("no newline"), 10);
    assert_eq!(find_line_end("\n"), 0);
}

#[test]
fn string_equality() {
    assert!(str_equal("abc", "abc"));
    assert!(!str_equal("abc", "abd"));
    assert!(!str_equal("abc", "ab"));
    assert!(str_equal("", ""));
}
