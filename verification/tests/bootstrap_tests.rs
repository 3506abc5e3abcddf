use circle_checker::bootstrap::{init, secret_keys, skip_bytes, try_init, CC};

fn settings() -> CC {
    CC { target_list: vec!["".to_string(), "list".to_string()], separator: "\t".to_string(), file_output: false }
}

#[test]
fn secret_file_gives_key_and_secret() {
    let r = secret_keys("consumerKey=abc123\nconsumerSecret=SECRET-REDACTED\n");
    assert_eq!(r, Some(("abc123".to_string(), "SECRET-REDACTED".to_string())));
    let r = secret_keys("consumerKey=k\nconsumerSecret=s");
    assert_eq!(r, Some(("k".to_string(), "s".to_string())));
    let r = secret_keys("consumerKey=k\nconsumerSecret=s\nmore\nlines");
    assert_eq!(r, Some(("k".to_string(), "s".to_string())));
}

#[test]
fn secret_labels_are_skipped_not_checked() {
    let r = secret_keys("XXXXXXXXXXXXkey\nYYYYYYYYYYYYYYYsecret");
    assert_eq!(r, Some(("key".to_string(), "secret".to_string())));
}

#[test]
fn carriage_returns_stay_in_the_keys() {
    let r = secret_keys("consumerKey=abc\r\nconsumerSecret=xyz\r\n");
    assert_eq!(r, Some(("abc\r".to_string(), "xyz\r".to_string())));
}

#[test]
fn secret_file_without_second_line_is_refused() {
    assert_eq!(secret_keys("consumerKey=abc"), None);
    assert_eq!(secret_keys(""), None);
}

#[test]
fn secret_lines_too_short_are_refused() {
    assert_eq!(secret_keys("short\nconsumerSecret=xyz"), None);
    assert_eq!(secret_keys("consumerKey=abc\nshort"), None);
    assert_eq!(secret_keys("consumerKey=\nconsumerSecret="), Some(("".to_string(), "".to_string())));
}

#[test]
fn cut_inside_a_character_is_refused() {
    assert_eq!(skip_bytes("consumerKeyé=x", 12), None);
    assert_eq!(skip_bytes("日本語の鍵", 6), Some("語の鍵".to_string()));
    assert_eq!(skip_bytes("日本語の鍵", 7), None);
    assert_eq!(skip_bytes("ab", 3), None);
    assert_eq!(skip_bytes("ab", 2), Some("".to_string()));
}

#[test]
fn init_reads_secret_bytes() {
    let c = init(b"consumerKey=KEY\nconsumerSecret=SEC\n", settings());
    assert_eq!(c.consumer_key, "KEY");
    assert_eq!(c.consumer_secret, "SEC");
    assert_eq!(c.cc.separator, "\t");
    assert_eq!(c.cc.target_list.len(), 2);
    assert!(!c.cc.file_output);
}

#[test]
fn invalid_bytes_become_replacement_characters() {
    let c = try_init(b"consumerKey=a\xffb\nconsumerSecret=s", settings()).unwrap();
    assert_eq!(c.consumer_key, "a\u{fffd}b");
    assert_eq!(c.consumer_secret, "s");
}

#[test]
fn try_init_refuses_malformed_secret() {
    assert!(try_init(b"consumerKey=only one line", settings()).is_none());
}
