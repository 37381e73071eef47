use eip_operator::text::{
    decimal_text, numeral_text, opt_eq, str_eq, text_after_last,
};

#[test]
fn numerals_are_written_without_leading_zeros() {
    assert_eq!(decimal_text(0), "0");
    assert_eq!(decimal_text(7), "7");
    assert_eq!(decimal_text(10), "10");
    assert_eq!(decimal_text(18446744073709551615), "18446744073709551615");
    assert_eq!(numeral_text(15, 16), "f");
    assert_eq!(numeral_text(16, 16), "10");
    assert_eq!(numeral_text(255, 16), "ff");
    assert_eq!(numeral_text(5, 2), "101");
}

#[test]
fn the_text_behind_the_last_slash_is_found() {
    assert_eq!(text_after_last("aws:///us-east-1a/i-0123", '/'), Some("i-0123"));
    assert_eq!(text_after_last("i-0123", '/'), None);
    assert_eq!(text_after_last("", '/'), None);
    assert_eq!(text_after_last("a/", '/'), Some(""));
    assert_eq!(text_after_last("/é/ü", '/'), Some("ü"));
}

#[test]
fn texts_are_compared_by_their_characters() {
    assert!(str_eq("a", "a"));
    assert!(!str_eq("a", "A"));
    assert!(opt_eq(&Some("x".to_owned()), "x"));
    assert!(!opt_eq(&Some("x".to_owned()), "y"));
    assert!(!opt_eq(&None, ""));
}
