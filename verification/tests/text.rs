use eproxy::text::{chars_of, decimal_string, str_equal, trim_chars};

#[test]
fn trims_unicode_whitespace() {
    let t = trim_chars(&chars_of("\u{3000} \t a b \n\u{85}"));
    assert_eq!(t.iter().collect::<String>(), "a b");
    let t = trim_chars(&chars_of(" \u{a0} "));
    assert!(t.is_empty());
}

#[test]
fn decimal_numerals() {
    assert_eq!(decimal_string(0), "0");
    assert_eq!(decimal_string(7), "7");
    assert_eq!(decimal_string(10), "10");
    assert_eq!(decimal_string(u64::MAX), u64::MAX.to_string());
}

#[test]
fn string_equality() {
    assert!(str_equal("host", "host"));
    assert!(!str_equal("host", "Host"));
    assert!(!str_equal("host", "hos"));
}
