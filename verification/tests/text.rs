use blooket_engine::text::{
    decimal_string, str_eq, strip_prefixes_str, strip_suffixes_str, take_chars, trim_str,
};

#[test]
fn decimal_strings() {
    assert_eq!(decimal_string(0), "0");
    assert_eq!(decimal_string(7), "7");
    assert_eq!(decimal_string(10), "10");
    assert_eq!(decimal_string(123456789), "123456789");
    assert_eq!(decimal_string(u64::MAX), u64::MAX.to_string());
}

#[test]
fn trim_matches_std() {
    for s in ["", "  a b  ", "\t\nx\r\n", "\u{3000}y\u{a0}", "nochange", "   "] {
        assert_eq!(trim_str(s), s.trim());
    }
}

#[test]
fn strip_repeated_prefixes_and_suffixes() {
    assert_eq!(strip_prefixes_str("``````json x", "```"), "json x");
    assert_eq!(strip_prefixes_str("abab c", "ab"), " c");
    assert_eq!(strip_suffixes_str("x``````", "```"), "x");
    assert_eq!(strip_suffixes_str("x``", "```"), "x``");
}

#[test]
fn text_equality_and_prefix() {
    assert!(str_eq("héllo", "héllo"));
    assert!(!str_eq("hello", "hellO"));
    assert!(!str_eq("hell", "hello"));
    assert_eq!(take_chars("héllo", 2), "hé");
    assert_eq!(take_chars("ab", 80), "ab");
}
