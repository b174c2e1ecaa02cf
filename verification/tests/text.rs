use nodemgr::text::{chars_of, decimal_string, parse_u64, same_text, string_of, whitespace};

#[test]
fn parse_plain_number() {
    assert_eq!(parse_u64("42"), Some(42));
    assert_eq!(parse_u64("0"), Some(0));
    assert_eq!(parse_u64("007"), Some(7));
}

#[test]
fn parse_leading_plus() {
    assert_eq!(parse_u64("+7"), Some(7));
    assert_eq!(parse_u64("+"), None);
    assert_eq!(parse_u64("++7"), None);
}

#[test]
fn parse_rejects_other_text() {
    assert_eq!(parse_u64(""), None);
    assert_eq!(parse_u64("-1"), None);
    assert_eq!(parse_u64("1a"), None);
    assert_eq!(parse_u64(" 1"), None);
    assert_eq!(parse_u64("1 "), None);
}

#[test]
fn parse_limits() {
    assert_eq!(parse_u64("18446744073709551615"), Some(u64::MAX));
    assert_eq!(parse_u64("18446744073709551616"), None);
    assert_eq!(parse_u64("99999999999999999999x"), None);
}

#[test]
fn parse_agrees_with_std() {
    for s in ["", "+", "12", "+12", "-0", "4294967296", "18446744073709551615", "18446744073709551616", "1_0", "٣"] {
        assert_eq!(parse_u64(s), s.parse::<u64>().ok(), "{:?}", s);
    }
}

#[test]
fn decimal_values() {
    assert_eq!(decimal_string(0), "0");
    assert_eq!(decimal_string(9), "9");
    assert_eq!(decimal_string(10), "10");
    assert_eq!(decimal_string(409598), "409598");
    assert_eq!(decimal_string(u64::MAX), "18446744073709551615");
}

#[test]
fn decimal_roundtrip() {
    for n in [0u64, 1, 9, 10, 99, 100, 12345, u64::MAX - 1, u64::MAX] {
        assert_eq!(parse_u64(&decimal_string(n)), Some(n));
    }
}

#[test]
fn whitespace_matches_std() {
    for c in ['\t', '\n', '\u{b}', '\u{c}', '\r', ' ', '\u{85}', '\u{a0}', '\u{1680}', '\u{2000}', '\u{200a}', '\u{2028}', '\u{2029}', '\u{202f}', '\u{205f}', '\u{3000}', 'a', '0', '/', '\u{200b}', '\u{180e}', '\u{feff}'] {
        assert_eq!(whitespace(c), c.is_whitespace(), "{:?}", c);
    }
}

#[test]
fn text_conversions() {
    let v = chars_of("añb");
    assert_eq!(v, vec!['a', 'ñ', 'b']);
    assert_eq!(string_of(&v), "añb");
    assert!(same_text("node", "node"));
    assert!(!same_text("node", "nodes"));
    assert!(!same_text("node", "Node"));
}
