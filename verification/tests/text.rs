use repair_json::alphabet::{ascii_space, unicode_space};
use repair_json::message::decimal_string;
use repair_json::text;

#[test]
fn text_repair_basic() {
    assert_eq!(text::repair_json("{'a': [1, 2,],}").unwrap(), r#"{"a": [1, 2]}"#);
    assert_eq!(text::repair_json(r#"{'key':'value\'s'}"#).unwrap(), r#"{"key":"value's"}"#);
    assert_eq!(text::repair_json(r#"{"valid": true}"#).unwrap(), r#"{"valid": true}"#);
}

#[test]
fn text_repair_errors() {
    assert_eq!(text::repair_json("[{").unwrap_err(), "Unclosed containers: 2 unclosed brackets");
    assert_eq!(text::repair_json("{a:1}").unwrap_err(), "Invalid JSON structure after repair");
    assert_eq!(text::repair_json("'abc").unwrap_err(), "Invalid JSON structure after repair");
}

#[test]
fn text_repair_unicode_whitespace_before_closer() {
    assert_eq!(text::repair_json("[1,\u{a0}]").unwrap(), "[1]");
    assert_eq!(text::repair_json("[\"é\",\u{3000}]").unwrap(), "[\"é\"]");
    // The byte repair does not count U+00A0 as whitespace.
    assert!(repair_json::repair_json("[1,\u{a0}]".as_bytes()).is_err());
}

#[test]
fn ascii_space_matches_std() {
    for b in 0..=255u8 {
        assert_eq!(ascii_space(b), b.is_ascii_whitespace(), "{b}");
    }
}

#[test]
fn unicode_space_matches_std() {
    for v in 0..=0x10FFFFu32 {
        if let Some(c) = char::from_u32(v) {
            assert_eq!(unicode_space(c), c.is_whitespace(), "{v:#x}");
        }
    }
}

#[test]
fn decimal_rendering() {
    for n in [0usize, 7, 10, 99, 100, 12345, usize::MAX] {
        assert_eq!(decimal_string(n), n.to_string());
    }
}
