use repair_json::{repair_json, repair_json_aws_smithy, repair_structure};
use repair_json::scan::repair_pass;

fn ok(input: &str) -> String {
    String::from_utf8(repair_json(input.as_bytes()).expect("repair should succeed")).unwrap()
}

fn err(input: &str) -> String {
    repair_json(input.as_bytes()).expect_err("repair should fail")
}

fn smithy(input: &str) -> Result<String, String> {
    repair_json_aws_smithy(input.as_bytes()).map(|v| String::from_utf8(v).unwrap())
}

#[test]
fn removes_trailing_comma_in_object() {
    assert_eq!(ok(r#"{"a": 1,}"#), r#"{"a": 1}"#);
}

#[test]
fn converts_single_quotes() {
    assert_eq!(ok("{'a': 1}"), r#"{"a": 1}"#);
}

#[test]
fn escaped_single_quote_loses_backslash() {
    assert_eq!(ok(r#"{'key':'value\'s'}"#), r#"{"key":"value's"}"#);
}

#[test]
fn single_quote_in_double_quoted_string_kept() {
    assert_eq!(ok(r#"{"key":"value's"}"#), r#"{"key":"value's"}"#);
}

#[test]
fn escaped_double_quote_kept() {
    assert_eq!(ok(r#"{"key":"value\"test"}"#), r#"{"key":"value\"test"}"#);
}

#[test]
fn valid_json_passes_through() {
    assert_eq!(ok(r#"{"valid": true}"#), r#"{"valid": true}"#);
}

#[test]
fn readme_rust_example() {
    assert_eq!(ok(r#"{"items":[1,2,3,],"name":"test"}"#), r#"{"items":[1,2,3],"name":"test"}"#);
}

#[test]
fn single_quote_cases() {
    let cases = [
        (r#"{"asdf":"asdf"}"#, r#"{"asdf":"asdf"}"#),
        (r#"{"asdf":'asdf'}"#, r#"{"asdf":"asdf"}"#),
        (r#"{'asdf':'asdf'}"#, r#"{"asdf":"asdf"}"#),
        (r#"{'asdf':"asdf"}"#, r#"{"asdf":"asdf"}"#),
        (r#"[1, 2, 3,]"#, r#"[1, 2, 3]"#),
        (r#"{"a": [1,2,],}"#, r#"{"a": [1,2]}"#),
    ];
    for (input, expected) in cases {
        assert_eq!(smithy(input).unwrap(), expected);
        assert_eq!(ok(input), expected);
    }
}

#[test]
fn trailing_comma_with_whitespace() {
    assert_eq!(ok("[1, 2, 3, ]"), "[1, 2, 3]");
    assert_eq!(ok("[1, 2, 3,\n]"), "[1, 2, 3]");
    assert_eq!(ok(r#"{"a": [1,], "b": 2,}"#), r#"{"a": [1], "b": 2}"#);
}

#[test]
fn trailing_comma_at_end_removed() {
    assert_eq!(ok("1, "), "1");
}

#[test]
fn double_quote_inside_single_quoted_string_escaped() {
    assert_eq!(ok(r#"{'a':'say "hi"'}"#), r#"{"a":"say \"hi\""}"#);
}

#[test]
fn stray_closer_skipped() {
    assert_eq!(ok("[1]]"), "[1]");
    assert_eq!(ok(r#"{"a":[1}]}"#), r#"{"a":[1]}"#);
}

#[test]
fn unclosed_containers_error() {
    assert_eq!(err(r#"{"a": [1, 2}"#), "Unclosed containers: 2 unclosed brackets");
    assert_eq!(err("[[[[[[[[[[[["), "Unclosed containers: 12 unclosed brackets");
    assert_eq!(smithy("{").unwrap_err(), "Unclosed containers: 1 unclosed brackets");
}

#[test]
fn unterminated_string_error() {
    assert_eq!(err("'abc"), "Unterminated string");
    assert_eq!(smithy("'abc").unwrap_err(), "Unterminated string");
}

#[test]
fn invalid_after_repair_error() {
    assert_eq!(err("{a:1}"), "Invalid JSON structure after repair");
    assert_eq!(smithy("{a:1}").unwrap(), "{a:1}");
}

#[test]
fn comma_run_keeps_one_comma() {
    assert_eq!(err("[1,,]"), "Invalid JSON structure after repair");
    assert_eq!(smithy("[1,,]").unwrap(), "[1,]");
}

#[test]
fn empty_input() {
    assert_eq!(err(""), "Invalid JSON structure after repair");
    assert_eq!(smithy("").unwrap(), "");
}

#[test]
fn pass_reports_state() {
    let r = repair_pass(b"{'a': [1,");
    assert_eq!(r.output, br#"{"a": [1"#.to_vec());
    assert_eq!(r.open_containers, 2);
    assert!(!r.in_string);
    let r = repair_pass(b"['x");
    assert_eq!(r.output, br#"["x"#.to_vec());
    assert_eq!(r.open_containers, 1);
    assert!(r.in_string);
}

#[test]
fn structure_repair_without_serde() {
    assert_eq!(repair_structure(b"{'a':1,}").unwrap(), br#"{"a":1}"#.to_vec());
    assert_eq!(repair_structure(br#"{"a":1}"#).unwrap(), br#"{"a":1}"#.to_vec());
    assert_eq!(repair_structure(b"[").unwrap_err(), "Unclosed containers: 1 unclosed brackets");
}

#[test]
fn repair_is_idempotent() {
    for input in ["{'a': [1,2,],}", "[1]]", r#"{'k':'v\'s', 'n': {'m': [1,]},}"#] {
        let once = repair_json(input.as_bytes()).unwrap();
        let twice = repair_json(&once).unwrap();
        assert_eq!(once, twice);
        let once = repair_structure(input.as_bytes()).unwrap();
        assert_eq!(repair_structure(&once).unwrap(), once);
    }
}

#[test]
fn clean_text_unchanged_by_structure_repair() {
    let input = br#"{"a": [1, 2, {"b": "]'"}], "c": "x\"y"}"#;
    assert_eq!(repair_structure(input).unwrap(), input.to_vec());
}

#[test]
fn repaired_output_is_balanced() {
    let out = repair_structure(b"{'a': [1, 2]], 'b': '}]'}").unwrap();
    assert_eq!(out, br#"{"a": [1, 2], "b": "}]"}"#.to_vec());
    assert!(serde_json::from_slice::<serde_json::Value>(&out).is_ok());
}
