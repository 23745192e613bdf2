use clipvault::jsonops::{extract_error_position, format_json, minify_json, validate_json};

#[test]
fn position_read_from_fixed_message() {
    let r = extract_error_position("expected `,` or `}` at line 5 column 10");
    assert_eq!(r, (Some(5), Some(10)));
}

#[test]
fn position_absent_without_numbers() {
    assert_eq!(extract_error_position("no numbers here"), (None, None));
}

#[test]
fn position_needs_a_digit_after_the_label() {
    assert_eq!(extract_error_position("line abc column def"), (None, None));
}

#[test]
fn position_first_occurrence_wins() {
    let r = extract_error_position("at line 2 column 7, then line 9 column 1");
    assert_eq!(r, (Some(2), Some(7)));
}

#[test]
fn position_too_large_for_usize_is_dropped() {
    let r = extract_error_position("at line 99999999999999999999999999 column 3");
    assert_eq!(r, (None, Some(3)));
}

#[test]
fn validate_accepts_and_pretty_prints() {
    let r = validate_json("  {\"k\":1}".to_string());
    assert!(r.is_valid);
    assert_eq!(r.error_message, None);
    assert_eq!(r.line_number, None);
    assert_eq!(r.column_number, None);
    let v: serde_json::Value = serde_json::from_str("  {\"k\":1}").unwrap();
    assert_eq!(r.formatted_json, Some(serde_json::to_string_pretty(&v).unwrap()));
}

#[test]
fn validate_reports_position_of_real_parse_error() {
    let bad = "{\n  \"a\": ,\n}";
    let e = serde_json::from_str::<serde_json::Value>(bad).unwrap_err();
    let r = validate_json(bad.to_string());
    assert!(!r.is_valid);
    assert_eq!(r.formatted_json, None);
    assert_eq!(r.error_message, Some(format!("JSON Parse Error: {}", e)));
    assert_eq!(r.line_number, Some(e.line()));
    assert_eq!(r.column_number, Some(e.column()));
}

#[test]
fn format_pretty_prints() {
    assert_eq!(format_json("{ \"a\" : 1 }".to_string()), Ok("{\n  \"a\": 1\n}".to_string()));
}

#[test]
fn format_rejects_invalid_input() {
    let r = format_json("nope".to_string());
    let msg = r.unwrap_err();
    assert!(msg.starts_with("Invalid JSON: "));
}

#[test]
fn minify_strips_whitespace() {
    assert_eq!(minify_json("{ \"a\" : 1 }".to_string()), Ok("{\"a\":1}".to_string()));
}

#[test]
fn minify_rejects_invalid_input() {
    let r = minify_json("{,".to_string());
    let msg = r.unwrap_err();
    assert!(msg.starts_with("Invalid JSON: "));
}

#[test]
fn round_trip_minify_then_format() {
    let pretty = format_json("{\"a\":[1,2],\"b\":null}".to_string()).unwrap();
    let back = minify_json(pretty).unwrap();
    assert_eq!(back, "{\"a\":[1,2],\"b\":null}");
}
