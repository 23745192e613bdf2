use clipvault::classify::{classify, ContentType};
use clipvault::greet;

#[test]
fn json_after_leading_whitespace() {
    assert_eq!(classify("  {\"k\":1}"), ContentType::Json);
}

#[test]
fn json_array() {
    assert_eq!(classify("[1, 2]"), ContentType::Json);
}

#[test]
fn url_https() {
    assert_eq!(classify("https://x.test"), ContentType::Url);
}

#[test]
fn url_http() {
    assert_eq!(classify("http://example.test/path"), ContentType::Url);
}

#[test]
fn multiline_two_lines() {
    assert_eq!(classify("line1\nline2"), ContentType::Multiline);
}

#[test]
fn plain_text() {
    assert_eq!(classify("hello"), ContentType::Text);
}

#[test]
fn json_beats_multiline() {
    assert_eq!(classify("{\n  \"a\": 1\n}"), ContentType::Json);
}

#[test]
fn trailing_newline_is_single_line() {
    assert_eq!(classify("a\n"), ContentType::Text);
}

#[test]
fn lone_newline_is_single_line() {
    assert_eq!(classify("\n"), ContentType::Text);
}

#[test]
fn whitespace_only_is_text() {
    assert_eq!(classify("   "), ContentType::Text);
}

#[test]
fn interior_newline_in_blanks_is_multiline() {
    assert_eq!(classify(" \n x"), ContentType::Multiline);
}

#[test]
fn empty_string_is_text() {
    assert_eq!(classify(""), ContentType::Text);
}

#[test]
fn url_prefix_bare() {
    assert_eq!(classify("https://"), ContentType::Url);
}

#[test]
fn almost_url_is_text() {
    assert_eq!(classify("htt://x"), ContentType::Text);
}

#[test]
fn tags() {
    assert_eq!(ContentType::Json.tag(), "json");
    assert_eq!(ContentType::Url.tag(), "url");
    assert_eq!(ContentType::Multiline.tag(), "multiline");
    assert_eq!(ContentType::Text.tag(), "text");
}

#[test]
fn greet_builds_message() {
    assert_eq!(greet("World"), "Hello, World! You've been greeted from Rust!");
}
