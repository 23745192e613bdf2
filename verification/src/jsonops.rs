//! JSON commands offered to the UI: validate a pasted string, pretty-print
//! it, or minify it. Parsing and rendering are serde_json's; whether the
//! input is accepted, and how a failure is reported — the wrapped message
//! and the line and column read out of it — is pinned down here.

use vstd::prelude::*;

use crate::classify::starts_with;
use crate::textscan::{extracted_number, find_number_after};

verus! {

#[verifier::external_type_specification]
#[verifier::external_body]
pub struct ExJsonValue(serde_json::Value);

#[verifier::external_type_specification]
#[verifier::external_body]
pub struct ExJsonError(serde_json::Error);

/// Whether serde_json's parser accepts the string as a JSON document: a
/// function of the characters alone.
pub uninterp spec fn json_accepts(s: Seq<char>) -> bool;

/// Relies on serde_json's `from_str::<Value>`: it returns `Ok` exactly on
/// the strings the JSON grammar accepts, which depends on the input alone.
#[verifier::external_body]
fn parse_json(s: &str) -> (r: Result<serde_json::Value, serde_json::Error>)
    ensures
        r is Ok <==> json_accepts(s@),
{
    serde_json::from_str::<serde_json::Value>(s)
}

/// Relies on serde_json's `to_string_pretty`; nothing is assumed of the
/// rendered text.
#[verifier::external_body]
fn to_pretty(v: &serde_json::Value) -> (r: Result<String, serde_json::Error>) {
    serde_json::to_string_pretty(v)
}

/// Relies on serde_json's `to_string`; nothing is assumed of the rendered
/// text.
#[verifier::external_body]
fn to_compact(v: &serde_json::Value) -> (r: Result<String, serde_json::Error>) {
    serde_json::to_string(v)
}

/// Relies on the `Display` rendering of serde_json's `Error`; nothing is
/// assumed of the message.
#[verifier::external_body]
fn error_text(e: &serde_json::Error) -> (r: String) {
    e.to_string()
}

/// The answer handed back for a validation request.
pub struct JsonValidationResult {
    pub is_valid: bool,
    pub error_message: Option<String>,
    pub formatted_json: Option<String>,
    pub line_number: Option<usize>,
    pub column_number: Option<usize>,
}

pub open spec fn line_label() -> Seq<char> {
    seq!['l', 'i', 'n', 'e', ' ']
}

pub open spec fn column_label() -> Seq<char> {
    seq!['c', 'o', 'l', 'u', 'm', 'n', ' ']
}

/// How an extracted value is reported as a `usize` field: absent where no
/// number stands in the message or where it does not fit.
pub open spec fn reported_number(m: Option<int>, r: Option<usize>) -> bool {
    match m {
        None => r is None,
        Some(v) => if v <= usize::MAX {
            r == Some(v as usize)
        } else {
            r is None
        },
    }
}

/// Reads the line and column out of a parse-error message, as the numbers
/// standing after its first `line ` and `column ` fragments.
pub fn extract_error_position(error_msg: &str) -> (r: (Option<usize>, Option<usize>))
    ensures
        reported_number(extracted_number(error_msg@, line_label()), r.0),
        reported_number(extracted_number(error_msg@, column_label()), r.1),
{
    proof {
        reveal_strlit("line ");
        reveal_strlit("column ");
        assert("line "@ =~= line_label());
        assert("column "@ =~= column_label());
    }
    let line = find_number_after(error_msg, "line ");
    let column = find_number_after(error_msg, "column ");
    (line, column)
}

/// The validation answer for a parse failure whose message is `error_msg`:
/// invalid, the message wrapped under a fixed prefix, no formatted text, and
/// the line and column read out of the message.
pub fn validation_failure(error_msg: String) -> (r: JsonValidationResult)
    ensures
        !r.is_valid,
        r.formatted_json is None,
        r.error_message matches Some(m) && m@ == "JSON Parse Error: "@ + error_msg@,
        reported_number(extracted_number(error_msg@, line_label()), r.line_number),
        reported_number(extracted_number(error_msg@, column_label()), r.column_number),
{
    let (line, column) = extract_error_position(error_msg.as_str());
    let mut message = String::from_str("JSON Parse Error: ");
    message.append(error_msg.as_str());
    JsonValidationResult {
        is_valid: false,
        error_message: Some(message),
        formatted_json: None,
        line_number: line,
        column_number: column,
    }
}

/// Validates a string as JSON: valid exactly when the parser accepts it,
/// and then pretty-printed (falling back to the input where rendering
/// fails); on a parse failure the wrapped message and the position read out
/// of it are reported instead.
pub fn validate_json(json_text: String) -> (r: JsonValidationResult)
    ensures
        r.is_valid == json_accepts(json_text@),
        r.is_valid ==> r.error_message is None && r.line_number is None && r.column_number is None
            && r.formatted_json is Some,
        !r.is_valid ==> (r.error_message matches Some(m) && r.formatted_json is None
            && starts_with(m@, "JSON Parse Error: "@)),
{
    match parse_json(json_text.as_str()) {
        Ok(parsed) => {
            match to_pretty(&parsed) {
                Ok(formatted) => JsonValidationResult {
                    is_valid: true,
                    error_message: None,
                    formatted_json: Some(formatted),
                    line_number: None,
                    column_number: None,
                },
                Err(_) => JsonValidationResult {
                    is_valid: true,
                    error_message: None,
                    formatted_json: Some(json_text),
                    line_number: None,
                    column_number: None,
                },
            }
        },
        Err(e) => {
            let msg = error_text(&e);
            let r = validation_failure(msg);
            proof {
                let m = r.error_message.unwrap()@;
                assert(m.subrange(0, "JSON Parse Error: "@.len() as int) =~= "JSON Parse Error: "@);
            }
            r
        },
    }
}

/// Pretty-prints a JSON string. Rejects exactly the strings the parser
/// rejects, under the `Invalid JSON: ` prefix; a rendering failure on an
/// accepted string is reported under the `Failed to format JSON: ` prefix.
pub fn format_json(json_text: String) -> (r: Result<String, String>)
    ensures
        r is Ok ==> json_accepts(json_text@),
        !json_accepts(json_text@) ==> (r matches Err(m) && starts_with(m@, "Invalid JSON: "@)),
        (json_accepts(json_text@) && r is Err) ==> (r matches Err(m) && starts_with(
            m@,
            "Failed to format JSON: "@,
        )),
{
    match parse_json(json_text.as_str()) {
        Ok(parsed) => {
            match to_pretty(&parsed) {
                Ok(formatted) => Ok(formatted),
                Err(e) => {
                    let mut m = String::from_str("Failed to format JSON: ");
                    m.append(error_text(&e).as_str());
                    proof {
                        assert(m@.subrange(0, "Failed to format JSON: "@.len() as int)
                            =~= "Failed to format JSON: "@);
                    }
                    Err(m)
                },
            }
        },
        Err(e) => {
            let mut m = String::from_str("Invalid JSON: ");
            m.append(error_text(&e).as_str());
            proof {
                assert(m@.subrange(0, "Invalid JSON: "@.len() as int) =~= "Invalid JSON: "@);
            }
            Err(m)
        },
    }
}

/// Minifies a JSON string: the same acceptance rule as `format_json`, with
/// compact rendering and the `Failed to minify JSON: ` prefix on a
/// rendering failure.
pub fn minify_json(json_text: String) -> (r: Result<String, String>)
    ensures
        r is Ok ==> json_accepts(json_text@),
        !json_accepts(json_text@) ==> (r matches Err(m) && starts_with(m@, "Invalid JSON: "@)),
        (json_accepts(json_text@) && r is Err) ==> (r matches Err(m) && starts_with(
            m@,
            "Failed to minify JSON: "@,
        )),
{
    match parse_json(json_text.as_str()) {
        Ok(parsed) => {
            match to_compact(&parsed) {
                Ok(compact) => Ok(compact),
                Err(e) => {
                    let mut m = String::from_str("Failed to minify JSON: ");
                    m.append(error_text(&e).as_str());
                    proof {
                        assert(m@.subrange(0, "Failed to minify JSON: "@.len() as int)
                            =~= "Failed to minify JSON: "@);
                    }
                    Err(m)
                },
            }
        },
        Err(e) => {
            let mut m = String::from_str("Invalid JSON: ");
            m.append(error_text(&e).as_str());
            proof {
                assert(m@.subrange(0, "Invalid JSON: "@.len() as int) =~= "Invalid JSON: "@);
            }
            Err(m)
        },
    }
}

} // verus!
