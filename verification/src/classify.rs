//! Content classifier: a pure, total function mapping a clipboard string to
//! the tag stored with it. Rules are tried in a fixed priority order: JSON
//! (first non-blank character is `{` or `[`), then URL (the string starts
//! with `http://` or `https://`), then multiline (the string has a second
//! line), then plain text.

use vstd::prelude::*;

verus! {

/// The content-type tag attached to a stored history entry.
#[derive(Clone, Copy, PartialEq, Eq, Structural, Debug)]
pub enum ContentType {
    Json,
    Url,
    Multiline,
    Text,
}

/// A character with the Unicode `White_Space` property.
pub open spec fn is_space_char(c: char) -> bool {
    let u = c as u32;
    u == 0x09 || u == 0x0a || u == 0x0b || u == 0x0c || u == 0x0d || u == 0x20 || u == 0x85
        || u == 0xa0 || u == 0x1680 || (0x2000 <= u && u <= 0x200a) || u == 0x2028 || u == 0x2029
        || u == 0x202f || u == 0x205f || u == 0x3000
}

/// The first character that is not whitespace opens a JSON object or array.
pub open spec fn starts_json(s: Seq<char>) -> bool {
    exists|i: int|
        0 <= i < s.len() && (s[i] == '{' || s[i] == '[') && (forall|j: int|
            0 <= j < i ==> is_space_char(s[j]))
}

/// `prefix` stands at the start of `s`.
pub open spec fn starts_with(s: Seq<char>, prefix: Seq<char>) -> bool {
    prefix.len() <= s.len() && s.subrange(0, prefix.len() as int) == prefix
}

pub open spec fn http_prefix() -> Seq<char> {
    seq!['h', 't', 't', 'p', ':', '/', '/']
}

pub open spec fn https_prefix() -> Seq<char> {
    seq!['h', 't', 't', 'p', 's', ':', '/', '/']
}

pub open spec fn starts_url(s: Seq<char>) -> bool {
    starts_with(s, http_prefix()) || starts_with(s, https_prefix())
}

/// A newline before the last character starts a second line; a newline in
/// final position only terminates the single line before it.
pub open spec fn has_second_line(s: Seq<char>) -> bool {
    exists|i: int| 0 <= i < s.len() - 1 && s[i] == '\n'
}

/// The classification rules in their priority order.
pub open spec fn spec_classify(s: Seq<char>) -> ContentType {
    if starts_json(s) {
        ContentType::Json
    } else if starts_url(s) {
        ContentType::Url
    } else if has_second_line(s) {
        ContentType::Multiline
    } else {
        ContentType::Text
    }
}

/// A JSON-looking value is tagged `Json` no matter what else holds of it; in
/// particular a multiline string whose first non-blank character is `{` or
/// `[` is tagged `Json`, not `Multiline`.
pub proof fn lemma_classify_priority(s: Seq<char>)
    requires
        starts_json(s),
    ensures
        spec_classify(s) == ContentType::Json,
{
}

/// Recomputing the tag on the same content always yields the same tag:
/// `spec_classify` is a function of the character sequence alone, and
/// `classify` returns exactly that tag for every input.
pub proof fn lemma_classify_deterministic(s1: Seq<char>, s2: Seq<char>)
    requires
        s1 == s2,
    ensures
        spec_classify(s1) == spec_classify(s2),
{
}

fn is_space(c: char) -> (b: bool)
    ensures
        b == is_space_char(c),
{
    let u = c as u32;
    u == 0x09 || u == 0x0a || u == 0x0b || u == 0x0c || u == 0x0d || u == 0x20 || u == 0x85
        || u == 0xa0 || u == 0x1680 || (0x2000 <= u && u <= 0x200a) || u == 0x2028 || u == 0x2029
        || u == 0x202f || u == 0x205f || u == 0x3000
}

fn check_starts_json(s: &str) -> (b: bool)
    ensures
        b == starts_json(s@),
{
    let n = s.unicode_len();
    let mut i: usize = 0;
    while i < n
        invariant
            i <= n,
            n == s@.len(),
            forall|j: int| 0 <= j < i ==> is_space_char(s@[j]),
        decreases n - i,
    {
        let c = s.get_char(i);
        if !is_space(c) {
            if c == '{' || c == '[' {
                assert(starts_json(s@)) by {
                    assert(s@[i as int] == '{' || s@[i as int] == '[');
                }
                return true;
            } else {
                assert(!starts_json(s@)) by {
                    assert forall|k: int|
                        0 <= k < s@.len() && (s@[k] == '{' || s@[k] == '[') implies !(forall|j: int|
                        0 <= j < k ==> is_space_char(s@[j])) by {
                        if k <= i {
                            assert(!(s@[k] == '{' || s@[k] == '['));
                        } else {
                            assert(!is_space_char(s@[i as int]));
                        }
                    }
                }
                return false;
            }
        }
        i += 1;
    }
    assert(!starts_json(s@)) by {
        assert forall|k: int| 0 <= k < s@.len() implies !(s@[k] == '{' || s@[k] == '[') by {
            assert(is_space_char(s@[k]));
        }
    }
    false
}

fn check_starts_url(s: &str) -> (b: bool)
    ensures
        b == starts_url(s@),
{
    let n = s.unicode_len();
    if n >= 7 && s.get_char(0) == 'h' && s.get_char(1) == 't' && s.get_char(2) == 't' && s.get_char(
        3,
    ) == 'p' {
        if s.get_char(4) == ':' && s.get_char(5) == '/' && s.get_char(6) == '/' {
            assert(s@.subrange(0, 7) =~= http_prefix());
            return true;
        }
        if n >= 8 && s.get_char(4) == 's' && s.get_char(5) == ':' && s.get_char(6) == '/'
            && s.get_char(7) == '/' {
            assert(s@.subrange(0, 8) =~= https_prefix());
            return true;
        }
        assert(!starts_with(s@, http_prefix())) by {
            if starts_with(s@, http_prefix()) {
                assert(s@.subrange(0, 7)[4] == http_prefix()[4]);
            }
        }
        assert(!starts_with(s@, https_prefix())) by {
            if starts_with(s@, https_prefix()) {
                assert(s@.subrange(0, 8)[4] == https_prefix()[4]);
                assert(s@.subrange(0, 8)[5] == https_prefix()[5]);
                assert(s@.subrange(0, 8)[6] == https_prefix()[6]);
                assert(s@.subrange(0, 8)[7] == https_prefix()[7]);
            }
        }
        return false;
    }
    assert(!starts_url(s@)) by {
        if starts_with(s@, http_prefix()) {
            assert(s@.subrange(0, 7)[0] == http_prefix()[0]);
            assert(s@.subrange(0, 7)[1] == http_prefix()[1]);
            assert(s@.subrange(0, 7)[2] == http_prefix()[2]);
            assert(s@.subrange(0, 7)[3] == http_prefix()[3]);
        }
        if starts_with(s@, https_prefix()) {
            assert(s@.subrange(0, 8)[0] == https_prefix()[0]);
            assert(s@.subrange(0, 8)[1] == https_prefix()[1]);
            assert(s@.subrange(0, 8)[2] == https_prefix()[2]);
            assert(s@.subrange(0, 8)[3] == https_prefix()[3]);
        }
    }
    false
}

fn check_second_line(s: &str) -> (b: bool)
    ensures
        b == has_second_line(s@),
{
    let n = s.unicode_len();
    if n < 2 {
        return false;
    }
    let mut i: usize = 0;
    while i < n - 1
        invariant
            i <= n - 1,
            n == s@.len(),
            n >= 2,
            forall|j: int| 0 <= j < i ==> s@[j] != '\n',
        decreases n - 1 - i,
    {
        if s.get_char(i) == '\n' {
            return true;
        }
        i += 1;
    }
    false
}

/// The content classifier used at write time: pure, total, deterministic.
pub fn classify(s: &str) -> (t: ContentType)
    ensures
        t == spec_classify(s@),
{
    if check_starts_json(s) {
        ContentType::Json
    } else if check_starts_url(s) {
        ContentType::Url
    } else if check_second_line(s) {
        ContentType::Multiline
    } else {
        ContentType::Text
    }
}

impl ContentType {
    /// The tag as it is written to the `content_type` column.
    pub fn tag(&self) -> (r: String)
        ensures
            self is Json ==> r@ == "json"@,
            self is Url ==> r@ == "url"@,
            self is Multiline ==> r@ == "multiline"@,
            self is Text ==> r@ == "text"@,
    {
        match self {
            ContentType::Json => String::from_str("json"),
            ContentType::Url => String::from_str("url"),
            ContentType::Multiline => String::from_str("multiline"),
            ContentType::Text => String::from_str("text"),
        }
    }
}

} // verus!
