//! The request-item grammar: `key:value`, `key=value`, `key:=value`, `key==value`.
//!
//! A token is split at its first `:` or `=`. The character after it decides
//! between the one-character and the two-character form of the delimiter.

use vstd::prelude::*;
use vstd::string::*;
use crate::text::{head_to, tail_from};

verus! {

/// What a request item contributes to the request.
#[derive(Debug, Clone, Copy, PartialEq, Eq, Structural)]
pub enum RequestItemType {
    /// `key:value`, a header.
    Header,
    /// `key=value`, a string field of the body.
    KeyVal,
    /// `key:=value`, a field of the body whose value is JSON source text.
    RawJson,
    /// `key==value`, a query parameter.
    Query,
}

/// A request item over character sequences: its kind, key and raw value.
pub type ItemView = (RequestItemType, Seq<char>, Seq<char>);

/// The two characters that can start a delimiter.
pub open spec fn is_delimiter(c: char) -> bool {
    c == ':' || c == '='
}

/// The position of the first `:` or `=` in `s`, or `s.len()` when it has neither.
pub open spec fn first_delimiter(s: Seq<char>) -> int
    decreases s.len(),
{
    if s.len() == 0 {
        0
    } else if is_delimiter(s[0]) {
        0
    } else {
        1 + first_delimiter(s.drop_first())
    }
}

/// Whether the delimiter at position `i` of `s` is followed by `=`.
pub open spec fn is_doubled(s: Seq<char>, i: int) -> bool {
    i + 1 < s.len() && s[i + 1] == '='
}

/// The kind that the delimiter at position `i` of `s` stands for.
pub open spec fn kind_at(s: Seq<char>, i: int) -> RequestItemType {
    if s[i] == ':' {
        if is_doubled(s, i) {
            RequestItemType::RawJson
        } else {
            RequestItemType::Header
        }
    } else {
        if is_doubled(s, i) {
            RequestItemType::Query
        } else {
            RequestItemType::KeyVal
        }
    }
}

/// The number of characters that a delimiter of the given kind takes.
pub open spec fn delimiter_width(kind: RequestItemType) -> int {
    match kind {
        RequestItemType::RawJson | RequestItemType::Query => 2,
        RequestItemType::Header | RequestItemType::KeyVal => 1,
    }
}

/// The request item that a token denotes, if it holds a delimiter: the key is
/// what stands before the first delimiter, the value what stands after it.
pub open spec fn request_item(token: Seq<char>) -> Option<ItemView> {
    let i = first_delimiter(token);
    if i >= token.len() {
        None
    } else {
        let kind = kind_at(token, i);
        Some((kind, token.take(i), token.skip(i + delimiter_width(kind))))
    }
}

/// The view of an item as `parse_var` returns it.
pub open spec fn item_view(item: Option<(RequestItemType, String, String)>) -> Option<ItemView> {
    match item {
        Some((kind, key, value)) => Some((kind, key@, value@)),
        None => None,
    }
}

/// The view of a list of items.
pub open spec fn items_view(items: Seq<(RequestItemType, String, String)>) -> Seq<ItemView> {
    items.map_values(|item: (RequestItemType, String, String)| (item.0, item.1@, item.2@))
}

/// Whether an item of this kind is a field of the body.
pub open spec fn is_body_field(kind: RequestItemType) -> bool {
    kind == RequestItemType::KeyVal || kind == RequestItemType::RawJson
}

/// Whether every item is a field of the body.
pub open spec fn body_fields(data: Seq<ItemView>) -> bool {
    forall|i: int| 0 <= i < data.len() ==> is_body_field((#[trigger] data[i]).0)
}

/// `first_delimiter` is in range, nothing before it is a delimiter, and it
/// points at one unless it is the length.
pub proof fn lemma_first_delimiter(s: Seq<char>)
    ensures
        0 <= first_delimiter(s) <= s.len(),
        forall|j: int| 0 <= j < first_delimiter(s) ==> !is_delimiter(#[trigger] s[j]),
        first_delimiter(s) < s.len() ==> is_delimiter(s[first_delimiter(s)]),
    decreases s.len(),
{
    if s.len() > 0 && !is_delimiter(s[0]) {
        let rest = s.drop_first();
        lemma_first_delimiter(rest);
        assert forall|j: int| 0 <= j < first_delimiter(s) implies !is_delimiter(#[trigger] s[j]) by {
            if j > 0 {
                assert(s[j] == rest[j - 1]);
            }
        }
        if first_delimiter(s) < s.len() {
            assert(s[first_delimiter(s)] == rest[first_delimiter(rest)]);
        }
    }
}

/// A position with no delimiter before it that either holds one or is the
/// length is the first delimiter.
pub proof fn lemma_first_delimiter_is(s: Seq<char>, i: int)
    requires
        0 <= i <= s.len(),
        forall|j: int| 0 <= j < i ==> !is_delimiter(#[trigger] s[j]),
        i < s.len() ==> is_delimiter(s[i]),
    ensures
        first_delimiter(s) == i,
{
    lemma_first_delimiter(s);
    let f = first_delimiter(s);
    if f < i {
        assert(!is_delimiter(s[f]));
    } else if i < f {
        assert(!is_delimiter(s[i]));
    }
}

/// A sequence that holds neither `:` nor `=`.
pub open spec fn delimiter_free(s: Seq<char>) -> bool {
    forall|j: int| 0 <= j < s.len() ==> !is_delimiter(#[trigger] s[j])
}

/// A sequence that does not begin with `=`.
pub open spec fn not_led_by_equals(s: Seq<char>) -> bool {
    s.len() == 0 || s[0] != '='
}

/// In `key + delimiter + value` with a delimiter-free key and a delimiter that
/// begins with `:` or `=`, the first delimiter stands right after the key.
proof fn lemma_delimiter_after_key(key: Seq<char>, delimiter: Seq<char>, value: Seq<char>)
    requires
        delimiter_free(key),
        delimiter.len() > 0,
        is_delimiter(delimiter[0]),
    ensures
        first_delimiter(key + delimiter + value) == key.len(),
{
    let token = key + delimiter + value;
    assert forall|j: int| 0 <= j < key.len() implies !is_delimiter(#[trigger] token[j]) by {
        assert(token[j] == key[j]);
    }
    assert(token[key.len() as int] == delimiter[0]);
    lemma_first_delimiter_is(token, key.len() as int);
}

/// Every token `key:value` whose key is free of delimiters and whose value
/// does not begin with `=` is a header with that key and value.
pub proof fn lemma_header_form(key: Seq<char>, value: Seq<char>)
    requires
        delimiter_free(key),
        not_led_by_equals(value),
    ensures
        request_item(key + seq![':'] + value) == Some((RequestItemType::Header, key, value)),
{
    let token = key + seq![':'] + value;
    lemma_delimiter_after_key(key, seq![':'], value);
    let i = key.len() as int;
    assert(token[i] == ':');
    if value.len() > 0 {
        assert(token[i + 1] == value[0]);
    }
    assert(token.take(i) =~= key);
    assert(token.skip(i + 1) =~= value);
}

/// Every token `key=value` whose key is free of delimiters and whose value
/// does not begin with `=` is a string field with that key and value.
pub proof fn lemma_string_field_form(key: Seq<char>, value: Seq<char>)
    requires
        delimiter_free(key),
        not_led_by_equals(value),
    ensures
        request_item(key + seq!['='] + value) == Some((RequestItemType::KeyVal, key, value)),
{
    let token = key + seq!['='] + value;
    lemma_delimiter_after_key(key, seq!['='], value);
    let i = key.len() as int;
    assert(token[i] == '=');
    if value.len() > 0 {
        assert(token[i + 1] == value[0]);
    }
    assert(token.take(i) =~= key);
    assert(token.skip(i + 1) =~= value);
}

/// Every token `key:=value` whose key is free of delimiters is a JSON field
/// with that key and value, whatever the value holds.
pub proof fn lemma_json_field_form(key: Seq<char>, value: Seq<char>)
    requires
        delimiter_free(key),
    ensures
        request_item(key + seq![':', '='] + value) == Some((RequestItemType::RawJson, key, value)),
{
    let token = key + seq![':', '='] + value;
    lemma_delimiter_after_key(key, seq![':', '='], value);
    let i = key.len() as int;
    assert(token[i] == ':');
    assert(token[i + 1] == '=');
    assert(token.take(i) =~= key);
    assert(token.skip(i + 2) =~= value);
}

/// Every token `key==value` whose key is free of delimiters is a query
/// parameter with that key and value, whatever the value holds.
pub proof fn lemma_query_form(key: Seq<char>, value: Seq<char>)
    requires
        delimiter_free(key),
    ensures
        request_item(key + seq!['=', '='] + value) == Some((RequestItemType::Query, key, value)),
{
    let token = key + seq!['=', '='] + value;
    lemma_delimiter_after_key(key, seq!['=', '='], value);
    let i = key.len() as int;
    assert(token[i] == '=');
    assert(token[i + 1] == '=');
    assert(token.take(i) =~= key);
    assert(token.skip(i + 2) =~= value);
}

/// The two-character delimiters take precedence: no token is a header or a
/// string field with a value that begins with `=`. The key of an item never
/// holds a delimiter.
pub proof fn lemma_delimiter_priority(token: Seq<char>)
    ensures
        match request_item(token) {
            Some((kind, key, value)) => {
                &&& delimiter_free(key)
                &&& kind == RequestItemType::Header || kind == RequestItemType::KeyVal
                    ==> not_led_by_equals(value)
            },
            None => delimiter_free(token),
        },
{
    lemma_first_delimiter(token);
    let i = first_delimiter(token);
    if i < token.len() {
        let kind = kind_at(token, i);
        let value = token.skip(i + delimiter_width(kind));
        if (kind == RequestItemType::Header || kind == RequestItemType::KeyVal) && value.len() > 0 {
            assert(value[0] == token[i + 1]);
        }
    }
}

/// The characters of the delimiter of each kind.
pub open spec fn delimiter_text(kind: RequestItemType) -> Seq<char> {
    match kind {
        RequestItemType::Header => seq![':'],
        RequestItemType::KeyVal => seq!['='],
        RequestItemType::RawJson => seq![':', '='],
        RequestItemType::Query => seq!['=', '='],
    }
}

/// Key and value are parts of the token as it stands: a request item is its
/// key, the delimiter of its kind, and its value, in this order.
pub proof fn lemma_item_recomposes(token: Seq<char>)
    ensures
        request_item(token) matches Some((kind, key, value)) ==> token == key + delimiter_text(kind)
            + value,
{
    lemma_first_delimiter(token);
    let i = first_delimiter(token);
    if i < token.len() {
        let kind = kind_at(token, i);
        assert(token =~= token.take(i) + delimiter_text(kind) + token.skip(
            i + delimiter_width(kind),
        ));
    }
}

/// The position of the first delimiter of `token`, if it has one.
fn find_delimiter(token: &str) -> (r: Option<usize>)
    ensures
        match r {
            Some(i) => i == first_delimiter(token@) && i < token@.len(),
            None => first_delimiter(token@) == token@.len(),
        },
{
    let n: usize = token.unicode_len();
    let mut at: usize = 0;
    for c in it: token.chars()
        invariant
            it.seq() == token@,
            at == it.index(),
            n == token@.len(),
            forall|j: int| 0 <= j < at ==> !is_delimiter(#[trigger] token@[j]),
    {
        if c == ':' || c == '=' {
            proof {
                lemma_first_delimiter_is(token@, at as int);
            }
            return Some(at);
        }
        at += 1;
    }
    proof {
        lemma_first_delimiter_is(token@, n as int);
    }
    None
}

/// Splits a token at its first delimiter into kind, key and raw value.
/// A token without `:` and `=` is no request item.
pub fn parse_var(arg: String) -> (r: Option<(RequestItemType, String, String)>)
    ensures
        item_view(r) == request_item(arg@),
{
    let token = arg.as_str();
    let n: usize = token.unicode_len();
    match find_delimiter(token) {
        None => None,
        Some(i) => {
            let colon = token.get_char(i) == ':';
            let doubled = i + 1 < n && token.get_char(i + 1) == '=';
            let kind = if colon {
                if doubled {
                    RequestItemType::RawJson
                } else {
                    RequestItemType::Header
                }
            } else {
                if doubled {
                    RequestItemType::Query
                } else {
                    RequestItemType::KeyVal
                }
            };
            let width: usize = if doubled {
                2
            } else {
                1
            };
            let key = head_to(token, i);
            let value = tail_from(token, i + width);
            Some((kind, key, value))
        },
    }
}

} // verus!
