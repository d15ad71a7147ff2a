//! Classification of one argument token, before its position is considered.

use vstd::prelude::*;
use vstd::string::*;
use crate::item::{
    delimiter_free, item_view, lemma_header_form, lemma_json_field_form, lemma_query_form,
    lemma_string_field_form, not_led_by_equals, parse_var, request_item, RequestItemType,
};
use crate::method::{method_named, Method};
use crate::options::is_option;
use crate::text::starts_with;

verus! {

/// What a token is by its text alone.
#[derive(Debug)]
pub enum TokenKind {
    /// An option token: it begins with a dash.
    Flag,
    /// One of the nine method literals.
    MaybeMethod(Method),
    /// A token with a delimiter: kind, key and raw value.
    RequestItem(RequestItemType, String, String),
    /// Anything else: a URL candidate.
    PlainString,
}

/// A token kind over character sequences.
pub enum TokenKindView {
    Flag,
    MaybeMethod(Method),
    RequestItem(RequestItemType, Seq<char>, Seq<char>),
    PlainString,
}

impl View for TokenKind {
    type V = TokenKindView;

    open spec fn view(&self) -> TokenKindView {
        match self {
            TokenKind::Flag => TokenKindView::Flag,
            TokenKind::MaybeMethod(method) => TokenKindView::MaybeMethod(*method),
            TokenKind::RequestItem(kind, key, value) => TokenKindView::RequestItem(
                *kind,
                key@,
                value@,
            ),
            TokenKind::PlainString => TokenKindView::PlainString,
        }
    }
}

/// The kind of a token. A leading dash makes an option token, whatever
/// follows. Otherwise the first `:` or `=` makes a request item. A token
/// without either is a method literal or a plain string.
pub open spec fn token_kind(token: Seq<char>) -> TokenKindView {
    if is_option(token) {
        TokenKindView::Flag
    } else {
        match request_item(token) {
            Some((kind, key, value)) => TokenKindView::RequestItem(kind, key, value),
            None => match method_named(token) {
                Some(method) => TokenKindView::MaybeMethod(method),
                None => TokenKindView::PlainString,
            },
        }
    }
}

/// A sequence that does not begin with a dash.
pub open spec fn not_led_by_dash(s: Seq<char>) -> bool {
    s.len() == 0 || s[0] != '-'
}

/// A token that does not begin with a dash is no option token.
pub proof fn lemma_no_dash_no_option(token: Seq<char>)
    requires
        not_led_by_dash(token),
    ensures
        !is_option(token),
{
    reveal_strlit("-");
    if is_option(token) {
        assert(token.subrange(0, 1)[0] == '-');
    }
}

/// The four forms of a request item. With a key that holds no delimiter and
/// does not begin with a dash, `key:=value` is a JSON field and `key==value`
/// a query parameter, whatever the value; `key:value` is a header and
/// `key=value` a string field, unless the value begins with `=`.
pub proof fn lemma_item_forms(key: Seq<char>, value: Seq<char>)
    requires
        delimiter_free(key),
        not_led_by_dash(key),
    ensures
        token_kind(key + seq![':', '='] + value) == TokenKindView::RequestItem(
            RequestItemType::RawJson,
            key,
            value,
        ),
        token_kind(key + seq!['=', '='] + value) == TokenKindView::RequestItem(
            RequestItemType::Query,
            key,
            value,
        ),
        not_led_by_equals(value) ==> token_kind(key + seq![':'] + value)
            == TokenKindView::RequestItem(RequestItemType::Header, key, value),
        not_led_by_equals(value) ==> token_kind(key + seq!['='] + value)
            == TokenKindView::RequestItem(RequestItemType::KeyVal, key, value),
{
    lemma_json_field_form(key, value);
    lemma_query_form(key, value);
    assert forall|delimiter: Seq<char>|
        delimiter.len() > 0 && delimiter[0] != '-' implies !is_option(
        #[trigger] (key + delimiter + value),
    ) by {
        let token = key + delimiter + value;
        if key.len() > 0 {
            assert(token[0] == key[0]);
        } else {
            assert(token[0] == delimiter[0]);
        }
        lemma_no_dash_no_option(token);
    }
    assert(seq![':', '='][0] == ':');
    assert(seq!['=', '='][0] == '=');
    assert(!is_option(key + seq![':', '='] + value));
    assert(!is_option(key + seq!['=', '='] + value));
    if not_led_by_equals(value) {
        lemma_header_form(key, value);
        lemma_string_field_form(key, value);
        assert(seq![':'][0] == ':');
        assert(seq!['='][0] == '=');
        assert(!is_option(key + seq![':'] + value));
        assert(!is_option(key + seq!['='] + value));
    }
}

/// Classifies one token.
pub fn classify(token: &str) -> (kind: TokenKind)
    ensures
        kind@ == token_kind(token@),
{
    if starts_with(token, "-") {
        return TokenKind::Flag;
    }
    let item = parse_var(String::from_str(token));
    assert(item_view(item) == request_item(token@));
    match item {
        Some((kind, key, value)) => TokenKind::RequestItem(kind, key, value),
        None => match Method::from_token(token) {
            Some(method) => TokenKind::MaybeMethod(method),
            None => TokenKind::PlainString,
        },
    }
}

} // verus!
