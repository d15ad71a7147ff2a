//! The header types of the HTTP client, as far as the argument parser uses them.
//!
//! Header names and values are validated and stored by the `http` crate, which
//! `reqwest` re-exports. Nothing in this module is proved: the contracts say
//! what that crate's source shows, and the parser is verified against them.

use vstd::prelude::*;
use reqwest::header::{
    HeaderMap, HeaderName, HeaderValue, InvalidHeaderName, InvalidHeaderValue, MaxSizeReached,
};

verus! {

/// `HeaderMap`: the headers of a request. Its inside is not looked at.
#[verifier::external_type_specification]
#[verifier::external_body]
#[verifier::reject_recursive_types(T)]
pub struct ExHeaderMap<T>(HeaderMap<T>);

/// `HeaderName`: a validated header name. Its inside is not looked at.
#[verifier::external_type_specification]
#[verifier::external_body]
pub struct ExHeaderName(HeaderName);

/// `HeaderValue`: a validated header value. Its inside is not looked at.
#[verifier::external_type_specification]
#[verifier::external_body]
pub struct ExHeaderValue(HeaderValue);

/// `InvalidHeaderName`: the error of `HeaderName::from_bytes`.
#[verifier::external_type_specification]
#[verifier::external_body]
pub struct ExInvalidHeaderName(InvalidHeaderName);

/// `InvalidHeaderValue`: the error of `HeaderValue::from_str`.
#[verifier::external_type_specification]
#[verifier::external_body]
pub struct ExInvalidHeaderValue(InvalidHeaderValue);

/// `MaxSizeReached`: the error of `HeaderMap::try_insert`.
#[verifier::external_type_specification]
#[verifier::external_body]
pub struct ExMaxSizeReached(MaxSizeReached);

/// The header name that `HeaderName::from_bytes` makes of the UTF-8 bytes of
/// `key`, or `None` where it refuses them.
pub uninterp spec fn header_name_of(key: Seq<char>) -> Option<HeaderName>;

/// The header value that `HeaderValue::from_str` makes of `text`, or `None`
/// where it refuses it.
pub uninterp spec fn header_value_of(text: Seq<char>) -> Option<HeaderValue>;

/// What a header map holds: for each name in it, the value that a lookup of
/// that name gives.
pub uninterp spec fn header_entries(map: HeaderMap<HeaderValue>) -> Map<HeaderName, HeaderValue>;

/// The contents of a header map that holds nothing.
pub open spec fn no_headers() -> Map<HeaderName, HeaderValue> {
    Map::empty()
}

/// `HeaderMap::new`: a map that holds nothing.
#[verifier::external_body]
pub(crate) fn new_header_map() -> (headers: HeaderMap<HeaderValue>)
    ensures
        header_entries(headers) == no_headers(),
{
    HeaderMap::new()
}

/// `HeaderName::from_bytes` on the bytes of `key`. Whether it accepts them,
/// and the normalized name it then returns, depend on `key` alone.
#[verifier::external_body]
pub(crate) fn header_name_from_bytes(key: &str) -> (r: Result<HeaderName, InvalidHeaderName>)
    ensures
        r matches Ok(name) ==> header_name_of(key@) == Some(name),
        r is Err ==> header_name_of(key@) is None,
{
    HeaderName::from_bytes(key.as_bytes())
}

/// `HeaderValue::from_str`. Whether it accepts `text`, and the value it then
/// returns, depend on `text` alone.
#[verifier::external_body]
pub(crate) fn header_value_from_str(text: &str) -> (r: Result<HeaderValue, InvalidHeaderValue>)
    ensures
        r matches Ok(value) ==> header_value_of(text@) == Some(value),
        r is Err ==> header_value_of(text@) is None,
{
    HeaderValue::from_str(text)
}

/// `HeaderMap::try_insert`. Where it succeeds, `name` is afterwards bound to
/// `value` alone and every other name is left as it was. It fails where the
/// map cannot grow any further; nothing is claimed of the map then.
#[verifier::external_body]
pub(crate) fn header_map_try_insert(
    map: &mut HeaderMap<HeaderValue>,
    name: HeaderName,
    value: HeaderValue,
) -> (r: Result<(), MaxSizeReached>)
    ensures
        r is Ok ==> header_entries(*final(map)) == header_entries(*old(map)).insert(name, value),
{
    match map.try_insert(name, value) {
        Ok(_) => Ok(()),
        Err(full) => Err(full),
    }
}

} // verus!
