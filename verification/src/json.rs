//! The JSON values of the request body, as far as body assembly uses them.
//!
//! JSON text is parsed and JSON values are held by `serde_json`. Nothing in
//! this module is proved: the contracts say what that crate's source shows,
//! and body assembly is verified against them.

use vstd::prelude::*;
use serde_json::{Error, Map as JsonMap, Value};

verus! {

/// `serde_json::Value`: a JSON value. Its inside is not looked at.
#[verifier::external_type_specification]
#[verifier::external_body]
pub struct ExValue(Value);

/// `serde_json::Map`: the members of a JSON object. Its inside is not looked at.
#[verifier::external_type_specification]
#[verifier::external_body]
#[verifier::reject_recursive_types(K)]
#[verifier::reject_recursive_types(V)]
pub struct ExJsonMap<K, V>(JsonMap<K, V>);

/// `serde_json::Error`: the error of the JSON parser.
#[verifier::external_type_specification]
#[verifier::external_body]
pub struct ExError(Error);

/// What `serde_json::from_str` makes of `text` when asked for a `Value`: the
/// value that the text denotes, or the parser's error.
pub uninterp spec fn json_parse(text: Seq<char>) -> Result<Value, Error>;

/// What a parser error says when displayed.
pub uninterp spec fn json_error_text(error: Error) -> Seq<char>;

/// The JSON string with the given characters.
pub uninterp spec fn json_string(text: Seq<char>) -> Value;

/// The JSON object with the given members.
pub uninterp spec fn json_object(members: Map<Seq<char>, Value>) -> Value;

/// What a JSON map holds: the value of each key in it.
pub uninterp spec fn json_entries(map: JsonMap<String, Value>) -> Map<Seq<char>, Value>;

/// The members of an object without members.
pub open spec fn no_members() -> Map<Seq<char>, Value> {
    Map::empty()
}

/// `serde_json::from_str` for a `Value`. What it returns depends on `text`
/// alone.
#[verifier::external_body]
pub(crate) fn json_from_str(text: &str) -> (r: Result<Value, Error>)
    ensures
        r == json_parse(text@),
{
    serde_json::from_str(text)
}

/// The `Display` text of a parser error.
#[verifier::external_body]
pub(crate) fn json_error_message(error: &Error) -> (text: String)
    ensures
        text@ == json_error_text(*error),
{
    format!("{}", error)
}

/// `Value::String`: the JSON string that holds `text`.
#[verifier::external_body]
pub(crate) fn json_string_value(text: String) -> (value: Value)
    ensures
        value == json_string(text@),
{
    Value::String(text)
}

/// `Value::Object`: the JSON object that holds the entries of `map`.
#[verifier::external_body]
pub(crate) fn json_object_value(map: JsonMap<String, Value>) -> (value: Value)
    ensures
        value == json_object(json_entries(map)),
{
    Value::Object(map)
}

/// `Map::new`: a JSON map that holds nothing.
#[verifier::external_body]
pub(crate) fn new_json_map() -> (map: JsonMap<String, Value>)
    ensures
        json_entries(map) == no_members(),
{
    JsonMap::new()
}

/// `Map::insert`: afterwards `key` is bound to `value`, and every other key
/// is left as it was.
#[verifier::external_body]
pub(crate) fn json_map_insert(map: &mut JsonMap<String, Value>, key: String, value: Value)
    ensures
        json_entries(*final(map)) == json_entries(*old(map)).insert(key@, value),
{
    map.insert(key, value);
}

} // verus!
