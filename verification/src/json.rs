//! JSON objects, as the configuration carries them for a backend.
use vstd::prelude::*;

verus! {

/// A JSON value.
#[verifier::external_type_specification]
#[verifier::external_body]
pub struct ExValue(serde_json::Value);

/// The members of a JSON object that are strings; none where the value is no object.
pub uninterp spec fn json_strings(value: serde_json::Value) -> Map<Seq<char>, Seq<char>>;

/// The members of a JSON object that are integers in the range of `u64`; none where the value is
/// no object.
pub uninterp spec fn json_numbers(value: serde_json::Value) -> Map<Seq<char>, u64>;

/// Calls `serde_json::Value::as_object`, `serde_json::Map::get` and `serde_json::Value::as_str`:
/// the member under `key` where the value is an object and that member a string.
#[verifier::external_body]
pub(crate) fn string_member(value: &serde_json::Value, key: &str) -> (r: Option<String>)
    ensures
        r is Some <==> json_strings(*value).contains_key(key@),
        r matches Some(text) ==> text@ == json_strings(*value)[key@],
{
    value.as_object().and_then(|it| it.get(key)).and_then(|it| it.as_str()).map(|it| it.to_owned())
}

/// Calls `serde_json::Value::as_object`, `serde_json::Map::get` and `serde_json::Value::as_u64`:
/// the member under `key` where the value is an object and that member an integer of `u64`.
#[verifier::external_body]
pub(crate) fn number_member(value: &serde_json::Value, key: &str) -> (r: Option<u64>)
    ensures
        r is Some <==> json_numbers(*value).contains_key(key@),
        r matches Some(n) ==> n == json_numbers(*value)[key@],
{
    value.as_object().and_then(|it| it.get(key)).and_then(|it| it.as_u64())
}

}
