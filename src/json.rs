//! What the library takes from serde_json: decoding JSON text, and reading
//! members, elements, strings and arrays of a decoded value.
use vstd::prelude::*;

verus! {

#[verifier::external_type_specification]
#[verifier::external_body]
pub struct ExValue(serde_json::Value);

/// A name for what `serde_json::from_slice::<Vec<Value>>` gives: the elements
/// of the JSON array that the bytes hold, or `None` where they hold none.
pub uninterp spec fn json_array_of(bytes: Seq<u8>) -> Option<Seq<serde_json::Value>>;

/// A name for what `serde_json::from_str::<Value>` gives: the value that the
/// text holds, or `None` where it is no JSON.
pub uninterp spec fn json_value_of(text: Seq<char>) -> Option<serde_json::Value>;

/// A name for `value[key]`: the member under `key`, `Null` where `value` is
/// no object or lacks the key.
pub uninterp spec fn json_member(value: serde_json::Value, key: Seq<char>) -> serde_json::Value;

/// A name for `value[index]`: the element at `index`, `Null` where `value`
/// is no array or too short.
pub uninterp spec fn json_element(value: serde_json::Value, index: nat) -> serde_json::Value;

/// A name for `value.as_str()`: the string that `value` is, if it is one.
pub uninterp spec fn json_str(value: serde_json::Value) -> Option<Seq<char>>;

/// A name for `value.as_array()`: the elements of `value`, if it is an
/// array.
pub uninterp spec fn json_items(value: serde_json::Value) -> Option<Seq<serde_json::Value>>;

/// Relies on `serde_json::from_slice` into `Vec<Value>`: succeeds exactly on
/// a JSON array, whose elements it returns in order; the error's text is
/// passed on.
#[verifier::external_body]
pub(crate) fn parse_json_array(bytes: &[u8]) -> (r: Result<Vec<serde_json::Value>, String>)
    ensures
        r is Ok <==> json_array_of(bytes@) is Some,
        r is Ok ==> r->Ok_0@ == json_array_of(bytes@)->Some_0,
{
    serde_json::from_slice::<Vec<serde_json::Value>>(bytes).map_err(|e| e.to_string())
}

/// Relies on `serde_json::from_str` into `Value`: the value of a JSON text.
#[verifier::external_body]
pub(crate) fn parse_json_value(text: &str) -> (r: Option<serde_json::Value>)
    ensures
        r == json_value_of(text@),
{
    serde_json::from_str::<serde_json::Value>(text).ok()
}

/// Relies on serde_json's `Index<&str>` for `Value`: the member, or `Null`.
#[verifier::external_body]
pub(crate) fn member(value: &serde_json::Value, key: &str) -> (r: serde_json::Value)
    ensures
        r == json_member(*value, key@),
{
    value[key].clone()
}

/// Relies on serde_json's `Index<usize>` for `Value`: the element, or
/// `Null`.
#[verifier::external_body]
pub(crate) fn element(value: &serde_json::Value, index: usize) -> (r: serde_json::Value)
    ensures
        r == json_element(*value, index as nat),
{
    value[index].clone()
}

/// Relies on `Value::as_str`: `Some` only for a string.
#[verifier::external_body]
pub(crate) fn value_str(value: &serde_json::Value) -> (r: Option<String>)
    ensures
        r is Some <==> json_str(*value) is Some,
        r is Some ==> r->Some_0@ == json_str(*value)->Some_0,
{
    value.as_str().map(|s| s.to_string())
}

/// Relies on `Value::as_array`: `Some` only for an array, with its elements
/// in order.
#[verifier::external_body]
pub(crate) fn value_items(value: &serde_json::Value) -> (r: Option<Vec<serde_json::Value>>)
    ensures
        r is Some <==> json_items(*value) is Some,
        r is Some ==> r->Some_0@ == json_items(*value)->Some_0,
{
    value.as_array().cloned()
}

/// The string under `key`, if `value` has one there.
pub open spec fn str_member(value: serde_json::Value, key: Seq<char>) -> Option<Seq<char>> {
    json_str(json_member(value, key))
}

/// The string under `key`, if `value` has one there.
pub fn member_str(value: &serde_json::Value, key: &str) -> (r: Option<String>)
    ensures
        r is Some <==> str_member(*value, key@) is Some,
        r is Some ==> r->Some_0@ == str_member(*value, key@)->Some_0,
{
    let m = member(value, key);
    value_str(&m)
}

} // verus!
