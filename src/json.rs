//! The JSON documents that the device sends, read with `serde_json`.
//!
//! A `serde_json::Value` is opaque here: what the protocol reads from one is
//! named by the spec functions below, one per `serde_json` function relied on.
use vstd::prelude::*;

verus! {

#[verifier::external_type_specification]
#[verifier::external_body]
pub struct ExJsonValue(serde_json::Value);

#[verifier::external_type_specification]
#[verifier::external_body]
pub struct ExJsonError(serde_json::Error);

/// The document that `serde_json::from_str` reads from a text; `None` where it
/// reports an error.
pub uninterp spec fn json_document(s: Seq<char>) -> Option<serde_json::Value>;

/// The member that an object holds under a key; `None` for a missing key and
/// for a value that is no object.
pub uninterp spec fn json_member(v: serde_json::Value, key: Seq<char>) -> Option<serde_json::Value>;

/// The characters of a JSON string; `None` for any other value.
pub uninterp spec fn json_string(v: serde_json::Value) -> Option<Seq<char>>;

/// A JSON number that is a non-negative integer in the range of `u64`;
/// `None` for any other value.
pub uninterp spec fn json_u64(v: serde_json::Value) -> Option<u64>;

/// The value of a JSON boolean; `None` for any other value.
pub uninterp spec fn json_bool(v: serde_json::Value) -> Option<bool>;

/// The elements of a JSON array; `None` for any other value.
pub uninterp spec fn json_elements(v: serde_json::Value) -> Option<Seq<serde_json::Value>>;

/// Relies on `serde_json::from_str`: reads one JSON document from a text.
#[verifier::external_body]
pub(crate) fn parse_json(s: &str) -> (r: Result<serde_json::Value, serde_json::Error>)
    ensures
        r is Ok <==> json_document(s@) is Some,
        r matches Ok(v) ==> json_document(s@) == Some(v),
{
    serde_json::from_str(s)
}

/// Relies on `serde_json::Value::get` with a string key: the member of an
/// object under that key.
#[verifier::external_body]
pub(crate) fn json_get<'a>(v: &'a serde_json::Value, key: &str) -> (r: Option<&'a serde_json::Value>)
    ensures
        r is Some <==> json_member(*v, key@) is Some,
        r matches Some(m) ==> json_member(*v, key@) == Some(*m),
{
    v.get(key)
}

/// Relies on `serde_json::Value::as_str`: the text of a JSON string.
pub assume_specification<'a>[ serde_json::Value::as_str ](v: &'a serde_json::Value) -> (r: Option<&'a str>)
    ensures
        r is Some <==> json_string(*v) is Some,
        r matches Some(t) ==> json_string(*v) == Some(t@),
;

/// Relies on `serde_json::Value::as_u64`: a number that fits in `u64`.
pub assume_specification[ serde_json::Value::as_u64 ](v: &serde_json::Value) -> (r: Option<u64>)
    ensures
        r == json_u64(*v),
;

/// Relies on `serde_json::Value::as_bool`: the value of a boolean.
pub assume_specification[ serde_json::Value::as_bool ](v: &serde_json::Value) -> (r: Option<bool>)
    ensures
        r == json_bool(*v),
;

/// Relies on `serde_json::Value::as_array`: the elements of an array.
pub assume_specification<'a>[ serde_json::Value::as_array ](v: &'a serde_json::Value) -> (r: Option<&'a Vec<serde_json::Value>>)
    ensures
        r is Some <==> json_elements(*v) is Some,
        r matches Some(a) ==> json_elements(*v) == Some(a@),
;

/// Relies on the derived `Clone` of `serde_json::Value`: a deep copy.
pub assume_specification[ <serde_json::Value as Clone>::clone ](v: &serde_json::Value) -> (r: serde_json::Value)
    ensures
        r == *v,
;

} // verus!
