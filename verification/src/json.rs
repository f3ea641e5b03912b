//! Trusted boundary to serde_json.
//!
//! The catalogs hold arbitrary structured attribute values as opaque
//! `serde_json::Value`s. Each accessor of the crate is a pure function of
//! the value it is given (a pattern match on the `Value` enum, and for
//! objects an ordered walk of the underlying map, which is a `BTreeMap`
//! unless the `preserve_order` feature is on), so its result is given a
//! name here and every wrapper's contract is stated over those names.

use vstd::prelude::*;
use serde_json::Value;

verus! {

#[verifier::external_type_specification]
#[verifier::external_body]
pub struct ExValue(Value);

/// The JSON document that `text` denotes, if `text` is well-formed JSON.
pub uninterp spec fn json_of(text: Seq<char>) -> Option<Value>;

/// The elements of a JSON array value in array order, if it is an array.
pub uninterp spec fn elements_of(v: Value) -> Option<Seq<Value>>;

/// The key/value entries of a JSON object value in ascending key order,
/// if it is an object.
pub uninterp spec fn entries_of(v: Value) -> Option<Seq<(Seq<char>, Value)>>;

/// The integer a JSON number value stands for, if it is an integer that
/// fits in an `i64`.
pub uninterp spec fn int_of(v: Value) -> Option<i64>;

/// The characters of a JSON string value, if it is a string.
pub uninterp spec fn str_of(v: Value) -> Option<Seq<char>>;

/// Relies on serde_json::from_str::<Value>: the parse succeeds exactly on
/// well-formed JSON text and its result is a function of the text alone.
#[verifier::external_body]
pub(crate) fn parse_json(text: &str) -> (r: Option<Value>)
    ensures
        r == json_of(text@),
{
    serde_json::from_str(text).ok()
}

/// Relies on Value::as_array: `Some` exactly for an array, whose elements
/// it returns in order.
#[verifier::external_body]
pub(crate) fn value_elements(v: &Value) -> (r: Option<Vec<Value>>)
    ensures
        match r {
            Some(elems) => elements_of(*v) == Some(elems@),
            None => elements_of(*v) is None,
        },
{
    v.as_array().cloned()
}

/// Relies on Value::as_object and Map::iter: `Some` exactly for an object,
/// whose entries the map iterator yields in ascending key order.
#[verifier::external_body]
pub(crate) fn value_entries(v: &Value) -> (r: Option<Vec<(String, Value)>>)
    ensures
        match r {
            Some(es) => entries_of(*v) == Some(es@.map_values(|p: (String, Value)| (p.0@, p.1))),
            None => entries_of(*v) is None,
        },
{
    v.as_object().map(|m| m.iter().map(|(k, x)| (k.clone(), x.clone())).collect())
}

/// Relies on Value::as_i64: `Some` exactly for an integer number in the
/// range of `i64`, whose value it returns.
#[verifier::external_body]
pub(crate) fn value_int(v: &Value) -> (r: Option<i64>)
    ensures
        r == int_of(*v),
{
    v.as_i64()
}

/// Relies on Value::as_str: `Some` exactly for a string, whose characters
/// it returns.
#[verifier::external_body]
pub(crate) fn value_str(v: &Value) -> (r: Option<String>)
    ensures
        match r {
            Some(s) => str_of(*v) == Some(s@),
            None => str_of(*v) is None,
        },
{
    match v.as_str() {
        Some(s) => Some(s.to_owned()),
        None => None,
    }
}

/// Relies on Value::clone: the clone equals the original value.
#[verifier::external_body]
pub(crate) fn clone_value(v: &Value) -> (r: Value)
    ensures
        r == *v,
{
    v.clone()
}

} // verus!
