//! Trusted surface over `serde_json`: the opaque JSON value type, the parse
//! entry point, and the field accessors the codec reads through.
//!
//! A parsed worker line is held as an opaque `serde_json::Value`. What each
//! outside call returns is given a name — the parse result of a line, the
//! member under a key, the string, number, boolean or array a value holds —
//! and every wrapper's contract speaks in those names, so the verified
//! readers built on them carry exact contracts. Each name stands for a
//! result that depends on its arguments alone.
use vstd::prelude::*;

verus! {

#[verifier::external_type_specification]
#[verifier::external_body]
pub struct ExValue(serde_json::Value);

#[verifier::external_type_specification]
#[verifier::external_body]
pub struct ExJsonError(serde_json::Error);

/// The JSON document a line parses to, if the line is one valid document.
pub uninterp spec fn parsed_doc(line: Seq<char>) -> Option<serde_json::Value>;

/// The member a JSON value holds under a key, when the value is an object
/// that has it.
pub uninterp spec fn field_of(v: serde_json::Value, key: Seq<char>) -> Option<serde_json::Value>;

/// The text a JSON value holds, when it is a string.
pub uninterp spec fn str_value_of(v: serde_json::Value) -> Option<Seq<char>>;

/// The number a JSON value holds, when it is an unsigned integer.
pub uninterp spec fn u64_value_of(v: serde_json::Value) -> Option<u64>;

/// The flag a JSON value holds, when it is a boolean.
pub uninterp spec fn bool_value_of(v: serde_json::Value) -> Option<bool>;

/// The elements a JSON value holds, when it is an array.
pub uninterp spec fn array_value_of(v: serde_json::Value) -> Option<Seq<serde_json::Value>>;

/// The text under `key` of the object `v`: its member, when that member is
/// a string.
pub open spec fn str_field_of(v: serde_json::Value, key: Seq<char>) -> Option<Seq<char>> {
    match field_of(v, key) {
        Some(f) => str_value_of(f),
        None => None,
    }
}

/// The number under `key` of the object `v`, when that member is an
/// unsigned integer.
pub open spec fn u64_field_of(v: serde_json::Value, key: Seq<char>) -> Option<u64> {
    match field_of(v, key) {
        Some(f) => u64_value_of(f),
        None => None,
    }
}

/// The flag under `key` of the object `v`, when that member is a boolean.
pub open spec fn bool_field_of(v: serde_json::Value, key: Seq<char>) -> Option<bool> {
    match field_of(v, key) {
        Some(f) => bool_value_of(f),
        None => None,
    }
}

/// The elements under `key` of the object `v`, when that member is an
/// array.
pub open spec fn array_field_of(v: serde_json::Value, key: Seq<char>) -> Option<
    Seq<serde_json::Value>,
> {
    match field_of(v, key) {
        Some(f) => array_value_of(f),
        None => None,
    }
}

/// A JSON value with nothing to read: no members, and neither a string,
/// a number, a boolean nor an array. The null value is one.
pub open spec fn empty_bag(v: serde_json::Value) -> bool {
    &&& forall|k: Seq<char>| #[trigger] field_of(v, k) is None
    &&& str_value_of(v) is None
    &&& u64_value_of(v) is None
    &&& bool_value_of(v) is None
    &&& array_value_of(v) is None
}

/// Relies on serde_json::from_str::<Value>: parses one JSON document from
/// the text, or reports a syntax error; the outcome depends on the text
/// alone.
#[verifier::external_body]
pub(crate) fn parse_value(line: &str) -> (r: Result<serde_json::Value, serde_json::Error>)
    ensures
        match r {
            Ok(doc) => parsed_doc(line@) == Some(doc),
            Err(_) => parsed_doc(line@) is None,
        },
{
    serde_json::from_str::<serde_json::Value>(line)
}

/// Relies on serde_json::Value::get: the member under `key` when `v` is an
/// object that has it, and nothing otherwise.
#[verifier::external_body]
pub(crate) fn value_get<'a>(v: &'a serde_json::Value, key: &str) -> (r: Option<
    &'a serde_json::Value,
>)
    ensures
        match r {
            Some(f) => field_of(*v, key@) == Some(*f),
            None => field_of(*v, key@) is None,
        },
{
    v.get(key)
}

/// Relies on serde_json::Value::as_str: the owned text when `v` is a JSON
/// string, and nothing otherwise.
#[verifier::external_body]
pub(crate) fn value_as_string(v: &serde_json::Value) -> (r: Option<String>)
    ensures
        match r {
            Some(s) => str_value_of(*v) == Some(s@),
            None => str_value_of(*v) is None,
        },
{
    v.as_str().map(|s| s.to_string())
}

/// Relies on serde_json::Value::as_u64: the number when `v` is an unsigned
/// JSON integer, and nothing otherwise.
#[verifier::external_body]
pub(crate) fn value_as_u64(v: &serde_json::Value) -> (r: Option<u64>)
    ensures
        r == u64_value_of(*v),
{
    v.as_u64()
}

/// Relies on serde_json::Value::as_bool: the flag when `v` is a JSON
/// boolean, and nothing otherwise.
#[verifier::external_body]
pub(crate) fn value_as_bool(v: &serde_json::Value) -> (r: Option<bool>)
    ensures
        r == bool_value_of(*v),
{
    v.as_bool()
}

/// Relies on serde_json::Value::as_array: the elements when `v` is a JSON
/// array, and nothing otherwise.
#[verifier::external_body]
pub(crate) fn value_as_array(v: &serde_json::Value) -> (r: Option<&Vec<serde_json::Value>>)
    ensures
        match r {
            Some(a) => array_value_of(*v) == Some(a@),
            None => array_value_of(*v) is None,
        },
{
    v.as_array()
}

/// Relies on serde_json::Value's derived Clone, which rebuilds the value
/// member for member: the copy holds the same JSON content.
#[verifier::external_body]
pub(crate) fn value_clone(v: &serde_json::Value) -> (r: serde_json::Value)
    ensures
        r == *v,
{
    v.clone()
}

/// Relies on serde_json::Value::Null being a plain unit constructor: the
/// null value is an object with no members and holds no string, number,
/// boolean or array.
#[verifier::external_body]
pub(crate) fn value_null() -> (r: serde_json::Value)
    ensures
        empty_bag(r),
{
    serde_json::Value::Null
}

/// Relies on serde_json::Error's Display impl for a human-readable message.
#[verifier::external_body]
pub(crate) fn json_error_message(e: &serde_json::Error) -> String {
    e.to_string()
}

} // verus!
