//! A model of `serde_json::Value` and the accessors the engine reads it with.

use vstd::prelude::*;

verus! {

/// What a JSON value holds, as the engine reads it.  Integers are kept
/// exactly; the value of a floating-point number is not modelled.
pub enum JsonData {
    Null,
    Bool(bool),
    Int(int),
    Float,
    Str(Seq<char>),
    Array(Seq<JsonData>),
    Object(Map<Seq<char>, JsonData>),
}

#[verifier::external_type_specification]
#[verifier::external_body]
pub struct ExValue(serde_json::Value);

/// The contents of a `serde_json::Value`, as a `JsonData`.
pub uninterp spec fn json_data(v: serde_json::Value) -> JsonData;

/// What `serde_json::from_str::<Value>` makes of a text: `None` where the text
/// is not one JSON document.
pub uninterp spec fn json_text_parse(text: Seq<char>) -> Option<JsonData>;

/// The member `key` of an object; `None` for a missing key or a non-object.
pub open spec fn field(d: JsonData, key: Seq<char>) -> Option<JsonData> {
    match d {
        JsonData::Object(m) => if m.contains_key(key) {
            Some(m[key])
        } else {
            None
        },
        _ => None,
    }
}

/// The member `first`, or where there is none the member `second`.
pub open spec fn field_or(d: JsonData, first: Seq<char>, second: Seq<char>) -> Option<JsonData> {
    match field(d, first) {
        Some(x) => Some(x),
        None => field(d, second),
    }
}

/// The text of a string value.
pub open spec fn str_of(d: Option<JsonData>) -> Option<Seq<char>> {
    match d {
        Some(JsonData::Str(s)) => Some(s),
        _ => None,
    }
}

/// The text of a string value, and the empty text for anything else.
pub open spec fn str_or_empty(d: Option<JsonData>) -> Seq<char> {
    match str_of(d) {
        Some(s) => s,
        None => Seq::empty(),
    }
}

/// A boolean value, and `false` for anything else.
pub open spec fn bool_or_false(d: Option<JsonData>) -> bool {
    match d {
        Some(JsonData::Bool(b)) => b,
        _ => false,
    }
}

/// An integer that fits `u64`.
pub open spec fn u64_of(d: Option<JsonData>) -> Option<u64> {
    match d {
        Some(JsonData::Int(i)) => if 0 <= i <= u64::MAX {
            Some(i as u64)
        } else {
            None
        },
        _ => None,
    }
}

/// An integer that fits `i64`.
pub open spec fn i64_of(d: Option<JsonData>) -> Option<i64> {
    match d {
        Some(JsonData::Int(i)) => if i64::MIN <= i <= i64::MAX {
            Some(i as i64)
        } else {
            None
        },
        _ => None,
    }
}

/// The elements of an array value.
pub open spec fn array_of(d: Option<JsonData>) -> Option<Seq<JsonData>> {
    match d {
        Some(JsonData::Array(a)) => Some(a),
        _ => None,
    }
}

/// The contents of each value of a vector.
pub open spec fn data_of_all(vs: Seq<serde_json::Value>) -> Seq<JsonData> {
    vs.map_values(|x: serde_json::Value| json_data(x))
}

/// `serde_json::Value::get` with a string key: returns the member `key` of an
/// object, and `None` for a missing key or for any value that is not an object.
#[verifier::external_body]
pub(crate) fn json_get<'a>(v: &'a serde_json::Value, key: &str) -> (r: Option<&'a serde_json::Value>)
    ensures
        match r {
            Some(x) => field(json_data(*v), key@) == Some(json_data(*x)),
            None => field(json_data(*v), key@) is None,
        },
{
    v.get(key)
}

/// `serde_json::Value::as_str`: the text of a string value, `None` for any
/// other value.
#[verifier::external_body]
pub(crate) fn json_as_str<'a>(v: &'a serde_json::Value) -> (r: Option<&'a str>)
    ensures
        match r {
            Some(s) => json_data(*v) == JsonData::Str(s@),
            None => !(json_data(*v) is Str),
        },
{
    v.as_str()
}

/// `serde_json::Value::as_bool`: the value of a boolean, `None` for any other
/// value.
#[verifier::external_body]
pub(crate) fn json_as_bool(v: &serde_json::Value) -> (r: Option<bool>)
    ensures
        match r {
            Some(b) => json_data(*v) == JsonData::Bool(b),
            None => !(json_data(*v) is Bool),
        },
{
    v.as_bool()
}

/// `serde_json::Value::as_u64`: an integer in the range of `u64`, `None` for
/// a negative integer, a floating-point number or a non-number.
#[verifier::external_body]
pub(crate) fn json_as_u64(v: &serde_json::Value) -> (r: Option<u64>)
    ensures
        r == u64_of(Some(json_data(*v))),
{
    v.as_u64()
}

/// `serde_json::Value::as_i64`: an integer in the range of `i64`, `None` for
/// a larger integer, a floating-point number or a non-number.
#[verifier::external_body]
pub(crate) fn json_as_i64(v: &serde_json::Value) -> (r: Option<i64>)
    ensures
        r == i64_of(Some(json_data(*v))),
{
    v.as_i64()
}

/// `serde_json::Value::as_array`: the elements of an array, `None` for any
/// other value.
#[verifier::external_body]
pub(crate) fn json_as_array<'a>(v: &'a serde_json::Value) -> (r: Option<&'a Vec<serde_json::Value>>)
    ensures
        match r {
            Some(a) => json_data(*v) == JsonData::Array(data_of_all(a@)),
            None => !(json_data(*v) is Array),
        },
{
    v.as_array()
}

/// `serde_json::from_str::<serde_json::Value>`: parses one JSON document;
/// the error is dropped.
#[verifier::external_body]
pub(crate) fn parse_json(text: &str) -> (r: Option<serde_json::Value>)
    ensures
        match r {
            Some(v) => json_text_parse(text@) == Some(json_data(v)),
            None => json_text_parse(text@) is None,
        },
{
    serde_json::from_str::<serde_json::Value>(text).ok()
}

/// Reads a string member: `get(key)` then `as_str()`.
pub fn get_str<'a>(v: &'a serde_json::Value, key: &str) -> (r: Option<&'a str>)
    ensures
        match r {
            Some(s) => str_of(field(json_data(*v), key@)) == Some(s@),
            None => str_of(field(json_data(*v), key@)) is None,
        },
{
    match json_get(v, key) {
        Some(x) => json_as_str(x),
        None => None,
    }
}

/// Reads a boolean member, `false` where it is missing or not a boolean.
pub fn get_bool_or_false(v: &serde_json::Value, key: &str) -> (r: bool)
    ensures
        r == bool_or_false(field(json_data(*v), key@)),
{
    match json_get(v, key) {
        Some(x) => match json_as_bool(x) {
            Some(b) => b,
            None => false,
        },
        None => false,
    }
}

/// Reads a member as `u64`.
pub fn get_u64(v: &serde_json::Value, key: &str) -> (r: Option<u64>)
    ensures
        r == u64_of(field(json_data(*v), key@)),
{
    match json_get(v, key) {
        Some(x) => json_as_u64(x),
        None => None,
    }
}

/// Reads a member as `i64`.
pub fn get_i64(v: &serde_json::Value, key: &str) -> (r: Option<i64>)
    ensures
        r == i64_of(field(json_data(*v), key@)),
{
    match json_get(v, key) {
        Some(x) => json_as_i64(x),
        None => None,
    }
}

/// Reads an array member.
pub fn get_array<'a>(v: &'a serde_json::Value, key: &str) -> (r: Option<&'a Vec<serde_json::Value>>)
    ensures
        match r {
            Some(a) => array_of(field(json_data(*v), key@)) == Some(data_of_all(a@)),
            None => array_of(field(json_data(*v), key@)) is None,
        },
{
    match json_get(v, key) {
        Some(x) => json_as_array(x),
        None => None,
    }
}

/// Reads the member `first`, or where it is missing the member `second`, as a
/// string: `get(first).or_else(|| get(second)).and_then(as_str)`.
pub fn get_str_either<'a>(v: &'a serde_json::Value, first: &str, second: &str) -> (r: Option<&'a str>)
    ensures
        match r {
            Some(s) => str_of(field_or(json_data(*v), first@, second@)) == Some(s@),
            None => str_of(field_or(json_data(*v), first@, second@)) is None,
        },
{
    let m = match json_get(v, first) {
        Some(x) => Some(x),
        None => json_get(v, second),
    };
    match m {
        Some(x) => json_as_str(x),
        None => None,
    }
}

} // verus!
