//! The boundary to the `serde_json` crate, which reads the devices' replies.
//!
//! A `serde_json::Value` is opaque to the verifier. This module says what one
//! holds, as the mathematical value `Json`, and what the few functions of
//! `serde_json` that the reader calls return, as their source shows it.
//! Nothing in this module is proved.

use vstd::prelude::*;

verus! {

/// A JSON value as a mathematical value. Of a number it is kept whether
/// `serde_json` holds it as an integer, and which; of any other number only
/// that it is one.
pub enum Json {
    Null,
    Bool(bool),
    Integer(int),
    Fraction,
    Text(Seq<char>),
    Array(Seq<Json>),
    Object(Map<Seq<char>, Json>),
}

impl Json {
    /// The member `key` of an object; `Null` where the value is no object or
    /// the object has no such member.
    pub open spec fn member(self, key: Seq<char>) -> Json {
        match self {
            Json::Object(members) => if members.dom().contains(key) {
                members[key]
            } else {
                Json::Null
            },
            _ => Json::Null,
        }
    }

    /// The value as an `i64`, where it is an integer that fits.
    pub open spec fn as_i64(self) -> Option<i64> {
        match self {
            Json::Integer(i) => if i64::MIN <= i <= i64::MAX {
                Some(i as i64)
            } else {
                None
            },
            _ => None,
        }
    }

    /// The value as a string, where it is one.
    pub open spec fn as_text(self) -> Option<Seq<char>> {
        match self {
            Json::Text(text) => Some(text),
            _ => None,
        }
    }

    /// The elements of the value, where it is an array.
    pub open spec fn as_items(self) -> Option<Seq<Json>> {
        match self {
            Json::Array(items) => Some(items),
            _ => None,
        }
    }
}

/// `serde_json::Value`, a JSON value in memory.
#[verifier::external_type_specification]
#[verifier::external_body]
pub struct ExValue(serde_json::Value);

/// `serde_json::Error`.
#[verifier::external_type_specification]
#[verifier::external_body]
pub struct ExError(serde_json::Error);

/// What a `serde_json::Value` holds.
pub uninterp spec fn json_view(value: serde_json::Value) -> Json;

/// What `serde_json::from_slice` reads from `data` as a `serde_json::Value`;
/// `None` where it reports an error.
pub uninterp spec fn json_parse(data: Seq<u8>) -> Option<Json>;

/// The values of a vector as mathematical values.
pub open spec fn json_views(values: Seq<serde_json::Value>) -> Seq<Json> {
    values.map_values(|value: serde_json::Value| json_view(value))
}

/// `serde_json::from_slice` at the type `serde_json::Value`. Whether it
/// succeeds, and with what, depends on the bytes alone.
#[verifier::external_body]
pub(crate) fn parse(data: &[u8]) -> (res: Result<serde_json::Value, serde_json::Error>)
    ensures
        match res {
            Ok(value) => json_parse(data@) == Some(json_view(value)),
            Err(_) => json_parse(data@) is None,
        },
{
    serde_json::from_slice(data)
}

/// Indexing a `serde_json::Value` by a string, `value[key]`: the member of
/// that name, or a null value where `value` is no object or has no such
/// member. It does not panic.
#[verifier::external_body]
pub(crate) fn member<'a>(value: &'a serde_json::Value, key: &str) -> (res: &'a serde_json::Value)
    ensures
        json_view(*res) == json_view(*value).member(key@),
{
    &value[key]
}

/// `serde_json::Value::as_i64`: the number, where the value is an integer
/// between `i64::MIN` and `i64::MAX`.
#[verifier::external_body]
pub(crate) fn as_i64(value: &serde_json::Value) -> (res: Option<i64>)
    ensures
        res == json_view(*value).as_i64(),
{
    value.as_i64()
}

/// `serde_json::Value::as_str`: the string, where the value is one.
#[verifier::external_body]
pub(crate) fn as_str<'a>(value: &'a serde_json::Value) -> (res: Option<&'a str>)
    ensures
        match res {
            Some(text) => json_view(*value).as_text() == Some(text@),
            None => json_view(*value).as_text() is None,
        },
{
    value.as_str()
}

/// `serde_json::Value::as_array`: the elements, where the value is an array.
#[verifier::external_body]
pub(crate) fn as_array<'a>(value: &'a serde_json::Value) -> (res: Option<&'a Vec<serde_json::Value>>)
    ensures
        match res {
            Some(items) => json_view(*value).as_items() == Some(json_views(items@)),
            None => json_view(*value).as_items() is None,
        },
{
    value.as_array()
}

} // verus!
