//! JSON documents, as the `serde_json` crate reads them, and identifiers, as
//! the `uuid` crate reads them.
//!
//! Nothing in this module is proved. A document that was read is a value of
//! `serde_json::Value`, which is opaque here: `json_of` names what it holds,
//! and each function of this module states, over that name, what the method
//! of `serde_json::Value` that it calls hands out.

use serde_json::Value;
use vstd::prelude::*;

verus! {

/// What a JSON document holds.
pub ghost enum Json {
    Null,
    Bool(bool),
    /// A number: its value where it is a whole number between the least
    /// `i64` and the greatest `u64`, and `None` for every other number.
    Number(Option<int>),
    Text(Seq<char>),
    Array(Seq<Json>),
    Object(Map<Seq<char>, Json>),
}

/// `serde_json::Value`, a JSON document in memory.
#[verifier::external_type_specification]
#[verifier::external_body]
pub struct ExValue(Value);

/// `serde_json::Error`, the reason a text was not read as a JSON document.
#[verifier::external_type_specification]
#[verifier::external_body]
pub struct ExJsonError(serde_json::Error);

/// What a value of `serde_json::Value` holds.
pub uninterp spec fn json_of(value: Value) -> Json;

/// The document that `serde_json::from_slice` reads from these bytes, or
/// `None` where it refuses them.
pub uninterp spec fn json_document(body: Seq<u8>) -> Option<Json>;

/// The identifier that `uuid::Uuid::parse_str` reads from this text, as a
/// number of 128 bits, or `None` where it refuses the text.
pub uninterp spec fn uuid_value(text: Seq<char>) -> Option<u128>;

/// The field of an object under a key; `None` for what is no object and for
/// an object without the key.
pub open spec fn field_of(json: Json, key: Seq<char>) -> Option<Json> {
    match json {
        Json::Object(fields) => if fields.contains_key(key) {
            Some(fields[key])
        } else {
            None
        },
        _ => None,
    }
}

/// The elements of an array; `None` for what is no array.
pub open spec fn items_of(json: Json) -> Option<Seq<Json>> {
    match json {
        Json::Array(items) => Some(items),
        _ => None,
    }
}

/// The characters of a string; `None` for what is no string.
pub open spec fn text_of(json: Json) -> Option<Seq<char>> {
    match json {
        Json::Text(text) => Some(text),
        _ => None,
    }
}

/// The truth value of a boolean; `None` for what is none.
pub open spec fn flag_of(json: Json) -> Option<bool> {
    match json {
        Json::Bool(flag) => Some(flag),
        _ => None,
    }
}

/// The value of a whole number; `None` for every other number and for what
/// is no number.
pub open spec fn integer_of(json: Json) -> Option<int> {
    match json {
        Json::Number(Some(value)) => Some(value),
        _ => None,
    }
}

/// What each value of a list holds.
pub open spec fn jsons_of(values: Seq<Value>) -> Seq<Json> {
    values.map_values(|value: Value| json_of(value))
}

/// Calls `serde_json::from_slice` for a `Value`: the bytes are read as one
/// JSON document. What comes back is what `json_document` names for these
/// bytes.
#[verifier::external_body]
pub(crate) fn parse_document(body: &[u8]) -> (parsed: Result<Value, serde_json::Error>)
    ensures
        match parsed {
            Ok(value) => json_document(body@) == Some(json_of(value)),
            Err(_) => json_document(body@) is None,
        },
{
    serde_json::from_slice(body)
}

/// Calls `Value::get` with a string: the field of an object under that key,
/// and `None` for what is no object or has no such key.
#[verifier::external_body]
pub(crate) fn get_field<'a>(value: &'a Value, key: &str) -> (field: Option<&'a Value>)
    ensures
        match field {
            Some(found) => field_of(json_of(*value), key@) == Some(json_of(*found)),
            None => field_of(json_of(*value), key@) is None,
        },
{
    value.get(key)
}

/// Calls `Value::as_array`: the elements of an array, and `None` for what is
/// no array.
#[verifier::external_body]
pub(crate) fn get_items(value: &Value) -> (items: Option<&Vec<Value>>)
    ensures
        match items {
            Some(list) => items_of(json_of(*value)) == Some(jsons_of(list@)),
            None => items_of(json_of(*value)) is None,
        },
{
    value.as_array()
}

/// Calls `Value::as_str`: the text of a string, and `None` for what is no
/// string.
#[verifier::external_body]
pub(crate) fn get_text(value: &Value) -> (text: Option<&str>)
    ensures
        match text {
            Some(chars) => text_of(json_of(*value)) == Some(chars@),
            None => text_of(json_of(*value)) is None,
        },
{
    value.as_str()
}

/// Calls `Value::as_bool`: the truth value of a boolean, and `None` for what
/// is none.
#[verifier::external_body]
pub(crate) fn get_flag(value: &Value) -> (flag: Option<bool>)
    ensures
        flag == flag_of(json_of(*value)),
{
    value.as_bool()
}

/// Calls `Value::as_u64`: the value of a whole number that is not negative,
/// and `None` for every other number and for what is no number.
#[verifier::external_body]
pub(crate) fn get_u64(value: &Value) -> (number: Option<u64>)
    ensures
        match number {
            Some(n) => integer_of(json_of(*value)) == Some(n as int),
            None => !(integer_of(json_of(*value)) is Some && 0 <= integer_of(json_of(*value))->0
                <= u64::MAX),
        },
{
    value.as_u64()
}

/// Calls `Value::as_i64`: the value of a whole number that fits in an `i64`,
/// and `None` for every other number and for what is no number.
#[verifier::external_body]
pub(crate) fn get_i64(value: &Value) -> (number: Option<i64>)
    ensures
        match number {
            Some(n) => integer_of(json_of(*value)) == Some(n as int),
            None => !(integer_of(json_of(*value)) is Some && i64::MIN <= integer_of(
                json_of(*value),
            )->0 <= i64::MAX),
        },
{
    value.as_i64()
}

/// Calls `uuid::Uuid::parse_str`, and `Uuid::as_u128` on what it accepts:
/// the identifier that the text stands for, as a number of 128 bits. What
/// comes back is what `uuid_value` names for this text.
#[verifier::external_body]
pub(crate) fn parse_uuid(text: &str) -> (id: Option<u128>)
    ensures
        id == uuid_value(text@),
{
    uuid::Uuid::parse_str(text).ok().map(|id| id.as_u128())
}

} // verus!
