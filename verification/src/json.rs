//! The dynamically typed values that configuration files hold, as
//! `serde_json` represents them, and what this library relies on of them.

use vstd::prelude::*;

verus! {

/// A number of a document: an integer, or a floating-point number, which
/// stands here as the bits of its IEEE 754 double.
pub enum JsonNumber {
    Integer(int),
    Float(u64),
}

/// The shape and contents of a structured value.
pub enum Json {
    Null,
    Bool(bool),
    Number(JsonNumber),
    String(Seq<char>),
    Array(Seq<Json>),
    Object(Map<Seq<char>, Json>),
}

/// `serde_json::Value`, carried as it is; what one holds is `json_of` of it.
#[verifier::external_type_specification]
#[verifier::external_body]
pub struct ExValue(serde_json::Value);

/// `serde_json::Number`, carried as it is; what one holds is `number_of` of
/// it.
#[verifier::external_type_specification]
#[verifier::external_body]
pub struct ExNumber(serde_json::Number);

/// `serde_json::Map`, carried as it is; what one from strings to values
/// holds is `object_of` of it.
#[verifier::external_type_specification]
#[verifier::external_body]
#[verifier::reject_recursive_types(K)]
#[verifier::reject_recursive_types(V)]
pub struct ExObject<K, V>(serde_json::Map<K, V>);

/// What a `serde_json::Value` holds.
pub uninterp spec fn json_of(value: serde_json::Value) -> Json;

/// What a `serde_json::Number` holds.
pub uninterp spec fn number_of(number: serde_json::Number) -> JsonNumber;

/// What a `serde_json::Map` from strings to values holds.
pub uninterp spec fn object_of(object: serde_json::Map<String, serde_json::Value>) -> Map<
    Seq<char>,
    Json,
>;

/// The text of a value, if it is a string.
pub open spec fn json_str(j: Json) -> Option<Seq<char>> {
    match j {
        Json::String(s) => Some(s),
        _ => None,
    }
}

/// The truth value of a value, if it is a boolean.
pub open spec fn json_bool(j: Json) -> Option<bool> {
    match j {
        Json::Bool(b) => Some(b),
        _ => None,
    }
}

/// A value as a signed 64-bit integer: an integer number within range.
pub open spec fn json_i64(j: Json) -> Option<i64> {
    match j {
        Json::Number(JsonNumber::Integer(n)) if i64::MIN <= n <= i64::MAX => Some(n as i64),
        _ => None,
    }
}

/// A value as an unsigned 64-bit integer: an integer number within range.
pub open spec fn json_u64(j: Json) -> Option<u64> {
    match j {
        Json::Number(JsonNumber::Integer(n)) if 0 <= n <= u64::MAX => Some(n as u64),
        _ => None,
    }
}

/// The number of a value, if it is one.
pub open spec fn json_number(j: Json) -> Option<JsonNumber> {
    match j {
        Json::Number(n) => Some(n),
        _ => None,
    }
}

/// What each value of a list holds.
pub open spec fn json_items(values: Seq<serde_json::Value>) -> Seq<Json> {
    Seq::new(values.len(), |i: int| json_of(values[i]))
}

/// `Value::as_str`: the text where the value is a string, else `None`.
pub assume_specification<'a>[ serde_json::Value::as_str ](value: &'a serde_json::Value) -> (r:
    Option<&'a str>)
    ensures
        match r {
            Some(s) => json_str(json_of(*value)) == Some(s@),
            None => json_str(json_of(*value)) is None,
        },
;

/// `Value::as_bool`: the truth value where the value is a boolean, else `None`.
pub assume_specification[ serde_json::Value::as_bool ](value: &serde_json::Value) -> (r: Option<
    bool,
>)
    ensures
        r == json_bool(json_of(*value)),
;

/// `Value::as_i64`: the integer where the value is an integer number that
/// fits in `i64`, else `None`.
pub assume_specification[ serde_json::Value::as_i64 ](value: &serde_json::Value) -> (r: Option<
    i64,
>)
    ensures
        r == json_i64(json_of(*value)),
;

/// `Value::as_u64`: the integer where the value is an integer number that
/// fits in `u64`, else `None`.
pub assume_specification[ serde_json::Value::as_u64 ](value: &serde_json::Value) -> (r: Option<
    u64,
>)
    ensures
        r == json_u64(json_of(*value)),
;

/// `Value::as_number`: the number where the value is one, else `None`.
pub assume_specification<'a>[ serde_json::Value::as_number ](value: &'a serde_json::Value) -> (r:
    Option<&'a serde_json::Number>)
    ensures
        match r {
            Some(n) => json_number(json_of(*value)) == Some(number_of(*n)),
            None => json_number(json_of(*value)) is None,
        },
;

/// `Value::as_array`: the elements where the value is an array, else `None`.
pub assume_specification<'a>[ serde_json::Value::as_array ](value: &'a serde_json::Value) -> (r:
    Option<&'a Vec<serde_json::Value>>)
    ensures
        match r {
            Some(items) => json_of(*value) == Json::Array(json_items(items@)),
            None => !(json_of(*value) is Array),
        },
;

/// `Value::as_object`: the entries where the value is an object, else `None`.
pub assume_specification<'a>[ serde_json::Value::as_object ](value: &'a serde_json::Value) -> (r:
    Option<&'a serde_json::Map<String, serde_json::Value>>)
    ensures
        match r {
            Some(entries) => json_of(*value) == Json::Object(object_of(*entries)),
            None => !(json_of(*value) is Object),
        },
;

/// `Value::take`: hands out the value and leaves `Null` in its place.
pub assume_specification[ serde_json::Value::take ](value: &mut serde_json::Value) -> (r:
    serde_json::Value)
    ensures
        json_of(r) == json_of(*old(value)),
        json_of(*final(value)) == Json::Null,
;

/// `Value::clone`: a value that holds the same.
pub assume_specification[ <serde_json::Value as Clone>::clone ](value: &serde_json::Value) -> (r:
    serde_json::Value)
    ensures
        json_of(r) == json_of(*value),
;

/// The entries of a list, each key as its characters and each value as what
/// it holds.
pub open spec fn entries_json(entries: Seq<(String, serde_json::Value)>) -> Seq<(Seq<char>, Json)> {
    Seq::new(entries.len(), |i: int| (entries[i].0@, json_of(entries[i].1)))
}

/// What `serde_json::from_slice` makes of a text when asked for a map from
/// strings to values: the entries of the top-level object in the map's order,
/// or the text of the parser's error.
pub uninterp spec fn json_document(bytes: Seq<u8>) -> Result<Seq<(Seq<char>, Json)>, Seq<char>>;

/// What `serde_yaml::from_slice` makes of a text when asked for a map from
/// strings to values: the entries of the top-level mapping in the map's
/// order, or the text of the parser's error.
pub uninterp spec fn yaml_document(bytes: Seq<u8>) -> Result<Seq<(Seq<char>, Json)>, Seq<char>>;

/// Parses a JSON text with `serde_json::from_slice` into a
/// `serde_json::Map` and hands out its entries, or the parser's error as
/// text. The result is `json_document` of the bytes.
#[verifier::external_body]
pub(crate) fn parse_json(bytes: &[u8]) -> (r: Result<Vec<(String, serde_json::Value)>, String>)
    ensures
        match r {
            Ok(entries) => json_document(bytes@) == Ok::<Seq<(Seq<char>, Json)>, Seq<char>>(
                entries_json(entries@),
            ),
            Err(text) => json_document(bytes@) == Err::<Seq<(Seq<char>, Json)>, Seq<char>>(text@),
        },
{
    match serde_json::from_slice::<serde_json::Map<String, serde_json::Value>>(bytes) {
        Ok(object) => Ok(object.into_iter().collect()),
        Err(e) => Err(e.to_string()),
    }
}

/// Parses a YAML text with `serde_yaml::from_slice` into a
/// `serde_json::Map` and hands out its entries, or the parser's error as
/// text. The result is `yaml_document` of the bytes.
#[verifier::external_body]
pub(crate) fn parse_yaml(bytes: &[u8]) -> (r: Result<Vec<(String, serde_json::Value)>, String>)
    ensures
        match r {
            Ok(entries) => yaml_document(bytes@) == Ok::<Seq<(Seq<char>, Json)>, Seq<char>>(
                entries_json(entries@),
            ),
            Err(text) => yaml_document(bytes@) == Err::<Seq<(Seq<char>, Json)>, Seq<char>>(text@),
        },
{
    match serde_yaml::from_slice::<serde_json::Map<String, serde_json::Value>>(bytes) {
        Ok(object) => Ok(object.into_iter().collect()),
        Err(e) => Err(e.to_string()),
    }
}

/// Decodes a copy of a value into a caller's type with
/// `serde_json::from_value`; a failure comes back as the error's text. What
/// comes back is decided by the type's own decoding, so nothing is stated of
/// it.
#[verifier::external_body]
pub(crate) fn decode_value<T: serde::de::DeserializeOwned>(value: &serde_json::Value) -> (r:
    Result<T, String>) {
    serde_json::from_value::<T>(value.clone()).map_err(|e| e.to_string())
}

} // verus!
