//! JSON documents as `serde_json` reads them, and what this library
//! takes on trust about that crate.

use vstd::prelude::*;

verus! {

#[verifier::external_type_specification]
#[verifier::external_body]
pub struct ExValue(serde_json::Value);

#[verifier::external_type_specification]
#[verifier::external_body]
pub struct ExError(serde_json::Error);

/// A JSON document.
pub enum Json {
    Null,
    Bool(bool),
    /// A number written as an integer.
    Int(int),
    /// Any other number.
    Fraction,
    Str(Seq<char>),
    Array(Seq<Json>),
    Object(Map<Seq<char>, Json>),
}

/// The document that a `serde_json::Value` holds.
pub uninterp spec fn json_of(v: serde_json::Value) -> Json;

/// The document that `serde_json` reads from a text, if it reads one.
pub uninterp spec fn json_text(text: Seq<char>) -> Option<Json>;

/// The JSON string literal that `serde_json` writes for a string.
pub uninterp spec fn json_quoted(s: Seq<char>) -> Seq<char>;

/// The documents that a sequence of values holds.
pub open spec fn jsons_of(vs: Seq<serde_json::Value>) -> Seq<Json> {
    Seq::new(vs.len(), |i: int| json_of(vs[i]))
}

/// `serde_json::from_str` at type `Value`. Trusted: the value it returns
/// holds the document that the text spells, and it fails exactly on the
/// texts that spell none; which document that is stays unstated.
#[verifier::external_body]
pub(crate) fn parse_value(text: &str) -> (r: Result<serde_json::Value, serde_json::Error>)
    ensures
        match r {
            Ok(v) => json_text(text@) == Some(json_of(v)),
            Err(_) => json_text(text@) is None,
        },
{
    serde_json::from_str::<serde_json::Value>(text)
}

/// `serde_json::to_string` on a string slice. Trusted: it succeeds, since
/// writing a string into memory has no step that can fail, and gives the
/// string's JSON literal; how the literal reads stays unstated.
#[verifier::external_body]
pub(crate) fn quote(s: &str) -> (r: Result<String, serde_json::Error>)
    ensures
        match r {
            Ok(t) => t@ == json_quoted(s@),
            Err(_) => false,
        },
{
    serde_json::to_string(s)
}

/// `Value::get` with a string key. Trusted: on an object that has the
/// key it gives the member's value, and nothing otherwise.
#[verifier::external_body]
pub(crate) fn member<'a>(v: &'a serde_json::Value, key: &str) -> (r: Option<&'a serde_json::Value>)
    ensures
        match r {
            Some(m) => json_of(*v) matches Json::Object(o) && o.contains_key(key@) && o[key@]
                == json_of(*m),
            None => !(json_of(*v) matches Json::Object(o) && o.contains_key(key@)),
        },
{
    v.get(key)
}

/// `Value::as_object` followed by `Map::keys`. Trusted: on an object it
/// gives the keys of its members, each of them and no others, and
/// nothing on any other document.
#[verifier::external_body]
pub(crate) fn keys(v: &serde_json::Value) -> (r: Option<Vec<String>>)
    ensures
        match r {
            Some(ks) => json_of(*v) matches Json::Object(o) && forall|k: Seq<char>|
                o.contains_key(k) <==> exists|i: int|
                    0 <= i < ks@.len() && (#[trigger] ks@[i])@ == k,
            None => !(json_of(*v) is Object),
        },
{
    v.as_object().map(|m| m.keys().cloned().collect())
}

/// `Value::as_str`. Trusted: it gives the characters of a string
/// document, nothing on any other.
pub assume_specification[ serde_json::Value::as_str ](v: &serde_json::Value) -> (r: Option<&str>)
    ensures
        match r {
            Some(s) => json_of(*v) == Json::Str(s@),
            None => !(json_of(*v) is Str),
        },
;

/// `Value::as_bool`. Trusted: it gives the value of a boolean document,
/// nothing on any other.
pub assume_specification[ serde_json::Value::as_bool ](v: &serde_json::Value) -> (r: Option<bool>)
    ensures
        match r {
            Some(b) => json_of(*v) == Json::Bool(b),
            None => !(json_of(*v) is Bool),
        },
;

/// `Value::as_u64`. Trusted: it gives an integer document that fits
/// `u64`, nothing on any other.
pub assume_specification[ serde_json::Value::as_u64 ](v: &serde_json::Value) -> (r: Option<u64>)
    ensures
        match r {
            Some(n) => json_of(*v) == Json::Int(n as int),
            None => !(json_of(*v) matches Json::Int(i) && 0 <= i <= u64::MAX),
        },
;

/// `Value::as_i64`. Trusted: it gives an integer document that fits
/// `i64`, nothing on any other.
pub assume_specification[ serde_json::Value::as_i64 ](v: &serde_json::Value) -> (r: Option<i64>)
    ensures
        match r {
            Some(n) => json_of(*v) == Json::Int(n as int),
            None => !(json_of(*v) matches Json::Int(i) && i64::MIN <= i <= i64::MAX),
        },
;

/// `Value::is_null`. Trusted: it says whether the document is `null`.
pub assume_specification[ serde_json::Value::is_null ](v: &serde_json::Value) -> (r: bool)
    ensures
        r == (json_of(*v) is Null),
;

/// `Value::as_array`. Trusted: it gives the items of an array document,
/// nothing on any other.
pub assume_specification[ serde_json::Value::as_array ](v: &serde_json::Value) -> (r: Option<
    &Vec<serde_json::Value>,
>)
    ensures
        match r {
            Some(items) => json_of(*v) == Json::Array(jsons_of(items@)),
            None => !(json_of(*v) is Array),
        },
;

} // verus!
