//! JSON text: bytes and text read into `Json`, and `Json` written as text, both
//! by `serde_json`.

use vstd::prelude::*;
use crate::json::{Json, JsonView, Number};

verus! {

#[verifier::external_type_specification]
#[verifier::external_body]
pub struct ExValue(serde_json::Value);

/// A parse, seen as values: the JSON, or the parser's message.
pub open spec fn parse_view(p: Result<Json, String>) -> Result<JsonView, Seq<char>> {
    match p {
        Ok(j) => Ok(j@),
        Err(m) => Err(m@),
    }
}

/// What `serde_json` reads from the bytes `b`: a JSON value, or its message.
pub uninterp spec fn json_of_bytes(b: Seq<u8>) -> Result<JsonView, Seq<char>>;

/// What `serde_json` reads from the text `t`: a JSON value, or its message.
pub uninterp spec fn json_of_text(t: Seq<char>) -> Result<JsonView, Seq<char>>;

/// The text `serde_json` writes for the JSON value `v`.
pub uninterp spec fn json_text(v: JsonView) -> Seq<char>;

/// Converts a `serde_json::Value` into a `Json`, variant for variant; a number is
/// kept as the `u64` or `i64` `serde_json` holds, else as its text.
#[verifier::external_body]
fn json_of_value(v: serde_json::Value) -> Json {
    match v {
        serde_json::Value::Null => Json::Null,
        serde_json::Value::Bool(b) => Json::Bool(b),
        serde_json::Value::Number(n) => Json::Num(match (n.as_u64(), n.as_i64()) {
            (Some(u), _) => Number::PosInt(u),
            (None, Some(i)) => Number::NegInt(i),
            (None, None) => Number::Float(n.to_string()),
        }),
        serde_json::Value::String(s) => Json::Str(s),
        serde_json::Value::Array(a) => Json::Array(a.into_iter().map(json_of_value).collect()),
        serde_json::Value::Object(m) => Json::Object(m.into_iter().map(|(k, x)| (k, json_of_value(x))).collect()),
    }
}

/// Converts a `Json` into a `serde_json::Value`, variant for variant; a number
/// kept as text is read back by `serde_json`.
#[verifier::external_body]
fn value_of_json(j: &Json) -> serde_json::Value {
    match j {
        Json::Null => serde_json::Value::Null,
        Json::Bool(b) => serde_json::Value::Bool(*b),
        Json::Num(Number::PosInt(u)) => serde_json::Value::from(*u),
        Json::Num(Number::NegInt(i)) => serde_json::Value::from(*i),
        Json::Num(Number::Float(t)) => serde_json::from_str(t).unwrap_or(serde_json::Value::Null),
        Json::Str(s) => serde_json::Value::String(s.clone()),
        Json::Array(a) => serde_json::Value::Array(a.iter().map(value_of_json).collect()),
        Json::Object(es) => serde_json::Value::Object(es.iter().map(|(k, x)| (k.clone(), value_of_json(x))).collect()),
    }
}

/// Reads JSON from bytes.
///
/// Trusted: calls `serde_json::from_slice::<serde_json::Value>` on `b` and
/// converts the value, or gives the error's message (its `Display`). Claims only
/// that the result depends on `b` alone, and names it `json_of_bytes(b)`.
#[verifier::external_body]
pub fn parse_json_bytes(b: &[u8]) -> (r: Result<Json, String>)
    ensures
        parse_view(r) == json_of_bytes(b@),
{
    serde_json::from_slice::<serde_json::Value>(b).map(json_of_value).map_err(|e| e.to_string())
}

/// Reads JSON from text.
///
/// Trusted: calls `serde_json::from_str::<serde_json::Value>` on `t` and converts
/// the value, or gives the error's message (its `Display`). Claims only that the
/// result depends on `t` alone, and names it `json_of_text(t)`.
#[verifier::external_body]
pub fn parse_json_text(t: &str) -> (r: Result<Json, String>)
    ensures
        parse_view(r) == json_of_text(t@),
{
    serde_json::from_str::<serde_json::Value>(t).map(json_of_value).map_err(|e| e.to_string())
}

/// Writes JSON as text.
///
/// Trusted: converts `j` into a `serde_json::Value` and writes it with its
/// `Display` (the compact form of `serde_json::to_string`, which cannot fail on a
/// `Value`). Claims only that the text depends on `j` alone, and names it
/// `json_text(j)`.
#[verifier::external_body]
pub fn json_to_text(j: &Json) -> (s: String)
    ensures
        s@ == json_text(j@),
{
    value_of_json(j).to_string()
}

} // verus!
