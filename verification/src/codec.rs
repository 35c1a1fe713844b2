//! JSON text: writing a [`Json`] document and reading one back.
//!
//! The text itself is `serde_json`'s work. What it writes for a value and what
//! it reads from a text are named here, not restated.

use crate::error::BridgeError;
use crate::json::{Json, JsonModel};
use vstd::prelude::*;

verus! {

/// `serde_json::Value`. It is built and taken apart in the two conversions
/// below and nowhere else.
#[verifier::external_type_specification]
#[verifier::external_body]
pub struct ExValue(serde_json::Value);

/// `serde_json::Error`, of which only the fact that there is one is used.
#[verifier::external_type_specification]
#[verifier::external_body]
pub struct ExError(serde_json::Error);

/// The text that `serde_json::to_string` writes for a document; `None` for
/// a document that cannot be handed to it, because it holds a decimal whose
/// text `serde_json` does not read as a number.
pub uninterp spec fn json_text(value: JsonModel) -> Option<Seq<char>>;

/// The document that `serde_json::from_str` reads from a text; `None` where
/// it reports an error.
pub uninterp spec fn json_parsed(text: Seq<char>) -> Option<JsonModel>;

/// Rebuilds a document as a `serde_json::Value`, variant for variant.
///
/// Trusted, and nothing is claimed of the result. There is none where
/// `serde_json` does not read the text of a decimal as a number. Of members
/// with one key `serde_json`'s map keeps the last.
#[verifier::external_body]
fn to_value(json: &Json) -> Option<serde_json::Value> {
    Some(match json {
        Json::Null => serde_json::Value::Null,
        Json::Bool(b) => serde_json::Value::Bool(*b),
        Json::Int(i) => serde_json::Value::from(*i),
        Json::Decimal(t) => serde_json::Value::Number(serde_json::from_str(t).ok()?),
        Json::Text(t) => serde_json::Value::String(t.clone()),
        Json::Array(items) => serde_json::Value::Array(
            items.iter().map(to_value).collect::<Option<_>>()?,
        ),
        Json::Object(members) => serde_json::Value::Object(
            members.iter().map(|m| Some((m.0.clone(), to_value(&m.1)?))).collect::<Option<_>>()?,
        ),
    })
}

/// Rebuilds a `serde_json::Value` as a document, variant for variant.
///
/// Trusted, and nothing is claimed of the result. A number that
/// `Number::as_i64` yields is kept as that integer, any other as the text
/// that `serde_json` displays for it.
#[verifier::external_body]
fn from_value(value: serde_json::Value) -> Json {
    match value {
        serde_json::Value::Null => Json::Null,
        serde_json::Value::Bool(b) => Json::Bool(b),
        serde_json::Value::Number(n) => match n.as_i64() {
            Some(i) => Json::Int(i),
            None => Json::Decimal(n.to_string()),
        },
        serde_json::Value::String(t) => Json::Text(t),
        serde_json::Value::Array(items) => Json::Array(items.into_iter().map(from_value).collect()),
        serde_json::Value::Object(members) => Json::Object(
            members.into_iter().map(|(k, v)| (k, from_value(v))).collect(),
        ),
    }
}

/// Writes a document with `serde_json::to_string`.
///
/// Trusted: whether there is a text, and the text, depend on the document's
/// value alone, which is all that the contract says; [`json_text`] is the
/// name of that outcome.
#[verifier::external_body]
fn write_text(json: &Json) -> (text: Option<String>)
    ensures
        match json_text(json@) {
            Some(written) => text matches Some(t) && t@ == written,
            None => text is None,
        },
{
    serde_json::to_string(&to_value(json)?).ok()
}

/// Reads a document with `serde_json::from_str`.
///
/// Trusted: whether the text is accepted, and the document read from it,
/// depend on the text alone; [`json_parsed`] is the name of that outcome.
#[verifier::external_body]
fn read_text(text: &str) -> (read: Result<Json, serde_json::Error>)
    ensures
        match json_parsed(text@) {
            Some(value) => read matches Ok(json) && json@ == value,
            None => read is Err,
        },
{
    serde_json::from_str::<serde_json::Value>(text).map(from_value)
}

/// The text that [`encode`] gives for a document: its JSON text, and the
/// text `null` for a document that cannot be written.
pub open spec fn written(value: JsonModel) -> Seq<char> {
    match json_text(value) {
        Some(text) => text,
        None => "null"@,
    }
}

/// The JSON text of a document; none for a document that cannot be written,
/// which is one that holds a decimal whose text is not a number.
pub fn try_encode(json: &Json) -> (text: Option<String>)
    ensures
        match json_text(json@) {
            Some(written) => text matches Some(t) && t@ == written,
            None => text is None,
        },
{
    write_text(json)
}

/// The JSON text of a document. A document that cannot be written is
/// written as `null`, whole: a part of it is never left out in silence.
pub fn encode(json: &Json) -> (text: String)
    ensures
        text@ == written(json@),
{
    match write_text(json) {
        Some(text) => text,
        None => "null".to_owned(),
    }
}

/// The document that a JSON text holds; [`BridgeError::Decode`] where the
/// text is not JSON.
pub fn decode(text: &str) -> (decoded: Result<Json, BridgeError>)
    ensures
        match json_parsed(text@) {
            Some(value) => decoded matches Ok(json) && json@ == value,
            None => decoded == Err::<Json, BridgeError>(BridgeError::Decode),
        },
{
    match read_text(text) {
        Ok(json) => Ok(json),
        Err(_) => Err(BridgeError::Decode),
    }
}

} // verus!
