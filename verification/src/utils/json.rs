//! The JSON values this crate carries and the calls it makes on them.
//!
//! A JSON value is opaque to the verified code: it is parsed, carried, cloned
//! and written out by `serde_json`, and the contracts below say what is relied
//! on about those calls.

use vstd::prelude::*;

verus! {

/// `serde_json::Value`: a JSON value, carried without being looked into.
#[verifier::external_type_specification]
#[verifier::external_body]
pub struct ExJsonValue(serde_json::Value);

/// The value that `serde_json::from_str` reads from `text`, or `None` where it
/// rejects the text.
pub uninterp spec fn json_from_text(text: Seq<char>) -> Option<serde_json::Value>;

/// The compact text that `serde_json` writes for `value`.
pub uninterp spec fn json_text(value: serde_json::Value) -> Seq<char>;

/// `Clone` for `serde_json::Value` builds a value equal to the one it is given.
pub assume_specification[ <serde_json::Value as Clone>::clone ](
    value: &serde_json::Value,
) -> (copy: serde_json::Value)
    ensures
        copy == *value,
;

/// Calls `serde_json::from_str` for a `Value`. Parsing is a function of the
/// text alone; a rejected text gives `None`.
#[verifier::external_body]
pub(crate) fn parse_json(text: &str) -> (parsed: Option<serde_json::Value>)
    ensures
        parsed == json_from_text(text@),
{
    serde_json::from_str(text).ok()
}

/// Calls `Value::to_string`, which writes the value as compact JSON.
#[verifier::external_body]
pub(crate) fn json_to_text(value: &serde_json::Value) -> (text: String)
    ensures
        text@ == json_text(*value),
{
    value.to_string()
}

/// Builds `Value::Object` over an empty `serde_json::Map`: the value that the
/// text `{}` parses to.
#[verifier::external_body]
pub(crate) fn empty_json_object() -> (object: serde_json::Value)
    ensures
        json_from_text("{}"@) == Some(object),
{
    serde_json::Value::Object(serde_json::Map::new())
}

/// The object without members.
pub open spec fn empty_object() -> serde_json::Value {
    json_from_text("{}"@).unwrap()
}

/// What tool-call arguments finalize to: the value the text parses to, or the
/// empty object where the text is not valid JSON.
pub open spec fn json_or_empty(text: Seq<char>) -> serde_json::Value {
    match json_from_text(text) {
        Some(value) => value,
        None => empty_object(),
    }
}

/// Parses `text` as JSON, falling back to the empty object.
pub fn parse_json_or_empty(text: &str) -> (value: serde_json::Value)
    ensures
        value == json_or_empty(text@),
{
    match parse_json(text) {
        Some(value) => value,
        None => empty_json_object(),
    }
}

} // verus!
