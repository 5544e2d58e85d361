//! JSON text, by the `serde_json` crate. Nothing in this file is proved:
//! what a text holds is what `serde_json` reads from it, and the text of a
//! tree is what `serde_json` writes for it.

use crate::json::{Json, JsonView};
use serde_json::Value;
use vstd::prelude::*;

verus! {

/// `serde_json::Value`, as a value that is carried through and read only
/// by the functions of this file.
#[verifier::external_type_specification]
#[verifier::external_body]
pub struct ExValue(Value);

/// `serde_json::Error`, of which only the message is ever read.
#[verifier::external_type_specification]
#[verifier::external_body]
pub struct ExJsonError(serde_json::Error);

/// The tree that `serde_json::from_str` reads from a text; `None` where it
/// reports an error.
pub uninterp spec fn parsed_json(text: Seq<char>) -> Option<JsonView>;

/// The text that `serde_json::to_string_pretty` writes for a tree; `None`
/// where it reports an error.
pub uninterp spec fn rendered_json(tree: JsonView) -> Option<Seq<char>>;

/// Moves a value of `serde_json` into a tree, variant by variant. A number
/// goes through `Number::as_u64`.
#[verifier::external_body]
fn tree_of(value: &Value) -> Json {
    match value {
        Value::Null => Json::Null,
        Value::Bool(flag) => Json::Bool(*flag),
        Value::Number(number) => Json::Number(number.as_u64()),
        Value::String(text) => Json::Text(text.clone()),
        Value::Array(items) => Json::Array(items.iter().map(tree_of).collect()),
        Value::Object(fields) => Json::Object(
            fields.iter().map(|(key, item)| (key.clone(), tree_of(item))).collect(),
        ),
    }
}

/// Moves a tree into a value of `serde_json`, variant by variant. A number
/// that the tree does not hold becomes `null`.
#[verifier::external_body]
fn value_of(tree: &Json) -> Value {
    match tree {
        Json::Null | Json::Number(None) => Value::Null,
        Json::Bool(flag) => Value::Bool(*flag),
        Json::Number(Some(number)) => Value::from(*number),
        Json::Text(text) => Value::String(text.clone()),
        Json::Array(items) => Value::Array(items.iter().map(value_of).collect()),
        Json::Object(fields) => Value::Object(
            fields.iter().map(|(key, item)| (key.clone(), value_of(item))).collect(),
        ),
    }
}

/// `serde_json::from_str`, reading a `Value`, which is then moved into a
/// tree.
#[verifier::external_body]
pub(crate) fn parse(text: &str) -> (tree: Result<Json, serde_json::Error>)
    ensures
        tree is Ok <==> parsed_json(text@) is Some,
        tree matches Ok(read) ==> parsed_json(text@) == Some(read@),
{
    serde_json::from_str::<Value>(text).map(|value| tree_of(&value))
}

/// `serde_json::to_string_pretty`, writing the `Value` that the tree was
/// moved into.
#[verifier::external_body]
pub(crate) fn render(tree: &Json) -> (text: Result<String, serde_json::Error>)
    ensures
        text is Ok <==> rendered_json(tree@) is Some,
        text matches Ok(written) ==> rendered_json(tree@) == Some(written@),
{
    serde_json::to_string_pretty(&value_of(tree))
}

/// The message of an error of `serde_json`, as its `Display` gives it.
#[verifier::external_body]
pub(crate) fn describe(error: &serde_json::Error) -> (message: String) {
    error.to_string()
}

} // verus!
