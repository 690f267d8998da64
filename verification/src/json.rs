//! JSON documents as plain values, and the parser that produces them.

use crate::error::ConfigError;
use vstd::prelude::*;

verus! {

/// A JSON value. The members of an object stand in the order in which the
/// parser hands them out: that of the document, a name that the document
/// gives twice standing once, where it stood first, with its last value.
#[derive(Debug, PartialEq, Eq)]
pub enum Json {
    Null,
    Bool(bool),
    /// A number; the payload is its value where it is an integer from 0 to
    /// `u64::MAX`, and `None` for every other number.
    Number(Option<u64>),
    Text(String),
    List(Vec<Json>),
    Object(Vec<(String, Json)>),
}

/// `serde_json::Value`, carried from the parser to `tree_of` and not looked
/// into.
#[verifier::external_type_specification]
#[verifier::external_body]
pub struct ExValue(serde_json::Value);

/// `serde_json::Error`, of which only its presence is read.
#[verifier::external_type_specification]
#[verifier::external_body]
pub struct ExError(serde_json::Error);

/// What `serde_json::from_str` makes of a text: the document it holds, or
/// `None` where the parser refuses the text.
pub uninterp spec fn parsed_text(text: Seq<char>) -> Option<Json>;

/// What a `serde_json::Value` holds, as a `Json`.
pub uninterp spec fn value_tree(value: serde_json::Value) -> Json;

/// `serde_json::from_str` at the type `serde_json::Value`. The parser reads
/// nothing but the text, so its answer is a function of the text: that
/// function is `parsed_text`. No more is claimed.
#[verifier::external_body]
fn parse_value(text: &str) -> (r: Result<serde_json::Value, serde_json::Error>)
    ensures
        match r {
            Ok(value) => parsed_text(text@) == Some(value_tree(value)),
            Err(_) => parsed_text(text@) is None,
        },
{
    serde_json::from_str::<serde_json::Value>(text)
}

/// Moves what a `serde_json::Value` holds into a `Json`, variant by
/// variant: a number goes through `serde_json::Number::as_u64`, the members
/// of an object come out of `serde_json::Map` in the order in which it hands
/// them out. The result is what `value_tree` names.
#[verifier::external_body]
fn tree_of(value: serde_json::Value) -> (r: Json)
    ensures
        r == value_tree(value),
{
    match value {
        serde_json::Value::Null => Json::Null,
        serde_json::Value::Bool(flag) => Json::Bool(flag),
        serde_json::Value::Number(number) => Json::Number(number.as_u64()),
        serde_json::Value::String(text) => Json::Text(text),
        serde_json::Value::Array(items) => Json::List(items.into_iter().map(tree_of).collect()),
        serde_json::Value::Object(members) => Json::Object(
            members.into_iter().map(|(name, member)| (name, tree_of(member))).collect(),
        ),
    }
}

/// Reads a JSON document: the document that the text holds, or a syntax
/// error where the text is not JSON.
pub fn parse_document(text: &str) -> (r: Result<Json, ConfigError>)
    ensures
        r == match parsed_text(text@) {
            Some(document) => Ok::<Json, ConfigError>(document),
            None => Err(ConfigError::Syntax),
        },
{
    match parse_value(text) {
        Ok(value) => Ok(tree_of(value)),
        Err(_) => Err(ConfigError::Syntax),
    }
}

} // verus!
