//! The little of JSON that the library reads: a text member of an object.

use vstd::prelude::*;
use crate::text::opt_text;

verus! {

/// `serde_json::Value`: a parsed JSON document, carried as it is.
#[verifier::external_type_specification]
#[verifier::external_body]
pub struct ExJsonValue(serde_json::Value);

/// What a JSON value holds of text: the members of an object whose values
/// are strings, each under its key. A value that is no object holds none.
pub uninterp spec fn text_members(value: serde_json::Value) -> Map<Seq<char>, Seq<char>>;

/// The text members of the JSON document that `text` spells, as
/// `serde_json::from_str` reads it; nothing where the text is no JSON.
pub uninterp spec fn json_document(text: Seq<char>) -> Option<Map<Seq<char>, Seq<char>>>;

/// What a parse has made out, by the text members it holds.
pub open spec fn parsed_members(parsed: Option<serde_json::Value>) -> Option<
    Map<Seq<char>, Seq<char>>,
> {
    match parsed {
        Some(value) => Some(text_members(value)),
        None => None,
    }
}

/// What is listed under `key`, if anything.
pub open spec fn listed(members: Map<Seq<char>, Seq<char>>, key: Seq<char>) -> Option<Seq<char>> {
    if members.dom().contains(key) {
        Some(members[key])
    } else {
        None
    }
}

/// The text member `key` of a document: none where there is no document, or
/// where the document lists no text under the key.
pub open spec fn member_of(document: Option<Map<Seq<char>, Seq<char>>>, key: Seq<char>) -> Option<
    Seq<char>,
> {
    match document {
        Some(members) => listed(members, key),
        None => None,
    }
}

/// Parses a JSON document with `serde_json::from_str`; nothing where the
/// text is no JSON. The outcome is a function of the text alone, which
/// `json_document` names by the text members of what was read.
#[verifier::external_body]
fn parse(text: &str) -> (parsed: Option<serde_json::Value>)
    ensures
        parsed_members(parsed) == json_document(text@),
{
    serde_json::from_str::<serde_json::Value>(text).ok()
}

/// The text under `key` in a JSON value, by `serde_json::Value::get`: the
/// member of that key where the value is an object that has one, handed out
/// as text where it is a string, and as nothing where it is anything else.
#[verifier::external_body]
fn member_text(value: &serde_json::Value, key: &str) -> (found: Option<String>)
    ensures
        opt_text(found) == listed(text_members(*value), key@),
{
    match value.get(key) {
        Some(serde_json::Value::String(text)) => Some(text.clone()),
        Some(serde_json::Value::Null) => None,
        Some(serde_json::Value::Bool(_)) => None,
        Some(serde_json::Value::Number(_)) => None,
        Some(serde_json::Value::Array(_)) => None,
        Some(serde_json::Value::Object(_)) => None,
        None => None,
    }
}

/// The text member `key` of what a parse has made out: none where the parse
/// failed, where the value is no object, where it has no such member, or
/// where the member is no string.
pub fn text_member_of(parsed: &Option<serde_json::Value>, key: &str) -> (text: Option<String>)
    ensures
        opt_text(text) == member_of(parsed_members(*parsed), key@),
{
    match parsed {
        Some(value) => member_text(value, key),
        None => None,
    }
}

/// The text member `key` of the JSON object that `document` spells. There is
/// none where the document is no JSON, no object, has no such member, or the
/// member is no string.
pub fn text_member(document: &str, key: &str) -> (text: Option<String>)
    ensures
        opt_text(text) == member_of(json_document(document@), key@),
{
    let parsed = parse(document);
    text_member_of(&parsed, key)
}

} // verus!
