//! JSON documents: building them, reading them, and writing them out.

use serde_json::{Map as JsonMap, Value};
use vstd::prelude::*;

verus! {

/// A JSON document.
#[verifier::external_type_specification]
#[verifier::external_body]
pub struct ExValue(serde_json::Value);

/// What a JSON document holds. A number that is not whole is known by its text.
pub enum JsonTree {
    Null,
    Bool(bool),
    Integer(int),
    Real(Seq<char>),
    Text(Seq<char>),
    List(Seq<JsonTree>),
    Object(Map<Seq<char>, JsonTree>),
}

/// What a `serde_json::Value` holds.
pub uninterp spec fn json_tree(document: Value) -> JsonTree;

/// What `serde_json::from_str` reads from a text; none where it refuses the text.
pub uninterp spec fn json_value(text: Seq<char>) -> Option<JsonTree>;

/// The text that `serde_json::to_string_pretty` writes for a document.
pub uninterp spec fn json_pretty(tree: JsonTree) -> Seq<char>;

/// The member of an object; none where the document is no object or lacks the member.
pub open spec fn member(tree: JsonTree, key: Seq<char>) -> Option<JsonTree> {
    match tree {
        JsonTree::Object(members) => if members.contains_key(key) {
            Some(members[key])
        } else {
            None
        },
        _ => None,
    }
}

/// The text that stands in a document under one key inside another.
pub open spec fn text_at(tree: JsonTree, outer: Seq<char>, inner: Seq<char>) -> Option<Seq<char>> {
    match member(tree, outer) {
        Some(part) => match member(part, inner) {
            Some(JsonTree::Text(text)) => Some(text),
            _ => None,
        },
        None => None,
    }
}

/// The tree of a text that may be missing.
pub open spec fn text_or_null(text: Option<Seq<char>>) -> JsonTree {
    match text {
        Some(text) => JsonTree::Text(text),
        None => JsonTree::Null,
    }
}

/// `Value::Null`, the document that holds nothing.
#[verifier::external_body]
fn null() -> (document: Value)
    ensures
        json_tree(document) == JsonTree::Null,
{
    Value::Null
}

/// `Value::String`, the document that holds one text.
#[verifier::external_body]
pub(crate) fn text(content: &str) -> (document: Value)
    ensures
        json_tree(document) == JsonTree::Text(content@),
{
    Value::String(content.to_owned())
}

/// `Value::from` on a whole number, the document that holds this number.
#[verifier::external_body]
pub(crate) fn integer(content: i64) -> (document: Value)
    ensures
        json_tree(document) == JsonTree::Integer(content as int),
{
    Value::from(content)
}

/// `Value::Array`, the document that holds the given documents in their order.
#[verifier::external_body]
pub(crate) fn list(items: Vec<Value>) -> (document: Value)
    ensures
        json_tree(document) == JsonTree::List(items@.map_values(|item: Value| json_tree(item))),
{
    Value::Array(items)
}

/// `Value::Object` on a new `serde_json::Map`, the object without members.
#[verifier::external_body]
pub(crate) fn object() -> (document: Value)
    ensures
        json_tree(document) == JsonTree::Object(Map::empty()),
{
    Value::Object(JsonMap::new())
}

/// `serde_json::Map::insert` on the members of an object: the key then stands for the given
/// document, and the other members stay.
#[verifier::external_body]
pub(crate) fn insert(document: &mut Value, key: &str, item: Value)
    requires
        json_tree(*old(document)) is Object,
    ensures
        json_tree(*final(document)) == JsonTree::Object(
            json_tree(*old(document))->Object_0.insert(key@, json_tree(item)),
        ),
{
    if let Value::Object(members) = document {
        members.insert(key.to_owned(), item);
    }
}

/// `Value::get` with a text as index: the member of that name of an object.
#[verifier::external_body]
fn get<'a>(document: &'a Value, key: &str) -> (found: Option<&'a Value>)
    ensures
        match found {
            Some(part) => member(json_tree(*document), key@) == Some(json_tree(*part)),
            None => member(json_tree(*document), key@) is None,
        },
{
    document.get(key)
}

/// `Value::as_str`: the text, where the document holds one text.
#[verifier::external_body]
fn as_str<'a>(document: &'a Value) -> (content: Option<&'a str>)
    ensures
        match content {
            Some(text) => json_tree(*document) == JsonTree::Text(text@),
            None => !(json_tree(*document) is Text),
        },
{
    document.as_str()
}

/// `serde_json::from_str`, without the reason of a refusal. The contract names what it reads.
#[verifier::external_body]
fn parse(content: &str) -> (document: Option<Value>)
    ensures
        match document {
            Some(v) => json_value(content@) == Some(json_tree(v)),
            None => json_value(content@) is None,
        },
{
    serde_json::from_str(content).ok()
}

/// `serde_json::to_string_pretty`. The contract names the text, which depends on what the
/// document holds alone: the members of an object are written in the order of their keys. A
/// document can always be written: its keys are texts, and the text is built in memory.
#[verifier::external_body]
pub(crate) fn pretty(document: &Value) -> (content: String)
    ensures
        content@ == json_pretty(json_tree(*document)),
{
    serde_json::to_string_pretty(document).unwrap()
}

/// The document of a text that may be missing.
pub(crate) fn optional_text(content: &Option<String>) -> (document: Value)
    ensures
        json_tree(document) == text_or_null(crate::text::opt_text(*content)),
{
    match content {
        Some(s) => text(s.as_str()),
        None => null(),
    }
}

/// The text that stands in a document under one key inside another.
pub fn find_text(document: &Value, outer: &str, inner: &str) -> (found: Option<String>)
    ensures
        crate::text::opt_text(found) == text_at(json_tree(*document), outer@, inner@),
{
    match get(document, outer) {
        Some(part) => match get(part, inner) {
            Some(leaf) => match as_str(leaf) {
                Some(s) => Some(s.to_owned()),
                None => None,
            },
            None => None,
        },
        None => None,
    }
}

/// The text that stands in the JSON of `content` under one key inside another.
pub fn read_text(content: &str, outer: &str, inner: &str) -> (found: Option<String>)
    ensures
        crate::text::opt_text(found) == match json_value(content@) {
            Some(tree) => text_at(tree, outer@, inner@),
            None => None,
        },
{
    match parse(content) {
        Some(document) => find_text(&document, outer, inner),
        None => None,
    }
}

} // verus!
