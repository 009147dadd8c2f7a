//! The structured document that the monitoring tool prints, as a tree of
//! plain values, and the reading of such a document from text.

use vstd::prelude::*;

verus! {

/// One value of a structured document.
#[derive(Debug, PartialEq, Eq)]
pub enum Node {
    Null,
    Bool(bool),
    /// A number, as the decimal literal that denotes it.
    Number(String),
    Text(String),
    List(Vec<Node>),
    /// A mapping, its members in the order in which they are met.
    Object(Vec<Member>),
}

/// One entry of a mapping.
#[derive(Debug, PartialEq, Eq)]
pub struct Member {
    pub key: String,
    pub value: Node,
}

#[verifier::external_type_specification]
#[verifier::external_body]
pub struct ExJsonValue(serde_json::Value);

#[verifier::external_type_specification]
#[verifier::external_body]
pub struct ExJsonError(serde_json::Error);

/// The tree that a parsed JSON value holds.
pub uninterp spec fn json_tree(value: serde_json::Value) -> Node;

/// The tree that a JSON text denotes; `None` where the text is no JSON
/// document.
pub uninterp spec fn json_document(text: Seq<char>) -> Option<Node>;

/// `serde_json::from_str` at the type `serde_json::Value`. Trusted: the
/// outcome depends on the text alone, so it has the name `json_document`;
/// and the empty text is no document.
#[verifier::external_body]
fn parse_json(text: &str) -> (r: Result<serde_json::Value, serde_json::Error>)
    ensures
        match r {
            Ok(value) => json_document(text@) == Some(json_tree(value)),
            Err(_) => json_document(text@) is None,
        },
        text@.len() == 0 ==> r is Err,
{
    serde_json::from_str::<serde_json::Value>(text)
}

/// Copies a `serde_json::Value` into a `Node`, variant by variant; a number
/// becomes the text that `serde_json::Number`'s `Display` writes for it, and
/// the members of an object come in the order of `serde_json::Map::iter`.
/// Trusted: the copy has the name `json_tree`.
#[verifier::external_body]
fn tree_of(value: &serde_json::Value) -> (node: Node)
    ensures
        node == json_tree(*value),
{
    match value {
        serde_json::Value::Null => Node::Null,
        serde_json::Value::Bool(b) => Node::Bool(*b),
        serde_json::Value::Number(n) => Node::Number(n.to_string()),
        serde_json::Value::String(s) => Node::Text(s.clone()),
        serde_json::Value::Array(items) => Node::List(items.iter().map(tree_of).collect()),
        serde_json::Value::Object(map) => Node::Object(
            map.iter().map(|(k, v)| Member { key: k.clone(), value: tree_of(v) }).collect(),
        ),
    }
}

/// `core::str::from_utf8`. Trusted: it succeeds on the byte sequences that
/// are valid UTF-8 and on no others, and the text holds the characters that
/// the bytes encode.
#[verifier::external_body]
fn utf8_text(bytes: &[u8]) -> (text: Option<&str>)
    ensures
        text is Some <==> vstd::utf8::valid_utf8(bytes@),
        text is Some ==> text->0@ == vstd::utf8::decode_utf8(bytes@),
{
    core::str::from_utf8(bytes).ok()
}

/// The document that `bytes` hold: the tree that their text denotes, where
/// they are UTF-8 and that text is a JSON document.
pub open spec fn document(bytes: Seq<u8>) -> Option<Node> {
    if vstd::utf8::valid_utf8(bytes) {
        json_document(vstd::utf8::decode_utf8(bytes))
    } else {
        None
    }
}

/// Reads a structured document from text.
pub fn parse_text(text: &str) -> (tree: Option<Node>)
    ensures
        tree == json_document(text@),
        text@.len() == 0 ==> tree is None,
{
    match parse_json(text) {
        Ok(value) => Some(tree_of(&value)),
        Err(_) => None,
    }
}

/// Reads a structured document from the bytes that a tool wrote.
pub fn parse_document(bytes: &[u8]) -> (tree: Option<Node>)
    ensures
        tree == document(bytes@),
        bytes@.len() == 0 ==> tree is None,
{
    match utf8_text(bytes) {
        Some(text) => {
            proof {
                if bytes@.len() == 0 {
                    assert(vstd::utf8::decode_utf8(bytes@).len() == 0);
                }
            }
            parse_text(text)
        },
        None => None,
    }
}

} // verus!
