//! JSON documents, as far as this crate reads them.
//!
//! Documents are parsed by `serde_json`. What a parsed value holds is
//! spoken of as a map from paths to nodes: the empty path leads to the
//! value itself, and a path that goes on from an object by one of its keys,
//! or from an array by one of its positions, leads to what is found there.

use vstd::prelude::*;

verus! {

/// `serde_json::Value`, a parsed document or a part of one. Nothing is
/// seen inside it; it is read through the functions below.
#[verifier::external_type_specification]
#[verifier::external_body]
pub struct ExValue(serde_json::Value);

/// `serde_json::Error`, why a text was not parsed. Nothing is seen inside
/// it.
#[verifier::external_type_specification]
#[verifier::external_body]
pub struct ExError(serde_json::Error);

/// One step of a path into a document.
pub enum Step {
    /// Into an object, to the member with this key.
    Key(Seq<char>),
    /// Into an array, to the item at this position.
    Index(nat),
}

/// What is found at the end of a path.
pub enum Node {
    /// A string.
    Text(Seq<char>),
    /// A whole number that is not negative and fits 64 bits.
    Unsigned(u64),
    /// An array of this many items.
    List(nat),
    /// An object.
    Record,
    /// Anything else: null, a boolean, any other number.
    Other,
}

/// What a document holds, path by path.
pub type Nodes = Map<Seq<Step>, Node>;

/// What `value` holds: for every path that leads somewhere in `value`, what
/// is found there. The empty path leads to `value` itself. Nothing is said
/// of this map but what the functions below say, each of one accessor of
/// `serde_json::Value`.
pub uninterp spec fn json_nodes(value: serde_json::Value) -> Map<Seq<Step>, Node>;

/// What the text `text` holds once `serde_json` has parsed it, if it is a
/// JSON document; nothing if it is none.
pub uninterp spec fn json_document(text: Seq<char>) -> Option<Map<Seq<Step>, Node>>;

/// The part of `nodes` that lies behind the path `prefix`.
pub open spec fn subtree(nodes: Nodes, prefix: Seq<Step>) -> Nodes {
    Map::new(|path: Seq<Step>| nodes.dom().contains(prefix + path), |path: Seq<Step>| nodes[prefix + path])
}

/// What is found at `path`, if the path leads anywhere.
pub open spec fn node_at(nodes: Nodes, path: Seq<Step>) -> Option<Node> {
    if nodes.dom().contains(path) {
        Some(nodes[path])
    } else {
        None
    }
}

/// The path of one step by the key `key`.
pub open spec fn by_key(key: Seq<char>) -> Seq<Step> {
    seq![Step::Key(key)]
}

/// The path of one step by the position `index`.
pub open spec fn by_index(index: nat) -> Seq<Step> {
    seq![Step::Index(index)]
}

/// Parses `text` with `serde_json::from_str`. The contract names what the
/// parsed value holds after the text, and says that a text that is rejected
/// holds nothing.
#[verifier::external_body]
pub(crate) fn parse_document(text: &str) -> (r: Result<serde_json::Value, serde_json::Error>)
    ensures
        match r {
            Ok(value) => json_document(text@) == Some(json_nodes(value)),
            Err(_) => json_document(text@) is None,
        },
{
    serde_json::from_str(text)
}

/// The words of a parse error, by its `Display`. Nothing is claimed of
/// them.
#[verifier::external_body]
pub(crate) fn error_text(error: &serde_json::Error) -> (r: String) {
    error.to_string()
}

/// `Value::get` with a string index: the member of an object by that key,
/// and nothing for a value that is no object or has no such member. The
/// contract says that there is a member exactly where the path of that one
/// step leads somewhere, and that what the member holds is what lies behind
/// that step.
#[verifier::external_body]
pub(crate) fn member<'a>(value: &'a serde_json::Value, key: &str) -> (r: Option<
    &'a serde_json::Value,
>)
    ensures
        match r {
            Some(child) => node_at(json_nodes(*value), by_key(key@)) is Some && json_nodes(*child)
                == subtree(json_nodes(*value), by_key(key@)),
            None => node_at(json_nodes(*value), by_key(key@)) is None,
        },
{
    value.get(key)
}

/// `Value::as_str`: the text of a value that is a string, and nothing for
/// any other value. The contract says that the value itself, at the empty
/// path, is that text, or is no text.
#[verifier::external_body]
pub(crate) fn text_of<'a>(value: &'a serde_json::Value) -> (r: Option<&'a str>)
    ensures
        match r {
            Some(text) => node_at(json_nodes(*value), Seq::empty()) == Some(Node::Text(text@)),
            None => !(node_at(json_nodes(*value), Seq::empty()) matches Some(Node::Text(_))),
        },
{
    value.as_str()
}

/// `Value::as_u64`: the number of a value that is a whole number, not
/// negative, within 64 bits, and nothing for any other value. The contract
/// says that the value itself, at the empty path, is that number, or is no
/// such number.
#[verifier::external_body]
pub(crate) fn unsigned_of(value: &serde_json::Value) -> (r: Option<u64>)
    ensures
        match r {
            Some(n) => node_at(json_nodes(*value), Seq::empty()) == Some(Node::Unsigned(n)),
            None => !(node_at(json_nodes(*value), Seq::empty()) matches Some(Node::Unsigned(_))),
        },
{
    value.as_u64()
}

/// `Value::as_array`: the items of a value that is an array, and nothing
/// for any other value. The contract says that the value itself, at the
/// empty path, is an array of as many items, and that what item `i` holds
/// is what lies behind the step to position `i`; or that the value is no
/// array.
#[verifier::external_body]
pub(crate) fn items_of<'a>(value: &'a serde_json::Value) -> (r: Option<&'a Vec<serde_json::Value>>)
    ensures
        match r {
            Some(items) => node_at(json_nodes(*value), Seq::empty()) == Some(
                Node::List(items.len() as nat),
            ) && forall|i: int|
                0 <= i < items.len() ==> json_nodes(#[trigger] items[i]) == subtree(
                    json_nodes(*value),
                    by_index(i as nat),
                ),
            None => !(node_at(json_nodes(*value), Seq::empty()) matches Some(Node::List(_))),
        },
{
    value.as_array()
}

} // verus!
