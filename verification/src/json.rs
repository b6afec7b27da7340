//! JSON documents.

use serde_json::Value;
use vstd::prelude::*;

verus! {

/// A JSON document, as the specifications see it. The value of a number is not told.
pub ghost enum JsonTree {
    /// `null`.
    Null,
    /// `true` or `false`.
    Bool(bool),
    /// A number.
    Number,
    /// A string.
    Text(Seq<char>),
    /// An array.
    Array(Seq<JsonTree>),
    /// An object: its keys and their values.
    Object(Seq<(Seq<char>, JsonTree)>),
}

/// A JSON document. The value of a number is not kept.
#[derive(Debug, PartialEq, Eq)]
pub enum Json {
    /// `null`.
    Null,
    /// `true` or `false`.
    Bool(bool),
    /// A number.
    Number,
    /// A string.
    Text(String),
    /// An array.
    Array(Vec<Json>),
    /// An object: its keys and their values.
    Object(Vec<(String, Json)>),
}

/// What a document holds.
pub open spec fn tree_of(json: Json) -> JsonTree
    decreases json,
{
    match json {
        Json::Null => JsonTree::Null,
        Json::Bool(b) => JsonTree::Bool(b),
        Json::Number => JsonTree::Number,
        Json::Text(text) => JsonTree::Text(text@),
        Json::Array(items) => JsonTree::Array(
            Seq::new(
                items@.len(),
                |i: int|
                    if 0 <= i < items@.len() {
                        tree_of(items@[i])
                    } else {
                        arbitrary()
                    },
            ),
        ),
        Json::Object(entries) => JsonTree::Object(
            Seq::new(
                entries@.len(),
                |i: int|
                    if 0 <= i < entries@.len() {
                        (entries@[i].0@, tree_of(entries@[i].1))
                    } else {
                        arbitrary()
                    },
            ),
        ),
    }
}

impl View for Json {
    type V = JsonTree;

    open spec fn view(&self) -> JsonTree {
        tree_of(*self)
    }
}

/// What an object holds: its entries, one by one.
pub proof fn lemma_object(json: Json)
    requires
        json is Object,
    ensures
        json@ is Object,
        json@->Object_0.len() == json->Object_0@.len(),
        forall|i: int|
            0 <= i < json->Object_0@.len() ==> #[trigger] json@->Object_0[i] == (
                json->Object_0@[i].0@,
                json->Object_0@[i].1@,
            ),
{
}

/// What an array holds: its items, one by one.
pub proof fn lemma_array(json: Json)
    requires
        json is Array,
    ensures
        json@ is Array,
        json@->Array_0.len() == json->Array_0@.len(),
        forall|i: int|
            0 <= i < json->Array_0@.len() ==> #[trigger] json@->Array_0[i] == json->Array_0@[i]@,
{
}

/// The document that `serde_json` holds as a `Value`.
#[verifier::external_type_specification]
#[verifier::external_body]
pub struct ExValue(Value);

/// What a `serde_json::Value` holds, with the entries of an object in the order in
/// which `serde_json` walks them.
pub uninterp spec fn json_of(value: Value) -> JsonTree;

/// What `serde_json::from_str` makes of a text: a document, or the message of the
/// error.
pub uninterp spec fn parsed_json(text: Seq<char>) -> Result<JsonTree, Seq<char>>;

/// `serde_json::from_str` parses a text as one JSON document, or fails with an error
/// that says why not. Either is a function of the text alone.
#[verifier::external_body]
fn parse_value(text: &str) -> (result: Result<Value, String>)
    ensures
        parsed_json(text@) == (match result {
            Ok(value) => Ok(json_of(value)),
            Err(message) => Err(message@),
        }),
{
    match serde_json::from_str::<Value>(text) {
        Ok(value) => Ok(value),
        Err(error) => Err(error.to_string()),
    }
}

/// A document, opened once: what is inside it is still closed.
enum Node<'a> {
    Null,
    Bool(bool),
    Number,
    Text(&'a String),
    Array(&'a Vec<Value>),
    Object(Vec<(&'a String, &'a Value)>),
}

/// What an opened document holds.
spec fn node_tree(node: Node) -> JsonTree {
    match node {
        Node::Null => JsonTree::Null,
        Node::Bool(b) => JsonTree::Bool(b),
        Node::Number => JsonTree::Number,
        Node::Text(text) => JsonTree::Text(text@),
        Node::Array(items) => JsonTree::Array(
            Seq::new(items@.len(), |i: int| json_of(items@[i])),
        ),
        Node::Object(entries) => JsonTree::Object(
            Seq::new(entries@.len(), |i: int| (entries@[i].0@, json_of(*entries@[i].1))),
        ),
    }
}

/// The variants of `serde_json::Value` are those of a document: a `Value` holds what
/// its variant says, and its parts hold the parts of it. `Map::iter` walks all entries
/// of an object.
#[verifier::external_body]
fn open_value(value: &Value) -> (node: Node<'_>)
    ensures
        node_tree(node) == json_of(*value),
{
    match value {
        Value::Null => Node::Null,
        Value::Bool(b) => Node::Bool(*b),
        Value::Number(_) => Node::Number,
        Value::String(text) => Node::Text(text),
        Value::Array(items) => Node::Array(items),
        Value::Object(entries) => Node::Object(entries.iter().collect()),
    }
}

/// The document that a `Value` holds.
fn from_value(value: &Value) -> (json: Json)
    ensures
        json@ == json_of(*value),
    decreases json_of(*value),
{
    match open_value(value) {
        Node::Null => Json::Null,
        Node::Bool(b) => Json::Bool(b),
        Node::Number => Json::Number,
        Node::Text(text) => Json::Text(text.clone()),
        Node::Array(items) => {
            let ghost trees = json_of(*value)->Array_0;
            let mut list: Vec<Json> = Vec::new();
            for i in 0..items.len()
                invariant
                    json_of(*value) == JsonTree::Array(trees),
                    trees.len() == items@.len(),
                    forall|j: int| 0 <= j < items@.len() ==> trees[j] == json_of(#[trigger] items@[j]),
                    list@.len() == i,
                    forall|j: int| 0 <= j < i ==> (#[trigger] list@[j])@ == trees[j],
            {
                assert(decreases_to!(trees => trees[i as int]));
                assert(decreases_to!(json_of(*value) => json_of(*value)->Array_0));
                list.push(from_value(&items[i]));
            }
            let json = Json::Array(list);
            assert(json@->Array_0 =~= trees);
            json
        },
        Node::Object(entries) => {
            let ghost trees = json_of(*value)->Object_0;
            let mut list: Vec<(String, Json)> = Vec::new();
            for i in 0..entries.len()
                invariant
                    json_of(*value) == JsonTree::Object(trees),
                    trees.len() == entries@.len(),
                    forall|j: int|
                        0 <= j < entries@.len() ==> trees[j] == (
                            (#[trigger] entries@[j]).0@,
                            json_of(*entries@[j].1),
                        ),
                    list@.len() == i,
                    forall|j: int|
                        0 <= j < i ==> ((#[trigger] list@[j]).0@, list@[j].1@) == trees[j],
            {
                let (key, inner) = entries[i];
                assert(decreases_to!(trees[i as int] => trees[i as int].1));
                assert(decreases_to!(trees => trees[i as int]));
                assert(decreases_to!(json_of(*value) => json_of(*value)->Object_0));
                list.push((key.clone(), from_value(inner)));
            }
            let json = Json::Object(list);
            assert(json@->Object_0 =~= trees);
            json
        },
    }
}

/// Parses a text as a JSON document. The error is the message of the parser.
pub fn parse_json(text: &str) -> (result: Result<Json, String>)
    ensures
        parsed_json(text@) == (match result {
            Ok(json) => Ok(json@),
            Err(message) => Err(message@),
        }),
{
    match parse_value(text) {
        Ok(value) => Ok(from_value(&value)),
        Err(message) => Err(message),
    }
}

/// What a document that is neither an array nor an object holds.
pub proof fn law_scalars(flag: bool, text: String)
    ensures
        Json::Null.view() == JsonTree::Null,
        Json::Bool(flag).view() == JsonTree::Bool(flag),
        Json::Number.view() == JsonTree::Number,
        Json::Text(text).view() == JsonTree::Text(text@),
{
}

/// What an array and an object hold: each of their items and entries, in order.
pub proof fn law_documents_hold_their_parts(items: Vec<Json>, entries: Vec<(String, Json)>)
    ensures
        Json::Array(items).view() matches JsonTree::Array(trees) && trees.len() == items@.len() && (
        forall|i: int| 0 <= i < items@.len() ==> #[trigger] trees[i] == items@[i].view()),
        Json::Object(entries).view() matches JsonTree::Object(trees) && trees.len()
            == entries@.len() && (forall|i: int|
            0 <= i < entries@.len() ==> #[trigger] trees[i] == (
                entries@[i].0@,
                entries@[i].1.view(),
            )),
{
    lemma_array(Json::Array(items));
    lemma_object(Json::Object(entries));
}

} // verus!
