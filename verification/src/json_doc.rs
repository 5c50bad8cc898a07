//! JSON documents, as far as package metadata is read from them.
use crate::sorting::{latest, look_up, names, Keyed};
use crate::text::chars_of;
use vstd::prelude::*;

verus! {

/// A value in a JSON document.
#[derive(Debug, PartialEq, Eq)]
pub enum JsonNode {
    Null,
    Bool(bool),
    Number,
    Text(String),
    List(Vec<JsonNode>),
    Object(Vec<JsonMember>),
}

/// A member of an object.
#[derive(Debug, PartialEq, Eq)]
pub struct JsonMember {
    pub key: String,
    pub value: JsonNode,
}

/// The mathematical value of a `JsonNode`.
#[verifier::ext_equal]
pub enum JsonShape {
    Null,
    Bool(bool),
    Number,
    Text(Seq<char>),
    List(Seq<JsonShape>),
    Object(Seq<(Seq<char>, JsonShape)>),
}

impl JsonNode {
    /// The value of the node.
    pub open spec fn shape(&self) -> JsonShape
        decreases self,
    {
        match self {
            JsonNode::Null => JsonShape::Null,
            JsonNode::Bool(b) => JsonShape::Bool(*b),
            JsonNode::Number => JsonShape::Number,
            JsonNode::Text(s) => JsonShape::Text(s@),
            JsonNode::List(list) => JsonShape::List(
                Seq::new(
                    list@.len(),
                    |i: int|
                        if 0 <= i < list@.len() {
                            list@[i].shape()
                        } else {
                            arbitrary()
                        },
                ),
            ),
            JsonNode::Object(members) => JsonShape::Object(
                Seq::new(
                    members@.len(),
                    |i: int|
                        if 0 <= i < members@.len() {
                            (members@[i].key@, members@[i].value.shape())
                        } else {
                            arbitrary()
                        },
                ),
            ),
        }
    }
}

impl Keyed<char> for JsonMember {
    open spec fn key(&self) -> Seq<char> {
        self.key@
    }

    fn symbols(&self) -> (r: Vec<char>) {
        chars_of(&self.key)
    }
}

/// The keys of an object.
pub open spec fn member_names(members: Seq<(Seq<char>, JsonShape)>) -> Seq<Seq<char>> {
    members.map_values(|m: (Seq<char>, JsonShape)| m.0)
}

/// The value under a key: null, where the node is no object or has no such key.
pub open spec fn member_of(node: JsonShape, key: Seq<char>) -> JsonShape {
    match node {
        JsonShape::Object(members) => match latest(member_names(members), key) {
            Some(i) => members[i].1,
            None => JsonShape::Null,
        },
        _ => JsonShape::Null,
    }
}

/// `Value` of the `serde_json` crate: a value in a JSON document.
#[verifier::external_type_specification]
#[verifier::external_body]
pub struct ExJsonValue(serde_json::Value);

/// What parsing the bytes as a JSON document gives: the document, or what is wrong with them.
pub uninterp spec fn json_tree(bytes: Seq<u8>) -> Result<JsonShape, Seq<char>>;

/// The contents of a `serde_json::Value`, one for one. Nothing is claimed of the result.
#[verifier::external_body]
fn json_node(value: &serde_json::Value) -> JsonNode {
    match value {
        serde_json::Value::Null => JsonNode::Null,
        serde_json::Value::Bool(b) => JsonNode::Bool(*b),
        serde_json::Value::Number(_) => JsonNode::Number,
        serde_json::Value::String(s) => JsonNode::Text(s.clone()),
        serde_json::Value::Array(list) => JsonNode::List(list.iter().map(json_node).collect()),
        serde_json::Value::Object(members) => JsonNode::Object(
            members.iter().map(|(k, v)| JsonMember { key: k.clone(), value: json_node(v) }).collect(),
        ),
    }
}

/// `serde_json::from_slice` of the `serde_json` crate, into a `serde_json::Value`, parses a JSON
/// document, and describes what is wrong with bytes that are none. This depends on the bytes
/// alone.
#[verifier::external_body]
pub(crate) fn read_json(bytes: &[u8]) -> (r: Result<JsonNode, String>)
    ensures
        match r {
            Ok(node) => json_tree(bytes@) == Ok::<JsonShape, Seq<char>>(node.shape()),
            Err(problem) => json_tree(bytes@) == Err::<JsonShape, Seq<char>>(problem@),
        },
{
    serde_json::from_slice::<serde_json::Value>(bytes).map(|v| json_node(&v)).map_err(|e| e.to_string())
}

impl JsonNode {
    /// The value under a key, where the node is an object that has it.
    pub fn get(&self, key: &str) -> (r: Option<&JsonNode>)
        ensures
            match r {
                Some(value) => member_of(self.shape(), key@) == value.shape(),
                None => member_of(self.shape(), key@) is Null,
            },
    {
        match self {
            JsonNode::Object(members) => {
                proof {
                    assert(names::<JsonMember, char>(members@) =~= member_names(
                        self.shape()->Object_0,
                    ));
                }
                match look_up(members, &chars_of(key)) {
                    Some(i) => Some(&members[i].value),
                    None => None,
                }
            },
            _ => None,
        }
    }

    /// The text under a key, where there is one.
    pub fn text_at(&self, key: &str) -> (r: Option<&String>)
        ensures
            match r {
                Some(s) => member_of(self.shape(), key@) == JsonShape::Text(s@),
                None => member_of(self.shape(), key@) !is Text,
            },
    {
        match self.get(key) {
            Some(JsonNode::Text(s)) => Some(s),
            _ => None,
        }
    }

    /// The list under a key, where there is one.
    pub fn list_at(&self, key: &str) -> (r: Option<&Vec<JsonNode>>)
        ensures
            match r {
                Some(list) => member_of(self.shape(), key@) == JsonShape::List(json_shapes(list@)),
                None => member_of(self.shape(), key@) !is List,
            },
    {
        match self.get(key) {
            Some(node) => match node {
                JsonNode::List(list) => {
                    assert(node.shape()->List_0 =~= json_shapes(list@));
                    Some(list)
                },
                _ => None,
            },
            None => None,
        }
    }
}

/// The values of a list of nodes.
pub open spec fn json_shapes(list: Seq<JsonNode>) -> Seq<JsonShape> {
    list.map_values(|n: JsonNode| n.shape())
}

} // verus!
