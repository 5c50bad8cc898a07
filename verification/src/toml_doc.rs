//! TOML documents, as far as the build inputs are read from them.
use crate::sorting::{latest, look_up, names, Keyed};
use crate::text::chars_of;
use toml::Value;
use vstd::prelude::*;

verus! {

/// A value in a TOML document.
#[derive(Debug, PartialEq, Eq)]
pub enum TomlNode {
    Text(String),
    Integer(i64),
    /// A number that is no integer, as decimal text.
    Decimal(String),
    Boolean(bool),
    /// A date or a time, as in RFC 3339.
    Datetime(String),
    List(Vec<TomlNode>),
    Table(Vec<TomlField>),
}

/// A key of a table with its value.
#[derive(Debug, PartialEq, Eq)]
pub struct TomlField {
    pub key: String,
    pub value: TomlNode,
}

/// The mathematical value of a `TomlNode`.
#[verifier::ext_equal]
pub enum TomlShape {
    Text(Seq<char>),
    Integer(i64),
    Decimal(Seq<char>),
    Boolean(bool),
    Datetime(Seq<char>),
    List(Seq<TomlShape>),
    Table(Seq<FieldShape>),
}

/// The mathematical value of a `TomlField`.
#[verifier::ext_equal]
pub struct FieldShape {
    pub key: Seq<char>,
    pub value: TomlShape,
}

/// A text, or what was wrong.
pub open spec fn outcome_text(r: Result<String, String>) -> Result<Seq<char>, Seq<char>> {
    match r {
        Ok(s) => Ok(s@),
        Err(e) => Err(e@),
    }
}

impl TomlNode {
    /// The value of the node.
    pub open spec fn shape(&self) -> TomlShape
        decreases self,
    {
        match self {
            TomlNode::Text(s) => TomlShape::Text(s@),
            TomlNode::Integer(i) => TomlShape::Integer(*i),
            TomlNode::Decimal(s) => TomlShape::Decimal(s@),
            TomlNode::Boolean(b) => TomlShape::Boolean(*b),
            TomlNode::Datetime(s) => TomlShape::Datetime(s@),
            TomlNode::List(list) => TomlShape::List(
                Seq::new(
                    list@.len(),
                    |i: int|
                        if 0 <= i < list@.len() {
                            list@[i].shape()
                        } else {
                            arbitrary()
                        },
                ),
            ),
            TomlNode::Table(fields) => TomlShape::Table(
                Seq::new(
                    fields@.len(),
                    |i: int|
                        if 0 <= i < fields@.len() {
                            FieldShape {
                                key: fields@[i].key@,
                                value: fields@[i].value.shape(),
                            }
                        } else {
                            arbitrary()
                        },
                ),
            ),
        }
    }
}

impl Keyed<char> for TomlField {
    open spec fn key(&self) -> Seq<char> {
        self.key@
    }

    fn symbols(&self) -> (r: Vec<char>) {
        chars_of(&self.key)
    }
}

/// The keys of a table.
pub open spec fn field_names(fields: Seq<FieldShape>) -> Seq<Seq<char>> {
    fields.map_values(|f: FieldShape| f.key)
}

/// The value under a key, where the node is a table that has it.
pub open spec fn field_of(node: TomlShape, key: Seq<char>) -> Option<TomlShape> {
    match node {
        TomlShape::Table(fields) => match latest(field_names(fields), key) {
            Some(i) => Some(fields[i].value),
            None => None,
        },
        _ => None,
    }
}

/// The text that a node holds, where it holds one.
pub open spec fn text_of(node: TomlShape) -> Option<Seq<char>> {
    match node {
        TomlShape::Text(s) => Some(s),
        _ => None,
    }
}

/// The text under a key, where the node is a table that has a text there.
pub open spec fn text_field(node: TomlShape, key: Seq<char>) -> Option<Seq<char>> {
    match field_of(node, key) {
        Some(value) => text_of(value),
        None => None,
    }
}

/// `Value` of the `toml` crate: a value in a TOML document.
#[verifier::external_type_specification]
#[verifier::external_body]
pub struct ExTomlValue(toml::Value);

/// What parsing the text as a TOML document gives: the document, or what is wrong with the text.
pub uninterp spec fn toml_tree(text: Seq<char>) -> Result<TomlShape, Seq<char>>;

/// What `serde_json::to_value` makes of a TOML value, as text, or why it makes nothing of it.
pub uninterp spec fn toml_json(value: TomlShape) -> Result<Seq<char>, Seq<char>>;

/// The contents of a `toml::Value`, one for one. Nothing is claimed of the result.
#[verifier::external_body]
fn toml_node(value: &Value) -> TomlNode {
    match value {
        Value::String(s) => TomlNode::Text(s.clone()),
        Value::Integer(i) => TomlNode::Integer(*i),
        Value::Float(f) => TomlNode::Decimal(f.to_string()),
        Value::Boolean(b) => TomlNode::Boolean(*b),
        Value::Datetime(d) => TomlNode::Datetime(d.to_string()),
        Value::Array(list) => TomlNode::List(list.iter().map(toml_node).collect()),
        Value::Table(t) => TomlNode::Table(
            t.iter().map(|(k, v)| TomlField { key: k.clone(), value: toml_node(v) }).collect(),
        ),
    }
}

/// `toml::from_str` of the `toml` crate, into a `toml::Value`, parses a TOML document, and
/// describes what is wrong with a text that is none. This depends on the text alone.
#[verifier::external_body]
pub(crate) fn read_toml(text: &str) -> (r: Result<TomlNode, String>)
    ensures
        match r {
            Ok(node) => toml_tree(text@) == Ok::<TomlShape, Seq<char>>(node.shape()),
            Err(problem) => toml_tree(text@) == Err::<TomlShape, Seq<char>>(problem@),
        },
{
    toml::from_str::<Value>(text).map(|v| toml_node(&v)).map_err(|e| e.to_string())
}

/// A key with its value, as an entry of a `toml::Table`. Nothing is claimed of the result.
#[verifier::external_body]
fn toml_entry(field: &TomlField) -> Result<(String, Value), String> {
    toml_value(&field.value).map(|v| (field.key.clone(), v))
}

/// The `toml::Value` that a node stands for, or what is wrong with the text of a number or a date
/// in it. Nothing is claimed of the result.
#[verifier::external_body]
fn toml_value(node: &TomlNode) -> Result<Value, String> {
    match node {
        TomlNode::Text(s) => Ok(Value::String(s.clone())),
        TomlNode::Integer(i) => Ok(Value::Integer(*i)),
        TomlNode::Decimal(s) => s.parse().map(Value::Float).map_err(|e| e.to_string()),
        TomlNode::Boolean(b) => Ok(Value::Boolean(*b)),
        TomlNode::Datetime(s) => s.parse().map(Value::Datetime).map_err(|e| e.to_string()),
        TomlNode::List(l) => l.iter().map(toml_value).collect::<Result<_, _>>().map(Value::Array),
        TomlNode::Table(t) => t.iter().map(toml_entry).collect::<Result<_, _>>().map(Value::Table),
    }
}

/// `serde_json::to_value` of the `serde_json` crate writes a TOML value as JSON: its text, or why
/// there is none. A node with a text for a number or a date that is none stands for no value, and
/// gets what is wrong with that text. All of this depends on the node alone.
#[verifier::external_body]
pub(crate) fn value_json(node: &TomlNode) -> (r: Result<String, String>)
    ensures
        outcome_text(r) == toml_json(node.shape()),
{
    let value = toml_value(node)?;
    serde_json::to_value(value).map(|v| v.to_string()).map_err(|e| e.to_string())
}

impl TomlNode {
    /// The value under a key, where the node is a table that has it.
    pub fn get(&self, key: &str) -> (r: Option<&TomlNode>)
        ensures
            match r {
                Some(value) => field_of(self.shape(), key@) == Some(value.shape()),
                None => field_of(self.shape(), key@) is None,
            },
    {
        match self {
            TomlNode::Table(fields) => {
                proof {
                    assert(names::<TomlField, char>(fields@) =~= field_names(
                        self.shape()->Table_0,
                    ));
                }
                match look_up(fields, &chars_of(key)) {
                    Some(i) => Some(&fields[i].value),
                    None => None,
                }
            },
            _ => None,
        }
    }

    /// The text that the node holds, where it holds one.
    pub fn as_str(&self) -> (r: Option<&String>)
        ensures
            match r {
                Some(s) => text_of(self.shape()) == Some(s@),
                None => text_of(self.shape()) is None,
            },
    {
        match self {
            TomlNode::Text(s) => Some(s),
            _ => None,
        }
    }

    /// The text under a key, where the node is a table that has a text there.
    pub fn text_at(&self, key: &str) -> (r: Option<String>)
        ensures
            match r {
                Some(s) => text_field(self.shape(), key@) == Some(s@),
                None => text_field(self.shape(), key@) is None,
            },
    {
        match self.get(key) {
            Some(value) => match value.as_str() {
                Some(s) => Some(s.clone()),
                None => None,
            },
            None => None,
        }
    }
}

} // verus!
