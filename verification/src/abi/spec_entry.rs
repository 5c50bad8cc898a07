//! The entries of a contract's specification, as they are embedded in its wasm.
use soroban_sdk::xdr::{
    Limits, ReadXdr, ScSpecEntry, ScSpecEventParamLocationV0, ScSpecTypeDef,
};
use vstd::prelude::*;

verus! {

/// A type in a contract specification.
#[derive(Debug, PartialEq, Eq)]
pub enum SpecType {
    /// The type with this XDR number, applied to its type arguments.
    Of(i32, Vec<SpecType>),
    /// Bytes of a fixed length.
    BytesN(u32),
    /// A type that the contract defines, by the bytes of its name.
    Udt(Vec<u8>),
}

/// The mathematical value of a `SpecType`.
#[verifier::ext_equal]
pub enum TypeShape {
    Of(i32, Seq<TypeShape>),
    BytesN(u32),
    Udt(Seq<u8>),
}

impl SpecType {
    /// The value of the type.
    pub open spec fn shape(&self) -> TypeShape
        decreases self,
    {
        match self {
            SpecType::Of(code, parts) => TypeShape::Of(
                *code,
                Seq::new(
                    parts@.len(),
                    |i: int|
                        if 0 <= i < parts@.len() {
                            parts@[i].shape()
                        } else {
                            arbitrary()
                        },
                ),
            ),
            SpecType::BytesN(n) => TypeShape::BytesN(*n),
            SpecType::Udt(name) => TypeShape::Udt(name@),
        }
    }
}

/// The values of a list of types.
pub open spec fn shapes(list: Seq<SpecType>) -> Seq<TypeShape> {
    list.map_values(|t: SpecType| t.shape())
}

/// A parameter of a method or a field of a struct.
#[derive(Debug, PartialEq, Eq)]
pub struct SpecParam {
    pub name: Vec<u8>,
    pub ty: SpecType,
}

/// A parameter of an event: a topic, or a field of the payload.
#[derive(Debug, PartialEq, Eq)]
pub struct SpecEventParam {
    pub name: Vec<u8>,
    pub ty: SpecType,
    pub is_topic: bool,
}

/// A case of an enum.
#[derive(Debug, PartialEq, Eq)]
pub struct SpecCase {
    pub name: Vec<u8>,
    pub value: u32,
}

/// An entry of a contract specification, without its documentation.
#[derive(Debug, PartialEq, Eq)]
pub enum SpecEntry {
    Function { name: Vec<u8>, inputs: Vec<SpecParam>, outputs: Vec<SpecType> },
    Struct { name: Vec<u8>, fields: Vec<SpecParam> },
    Union,
    Enum { name: Vec<u8>, cases: Vec<SpecCase> },
    ErrorEnum { cases: Vec<SpecCase> },
    Event { name: Vec<u8>, params: Vec<SpecEventParam> },
}

/// The mathematical value of a `SpecParam`.
#[verifier::ext_equal]
pub struct ParamShape {
    pub name: Seq<u8>,
    pub ty: TypeShape,
}

/// The mathematical value of a `SpecEventParam`.
#[verifier::ext_equal]
pub struct EventParamShape {
    pub name: Seq<u8>,
    pub ty: TypeShape,
    pub is_topic: bool,
}

/// The mathematical value of a `SpecCase`.
#[verifier::ext_equal]
pub struct CaseShape {
    pub name: Seq<u8>,
    pub value: u32,
}

/// The mathematical value of a `SpecEntry`.
#[verifier::ext_equal]
pub enum EntryShape {
    Function { name: Seq<u8>, inputs: Seq<ParamShape>, outputs: Seq<TypeShape> },
    Struct { name: Seq<u8>, fields: Seq<ParamShape> },
    Union,
    Enum { name: Seq<u8>, cases: Seq<CaseShape> },
    ErrorEnum { cases: Seq<CaseShape> },
    Event { name: Seq<u8>, params: Seq<EventParamShape> },
}

/// The values of a list of parameters.
pub open spec fn param_shapes(list: Seq<SpecParam>) -> Seq<ParamShape> {
    list.map_values(|p: SpecParam| ParamShape { name: p.name@, ty: p.ty.shape() })
}

/// The values of a list of event parameters.
pub open spec fn event_param_shapes(list: Seq<SpecEventParam>) -> Seq<EventParamShape> {
    list.map_values(
        |p: SpecEventParam|
            EventParamShape { name: p.name@, ty: p.ty.shape(), is_topic: p.is_topic },
    )
}

/// The values of a list of cases.
pub open spec fn case_shapes(list: Seq<SpecCase>) -> Seq<CaseShape> {
    list.map_values(|c: SpecCase| CaseShape { name: c.name@, value: c.value })
}

impl View for SpecEntry {
    type V = EntryShape;

    open spec fn view(&self) -> EntryShape {
        match self {
            SpecEntry::Function { name, inputs, outputs } => EntryShape::Function {
                name: name@,
                inputs: param_shapes(inputs@),
                outputs: shapes(outputs@),
            },
            SpecEntry::Struct { name, fields } => EntryShape::Struct {
                name: name@,
                fields: param_shapes(fields@),
            },
            SpecEntry::Union => EntryShape::Union,
            SpecEntry::Enum { name, cases } => EntryShape::Enum {
                name: name@,
                cases: case_shapes(cases@),
            },
            SpecEntry::ErrorEnum { cases } => EntryShape::ErrorEnum {
                cases: case_shapes(cases@),
            },
            SpecEntry::Event { name, params } => EntryShape::Event {
                name: name@,
                params: event_param_shapes(params@),
            },
        }
    }
}

/// `ScSpecTypeDef` of the `stellar-xdr` crate: a type in a contract specification.
#[verifier::external_type_specification]
#[verifier::external_body]
pub struct ExScSpecTypeDef(ScSpecTypeDef);

/// `ScSpecEntry` of the `stellar-xdr` crate: an entry of a contract specification.
#[verifier::external_type_specification]
#[verifier::external_body]
pub struct ExScSpecEntry(ScSpecEntry);

/// What `ScSpecEntry::from_xdr` reads from the bytes, without limits: nothing where they are not
/// the XDR of exactly one entry.
pub uninterp spec fn decoded_entry(bytes: Seq<u8>) -> Option<EntryShape>;

/// The types that an `ScSpecTypeDef` is applied to, in their order. Nothing is claimed of the
/// result.
#[verifier::external_body]
fn type_parts(t: &ScSpecTypeDef) -> Vec<SpecType> {
    match t {
        ScSpecTypeDef::Option(o) => vec![spec_type(&o.value_type)],
        ScSpecTypeDef::Result(r) => vec![spec_type(&r.ok_type), spec_type(&r.error_type)],
        ScSpecTypeDef::Vec(v) => vec![spec_type(&v.element_type)],
        ScSpecTypeDef::Map(m) => vec![spec_type(&m.key_type), spec_type(&m.value_type)],
        ScSpecTypeDef::Tuple(t) => t.value_types.iter().map(spec_type).collect(),
        _ => vec![],
    }
}

/// The fields of an `ScSpecTypeDef`, one for one, with the number of its variant. Nothing is
/// claimed of the result.
#[verifier::external_body]
fn spec_type(t: &ScSpecTypeDef) -> SpecType {
    match t {
        ScSpecTypeDef::BytesN(b) => SpecType::BytesN(b.n),
        ScSpecTypeDef::Udt(u) => SpecType::Udt(u.name.to_vec()),
        other => SpecType::Of(other.discriminant() as i32, type_parts(other)),
    }
}

/// The fields of an `ScSpecEntry` for an event, one for one. Nothing is claimed of the result.
#[verifier::external_body]
fn event_entry(e: &ScSpecEntry) -> Option<SpecEntry> {
    match e {
        ScSpecEntry::EventV0(v) => Some(SpecEntry::Event {
            name: v.name.to_vec(),
            params: v.params.iter().map(|p| SpecEventParam {
                name: p.name.to_vec(),
                ty: spec_type(&p.type_),
                is_topic: matches!(p.location, ScSpecEventParamLocationV0::TopicList),
            }).collect(),
        }),
        _ => None,
    }
}

/// The fields of an `ScSpecEntry` for an enum, a union or an event, one for one. Nothing is
/// claimed of the result.
#[verifier::external_body]
fn enum_entry(e: &ScSpecEntry) -> Option<SpecEntry> {
    match e {
        ScSpecEntry::UdtEnumV0(e) => Some(SpecEntry::Enum {
            name: e.name.to_vec(),
            cases: e.cases.iter().map(|c| SpecCase { name: c.name.to_vec(), value: c.value }).collect(),
        }),
        ScSpecEntry::UdtErrorEnumV0(e) => Some(SpecEntry::ErrorEnum {
            cases: e.cases.iter().map(|c| SpecCase { name: c.name.to_vec(), value: c.value }).collect(),
        }),
        ScSpecEntry::UdtUnionV0(_) => Some(SpecEntry::Union),
        other => event_entry(other),
    }
}

/// The fields of an `ScSpecEntry`, one for one. Nothing is claimed of the result.
#[verifier::external_body]
fn spec_entry(e: &ScSpecEntry) -> Option<SpecEntry> {
    match e {
        ScSpecEntry::FunctionV0(f) => Some(SpecEntry::Function {
            name: f.name.to_vec(),
            inputs: f.inputs.iter().map(|p| SpecParam { name: p.name.to_vec(), ty: spec_type(&p.type_) }).collect(),
            outputs: f.outputs.iter().map(spec_type).collect(),
        }),
        ScSpecEntry::UdtStructV0(s) => Some(SpecEntry::Struct {
            name: s.name.to_vec(),
            fields: s.fields.iter().map(|f| SpecParam { name: f.name.to_vec(), ty: spec_type(&f.type_) }).collect(),
        }),
        other => enum_entry(other),
    }
}

/// `ScSpecEntry::from_xdr` of the `stellar-xdr` crate reads one entry from its XDR bytes, with no
/// limit on length or depth, and refuses bytes that are not the XDR of exactly one entry. What it
/// reads depends on the bytes alone.
#[verifier::external_body]
pub(crate) fn parse_spec(bytes: &[u8]) -> (r: Option<SpecEntry>)
    ensures
        match r {
            Some(entry) => decoded_entry(bytes@) == Some(entry@),
            None => decoded_entry(bytes@) is None,
        },
{
    ScSpecEntry::from_xdr(bytes, Limits::none()).ok().and_then(|e| spec_entry(&e))
}

} // verus!
