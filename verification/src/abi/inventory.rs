//! The inventory of an interface: methods, types, errors and events.
use crate::sorting::Keyed;
use crate::text::{chars_of, same_text};
use vstd::prelude::*;

verus! {

/// A name with the type that it has: a parameter, a field, a topic.
#[derive(Clone, Debug, PartialEq, Eq)]
pub struct ParamAbi {
    pub name: String,
    pub ty: String,
}

/// A method: its name, who has to authorize it, what it takes and what it returns.
#[derive(Clone, Debug, PartialEq, Eq)]
pub struct FunctionAbi {
    pub name: String,
    pub auth: &'static str,
    pub inputs: Vec<ParamAbi>,
    pub outputs: String,
}

/// A case of an error or of an enum, with its number.
#[derive(Clone, Debug, PartialEq, Eq)]
pub struct ErrorCase {
    pub name: String,
    pub discriminant: u32,
}

/// A user-defined type: a struct with its fields, or an enum with its cases.
#[derive(Clone, Debug, PartialEq, Eq)]
pub struct TypeAbi {
    pub name: String,
    pub kind: String,
    pub fields: Vec<ParamAbi>,
    pub cases: Vec<ErrorCase>,
}

/// An event: its topics and its payload.
#[derive(Clone, Debug, PartialEq, Eq)]
pub struct EventAbi {
    pub name: String,
    pub topics: Vec<ParamAbi>,
    pub data: Vec<ParamAbi>,
}

/// Everything that clients of the contract can see.
#[derive(Clone, Debug, PartialEq, Eq)]
pub struct Inventory {
    pub abi_version: u32,
    pub functions: Vec<FunctionAbi>,
    pub types: Vec<TypeAbi>,
    pub errors: Vec<ErrorCase>,
    pub events: Vec<EventAbi>,
}

/// The mathematical value of a `ParamAbi`.
#[verifier::ext_equal]
pub struct ParamModel {
    pub name: Seq<char>,
    pub ty: Seq<char>,
}

/// The mathematical value of a `FunctionAbi`.
#[verifier::ext_equal]
pub struct FunctionModel {
    pub name: Seq<char>,
    pub auth: Seq<char>,
    pub inputs: Seq<ParamModel>,
    pub outputs: Seq<char>,
}

/// The mathematical value of an `ErrorCase`.
#[verifier::ext_equal]
pub struct CaseModel {
    pub name: Seq<char>,
    pub discriminant: u32,
}

/// The mathematical value of a `TypeAbi`.
#[verifier::ext_equal]
pub struct TypeModel {
    pub name: Seq<char>,
    pub kind: Seq<char>,
    pub fields: Seq<ParamModel>,
    pub cases: Seq<CaseModel>,
}

/// The mathematical value of an `EventAbi`.
#[verifier::ext_equal]
pub struct EventModel {
    pub name: Seq<char>,
    pub topics: Seq<ParamModel>,
    pub data: Seq<ParamModel>,
}

/// The mathematical value of an `Inventory`.
#[verifier::ext_equal]
pub struct InventoryModel {
    pub abi_version: u32,
    pub functions: Seq<FunctionModel>,
    pub types: Seq<TypeModel>,
    pub errors: Seq<CaseModel>,
    pub events: Seq<EventModel>,
}

impl View for ParamAbi {
    type V = ParamModel;

    open spec fn view(&self) -> ParamModel {
        ParamModel { name: self.name@, ty: self.ty@ }
    }
}

/// The values of a list of parameters.
pub open spec fn params(list: Seq<ParamAbi>) -> Seq<ParamModel> {
    list.map_values(|p: ParamAbi| p@)
}

impl View for FunctionAbi {
    type V = FunctionModel;

    open spec fn view(&self) -> FunctionModel {
        FunctionModel {
            name: self.name@,
            auth: self.auth@,
            inputs: params(self.inputs@),
            outputs: self.outputs@,
        }
    }
}

impl View for ErrorCase {
    type V = CaseModel;

    open spec fn view(&self) -> CaseModel {
        CaseModel { name: self.name@, discriminant: self.discriminant }
    }
}

/// The values of a list of cases.
pub open spec fn cases(list: Seq<ErrorCase>) -> Seq<CaseModel> {
    list.map_values(|c: ErrorCase| c@)
}

impl View for TypeAbi {
    type V = TypeModel;

    open spec fn view(&self) -> TypeModel {
        TypeModel {
            name: self.name@,
            kind: self.kind@,
            fields: params(self.fields@),
            cases: cases(self.cases@),
        }
    }
}

impl View for EventAbi {
    type V = EventModel;

    open spec fn view(&self) -> EventModel {
        EventModel { name: self.name@, topics: params(self.topics@), data: params(self.data@) }
    }
}

/// The values of a list of methods.
pub open spec fn functions(list: Seq<FunctionAbi>) -> Seq<FunctionModel> {
    list.map_values(|f: FunctionAbi| f@)
}

/// The values of a list of types.
pub open spec fn types(list: Seq<TypeAbi>) -> Seq<TypeModel> {
    list.map_values(|t: TypeAbi| t@)
}

/// The values of a list of events.
pub open spec fn events(list: Seq<EventAbi>) -> Seq<EventModel> {
    list.map_values(|e: EventAbi| e@)
}

impl View for Inventory {
    type V = InventoryModel;

    open spec fn view(&self) -> InventoryModel {
        InventoryModel {
            abi_version: self.abi_version,
            functions: functions(self.functions@),
            types: types(self.types@),
            errors: cases(self.errors@),
            events: events(self.events@),
        }
    }
}

/// The names of the methods.
pub open spec fn function_names(list: Seq<FunctionModel>) -> Seq<Seq<char>> {
    list.map_values(|f: FunctionModel| f.name)
}

/// The names of the types.
pub open spec fn type_names(list: Seq<TypeModel>) -> Seq<Seq<char>> {
    list.map_values(|t: TypeModel| t.name)
}

/// The names of the cases.
pub open spec fn case_names(list: Seq<CaseModel>) -> Seq<Seq<char>> {
    list.map_values(|c: CaseModel| c.name)
}

/// The names of the events.
pub open spec fn event_names(list: Seq<EventModel>) -> Seq<Seq<char>> {
    list.map_values(|e: EventModel| e.name)
}

impl Keyed<char> for FunctionAbi {
    open spec fn key(&self) -> Seq<char> {
        self.name@
    }

    fn symbols(&self) -> (r: Vec<char>) {
        chars_of(&self.name)
    }
}

impl Keyed<char> for TypeAbi {
    open spec fn key(&self) -> Seq<char> {
        self.name@
    }

    fn symbols(&self) -> (r: Vec<char>) {
        chars_of(&self.name)
    }
}

impl Keyed<char> for ErrorCase {
    open spec fn key(&self) -> Seq<char> {
        self.name@
    }

    fn symbols(&self) -> (r: Vec<char>) {
        chars_of(&self.name)
    }
}

impl Keyed<char> for EventAbi {
    open spec fn key(&self) -> Seq<char> {
        self.name@
    }

    fn symbols(&self) -> (r: Vec<char>) {
        chars_of(&self.name)
    }
}

/// Whether two parameters have the same name and type.
pub fn same_param(a: &ParamAbi, b: &ParamAbi) -> (r: bool)
    ensures
        r == (a@ == b@),
{
    same_text(&a.name, &b.name) && same_text(&a.ty, &b.ty)
}

/// Whether the first `n` parameters of two lists are the same.
pub fn same_params_up_to(a: &[ParamAbi], b: &[ParamAbi], n: usize) -> (r: bool)
    requires
        n <= a@.len(),
        n <= b@.len(),
    ensures
        r == (params(a@).take(n as int) == params(b@).take(n as int)),
{
    for i in 0..n
        invariant
            n <= a@.len(),
            n <= b@.len(),
            params(a@).take(i as int) == params(b@).take(i as int),
    {
        if !same_param(&a[i], &b[i]) {
            assert(params(a@).take(n as int)[i as int] != params(b@).take(n as int)[i as int]);
            return false;
        }
        assert(params(a@).take(i + 1) =~= params(a@).take(i as int).push(a@[i as int]@));
        assert(params(b@).take(i + 1) =~= params(b@).take(i as int).push(b@[i as int]@));
    }
    true
}

/// Whether two lists of parameters are the same.
pub fn same_params(a: &[ParamAbi], b: &[ParamAbi]) -> (r: bool)
    ensures
        r == (params(a@) == params(b@)),
{
    if a.len() != b.len() {
        assert(params(a@).len() != params(b@).len());
        return false;
    }
    assert(params(a@).take(a@.len() as int) =~= params(a@));
    assert(params(b@).take(b@.len() as int) =~= params(b@));
    same_params_up_to(a, b, a.len())
}

/// Whether two lists of cases are the same.
pub fn same_cases(a: &[ErrorCase], b: &[ErrorCase]) -> (r: bool)
    ensures
        r == (cases(a@) == cases(b@)),
{
    if a.len() != b.len() {
        assert(cases(a@).len() != cases(b@).len());
        return false;
    }
    for i in 0..a.len()
        invariant
            a@.len() == b@.len(),
            cases(a@).take(i as int) == cases(b@).take(i as int),
    {
        if a[i].discriminant != b[i].discriminant || !same_text(&a[i].name, &b[i].name) {
            assert(cases(a@)[i as int] != cases(b@)[i as int]);
            return false;
        }
        assert(cases(a@).take(i + 1) =~= cases(a@).take(i as int).push(a@[i as int]@));
        assert(cases(b@).take(i + 1) =~= cases(b@).take(i as int).push(b@[i as int]@));
    }
    assert(cases(a@).take(a@.len() as int) =~= cases(a@));
    assert(cases(b@).take(b@.len() as int) =~= cases(b@));
    true
}

/// A parameter of the given name and type.
pub fn param(name: &str, ty: &str) -> (r: ParamAbi)
    ensures
        r@ == (ParamModel { name: name@, ty: ty@ }),
{
    ParamAbi { name: name.to_string(), ty: ty.to_string() }
}

/// A method of the given name, authorization, parameters and result.
pub fn fn_abi(
    name: &'static str,
    auth: &'static str,
    inputs: Vec<ParamAbi>,
    outputs: &str,
) -> (r: FunctionAbi)
    ensures
        r@ == (FunctionModel {
            name: name@,
            auth: auth@,
            inputs: params(inputs@),
            outputs: outputs@,
        }),
{
    FunctionAbi { name: name.to_string(), auth, inputs, outputs: outputs.to_string() }
}

/// Who has to authorize each method: `"none"` where anyone may call it.
pub open spec fn auth_entries() -> Seq<(&'static str, &'static str)> {
    seq![
        ("create_stream", "sender"),
        ("top_up", "sender"),
        ("cancel", "sender"),
        ("pause", "sender"),
        ("resume", "sender"),
        ("withdraw", "recipient"),
        ("batch_withdraw", "recipient"),
        ("transfer_recipient", "recipient"),
        ("grant_delegate", "grantor"),
        ("revoke_delegate", "grantor"),
        ("delegate_withdraw", "delegate"),
        ("delegate_cancel", "delegate"),
        ("delegate_pause", "delegate"),
        ("delegate_resume", "delegate"),
        ("delegate_top_up", "delegate"),
        ("delegate_transfer_recipient", "delegate"),
        ("get_stream", "none"),
        ("withdrawable_of", "none"),
        ("vested_of", "none"),
        ("refundable_of", "none"),
        ("stream_count", "none"),
        ("stream_exists", "none"),
        ("extend_stream_ttl", "none"),
        ("batch_extend_ttl", "none"),
    ]
}

/// Who has to authorize each method.
pub fn auth_table() -> (r: Vec<(&'static str, &'static str)>)
    ensures
        r@ == auth_entries(),
{
    vec![
        ("create_stream", "sender"),
        ("top_up", "sender"),
        ("cancel", "sender"),
        ("pause", "sender"),
        ("resume", "sender"),
        ("withdraw", "recipient"),
        ("batch_withdraw", "recipient"),
        ("transfer_recipient", "recipient"),
        ("grant_delegate", "grantor"),
        ("revoke_delegate", "grantor"),
        ("delegate_withdraw", "delegate"),
        ("delegate_cancel", "delegate"),
        ("delegate_pause", "delegate"),
        ("delegate_resume", "delegate"),
        ("delegate_top_up", "delegate"),
        ("delegate_transfer_recipient", "delegate"),
        ("get_stream", "none"),
        ("withdrawable_of", "none"),
        ("vested_of", "none"),
        ("refundable_of", "none"),
        ("stream_count", "none"),
        ("stream_exists", "none"),
        ("extend_stream_ttl", "none"),
        ("batch_extend_ttl", "none"),
    ]
}

/// The label of the first entry for `name`.
pub open spec fn label_in(
    entries: Seq<(&'static str, &'static str)>,
    name: Seq<char>,
) -> Option<Seq<char>>
    decreases entries.len(),
{
    if entries.len() == 0 {
        None
    } else if entries[0].0@ == name {
        Some(entries[0].1@)
    } else {
        label_in(entries.skip(1), name)
    }
}

/// Who has to authorize the method `name`, where the table lists it.
pub open spec fn auth_label(name: Seq<char>) -> Option<Seq<char>> {
    label_in(auth_entries(), name)
}

/// The label of a name is that of the first entry that has it.
pub proof fn lemma_label_at(
    entries: Seq<(&'static str, &'static str)>,
    name: Seq<char>,
    at: int,
)
    requires
        0 <= at < entries.len(),
        entries[at].0@ == name,
        forall|j: int| 0 <= j < at ==> (#[trigger] entries[j]).0@ != name,
    ensures
        label_in(entries, name) == Some(entries[at].1@),
    decreases at,
{
    if at > 0 {
        assert(entries[0].0@ != name);
        assert forall|j: int| 0 <= j < at - 1 implies (#[trigger] entries.skip(1)[j]).0@ != name by {
            assert(entries[j + 1].0@ != name);
        }
        lemma_label_at(entries.skip(1), name, at - 1);
    }
}

/// Who has to authorize the method `name`, where the table lists it.
pub fn find_auth(name: &str) -> (r: Option<&'static str>)
    ensures
        match r {
            Some(label) => auth_label(name@) == Some(label@),
            None => auth_label(name@) is None,
        },
{
    let table = auth_table();
    assert(table@.skip(0) == table@);
    for i in 0..table.len()
        invariant
            table@ == auth_entries(),
            auth_label(name@) == label_in(table@.skip(i as int), name@),
    {
        assert(table@.skip(i as int)[0] == table@[i as int]);
        if same_text(table[i].0, name) {
            return Some(table[i].1);
        }
        assert(table@.skip(i as int).skip(1) == table@.skip(i + 1));
    }
    None
}

/// Who has to authorize the method `name`.
pub fn auth_of(name: &str) -> (r: &'static str)
    requires
        auth_label(name@) is Some,
    ensures
        auth_label(name@) == Some(r@),
{
    match find_auth(name) {
        Some(label) => label,
        None => "none",
    }
}

} // verus!
