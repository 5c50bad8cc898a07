//! The inventory that a recorded JSON text holds.
use crate::abi::decode::all_of;
use crate::abi::inventory::{
    CaseModel, EventModel, FunctionModel, InventoryModel, ParamModel, TypeModel,
};
use crate::abi::reading_back::{
    case_term, event_term, function_term, inventory_printable, inventory_term,
    inventory_text_is_json, param_term, type_term,
};
use crate::abi::render::inventory_text;
use crate::json_text::{read_document, JsonTerm};
use vstd::prelude::*;

verus! {

/// The value of the first member with the key.
pub open spec fn member_in(members: Seq<(Seq<char>, JsonTerm)>, key: Seq<char>) -> Option<JsonTerm>
    decreases members.len(),
{
    if members.len() == 0 {
        None
    } else if members[0].0 == key {
        Some(members[0].1)
    } else {
        member_in(members.skip(1), key)
    }
}

/// The value under a key, where the value is an object that has it.
pub open spec fn member(value: JsonTerm, key: Seq<char>) -> Option<JsonTerm> {
    match value {
        JsonTerm::Object(members) => member_in(members, key),
        _ => None,
    }
}

/// The text under a key.
pub open spec fn text_at(value: JsonTerm, key: Seq<char>) -> Option<Seq<char>> {
    match member(value, key) {
        Some(JsonTerm::Text(text)) => Some(text),
        _ => None,
    }
}

/// The number under a key, where a `u32` holds it.
pub open spec fn number_under(value: JsonTerm, key: Seq<char>) -> Option<u32> {
    match member(value, key) {
        Some(JsonTerm::Number(n)) => if n <= u32::MAX {
            Some(n as u32)
        } else {
            None
        },
        _ => None,
    }
}

/// The list under a key, where each of its items is what `rule` takes.
pub open spec fn list_at<M>(
    value: JsonTerm,
    key: Seq<char>,
    rule: spec_fn(JsonTerm) -> Option<M>,
) -> Option<Seq<M>> {
    match member(value, key) {
        Some(JsonTerm::List(items)) => all_of(items, rule),
        _ => None,
    }
}

/// The parameter that a JSON value holds.
pub open spec fn param_in(value: JsonTerm) -> Option<ParamModel> {
    match (text_at(value, "name"@), text_at(value, "type"@)) {
        (Some(name), Some(ty)) => Some(ParamModel { name, ty }),
        _ => None,
    }
}

/// The parameters under a key.
pub open spec fn params_at(value: JsonTerm, key: Seq<char>) -> Option<Seq<ParamModel>> {
    list_at(value, key, |v: JsonTerm| param_in(v))
}

/// The error or the enum case that a JSON value holds.
pub open spec fn case_in(value: JsonTerm) -> Option<CaseModel> {
    match (text_at(value, "name"@), number_under(value, "discriminant"@)) {
        (Some(name), Some(discriminant)) => Some(CaseModel { name, discriminant }),
        _ => None,
    }
}

/// The errors or enum cases under a key.
pub open spec fn cases_at(value: JsonTerm, key: Seq<char>) -> Option<Seq<CaseModel>> {
    list_at(value, key, |v: JsonTerm| case_in(v))
}

/// The method that a JSON value holds.
pub open spec fn function_in(value: JsonTerm) -> Option<FunctionModel> {
    match (
        text_at(value, "name"@),
        text_at(value, "auth"@),
        params_at(value, "inputs"@),
        text_at(value, "outputs"@),
    ) {
        (Some(name), Some(auth), Some(inputs), Some(outputs)) => Some(
            FunctionModel { name, auth, inputs, outputs },
        ),
        _ => None,
    }
}

/// The type that a JSON value holds.
pub open spec fn type_in(value: JsonTerm) -> Option<TypeModel> {
    match (
        text_at(value, "name"@),
        text_at(value, "kind"@),
        params_at(value, "fields"@),
        cases_at(value, "cases"@),
    ) {
        (Some(name), Some(kind), Some(fields), Some(cases)) => Some(
            TypeModel { name, kind, fields, cases },
        ),
        _ => None,
    }
}

/// The event that a JSON value holds.
pub open spec fn event_in(value: JsonTerm) -> Option<EventModel> {
    match (
        text_at(value, "name"@),
        params_at(value, "topics"@),
        params_at(value, "data"@),
    ) {
        (Some(name), Some(topics), Some(data)) => Some(EventModel { name, topics, data }),
        _ => None,
    }
}

/// The inventory that a JSON value holds.
pub open spec fn inventory_in(value: JsonTerm) -> Option<InventoryModel> {
    match (
        number_under(value, "abi_version"@),
        list_at(value, "functions"@, |v: JsonTerm| function_in(v)),
        list_at(value, "types"@, |v: JsonTerm| type_in(v)),
        cases_at(value, "errors"@),
        list_at(value, "events"@, |v: JsonTerm| event_in(v)),
    ) {
        (Some(abi_version), Some(functions), Some(types), Some(errors), Some(events)) => Some(
            InventoryModel { abi_version, functions, types, errors, events },
        ),
        _ => None,
    }
}

/// The inventory that a JSON text holds.
pub open spec fn recorded(text: Seq<char>) -> Option<InventoryModel> {
    match read_document(text) {
        Some(value) => inventory_in(value),
        None => None,
    }
}

/// The member at a place has the first key that is its own.
proof fn lemma_member(members: Seq<(Seq<char>, JsonTerm)>, at: int)
    requires
        0 <= at < members.len(),
        forall|j: int| 0 <= j < at ==> (#[trigger] members[j]).0 != members[at].0,
    ensures
        member_in(members, members[at].0) == Some(members[at].1),
    decreases at,
{
    if at > 0 {
        let rest = members.skip(1);
        assert(members[0].0 != members[at].0);
        assert forall|j: int| 0 <= j < at - 1 implies (#[trigger] rest[j]).0 != rest[at - 1].0 by {
            assert(members[j + 1].0 != members[at].0);
        }
        lemma_member(rest, at - 1);
    }
}

/// What was written item by item is taken back item by item.
proof fn lemma_all_of<M>(
    list: Seq<M>,
    write: spec_fn(M) -> JsonTerm,
    take: spec_fn(JsonTerm) -> Option<M>,
)
    requires
        forall|i: int| 0 <= i < list.len() ==> take(write(#[trigger] list[i])) == Some(list[i]),
    ensures
        all_of(list.map_values(write), take) == Some(list),
{
    let items = list.map_values(write);
    assert forall|i: int| 0 <= i < items.len() implies take(#[trigger] items[i]) is Some by {
        assert(take(write(list[i])) == Some(list[i]));
    }
    assert(items.map_values(|a: JsonTerm| take(a).unwrap()) =~= list);
}

/// The keys of a parameter and of a case differ.
proof fn lemma_small_keys()
    ensures
        "name"@ != "type"@,
        "name"@ != "discriminant"@,
{
    reveal_strlit("name");
    reveal_strlit("type");
    reveal_strlit("discriminant");
    assert("name"@[0] != "type"@[0]);
    assert("name"@.len() != "discriminant"@.len());
}

/// The keys of a method, of a type and of an event differ.
proof fn lemma_entry_keys()
    ensures
        "name"@ != "auth"@ && "name"@ != "inputs"@ && "name"@ != "outputs"@,
        "auth"@ != "inputs"@ && "auth"@ != "outputs"@ && "inputs"@ != "outputs"@,
        "name"@ != "kind"@ && "name"@ != "fields"@ && "name"@ != "cases"@,
        "kind"@ != "fields"@ && "kind"@ != "cases"@ && "fields"@ != "cases"@,
        "name"@ != "topics"@ && "name"@ != "data"@ && "topics"@ != "data"@,
{
    reveal_strlit("name");
    reveal_strlit("auth");
    reveal_strlit("inputs");
    reveal_strlit("outputs");
    reveal_strlit("kind");
    reveal_strlit("fields");
    reveal_strlit("cases");
    reveal_strlit("topics");
    reveal_strlit("data");
    assert("name"@[0] == 'n' && "auth"@[0] == 'a' && "kind"@[0] == 'k' && "data"@[0] == 'd');
    assert("inputs"@.len() == 6 && "fields"@.len() == 6 && "topics"@.len() == 6);
    assert("auth"@.len() == 4 && "kind"@.len() == 4 && "data"@.len() == 4 && "name"@.len() == 4);
    assert("outputs"@.len() == 7 && "cases"@.len() == 5);
}

/// The keys of an inventory differ.
proof fn lemma_inventory_keys()
    ensures
        "abi_version"@ != "functions"@ && "abi_version"@ != "types"@,
        "abi_version"@ != "errors"@ && "abi_version"@ != "events"@,
        "functions"@ != "types"@ && "functions"@ != "errors"@ && "functions"@ != "events"@,
        "types"@ != "errors"@ && "types"@ != "events"@ && "errors"@ != "events"@,
{
    reveal_strlit("abi_version");
    reveal_strlit("functions");
    reveal_strlit("types");
    reveal_strlit("errors");
    reveal_strlit("events");
    assert("errors"@[1] == 'r' && "events"@[1] == 'v');
    assert("abi_version"@.len() == 11 && "functions"@.len() == 9 && "types"@.len() == 5);
    assert("errors"@.len() == 6 && "events"@.len() == 6);
}

/// A parameter is taken back from its JSON value.
proof fn lemma_param_back(p: ParamModel)
    ensures
        param_in(param_term(p)) == Some(p),
{
    let members = param_term(p)->Object_0;
    lemma_small_keys();
    lemma_member(members, 0);
    lemma_member(members, 1);
}

/// An error or an enum case is taken back from its JSON value.
proof fn lemma_case_back(c: CaseModel)
    ensures
        case_in(case_term(c)) == Some(c),
{
    let members = case_term(c)->Object_0;
    lemma_small_keys();
    lemma_member(members, 0);
    lemma_member(members, 1);
}

/// Parameters are taken back from their JSON value.
proof fn lemma_params_back(list: Seq<ParamModel>)
    ensures
        all_of(
            list.map_values(|p: ParamModel| param_term(p)),
            |v: JsonTerm| param_in(v),
        ) == Some(list),
{
    let write = |p: ParamModel| param_term(p);
    let take = |v: JsonTerm| param_in(v);
    assert forall|i: int| 0 <= i < list.len() implies take(write(#[trigger] list[i])) == Some(
        list[i],
    ) by {
        lemma_param_back(list[i]);
    }
    lemma_all_of(list, write, take);
}

/// Errors or enum cases are taken back from their JSON value.
proof fn lemma_cases_back(list: Seq<CaseModel>)
    ensures
        all_of(
            list.map_values(|c: CaseModel| case_term(c)),
            |v: JsonTerm| case_in(v),
        ) == Some(list),
{
    let write = |c: CaseModel| case_term(c);
    let take = |v: JsonTerm| case_in(v);
    assert forall|i: int| 0 <= i < list.len() implies take(write(#[trigger] list[i])) == Some(
        list[i],
    ) by {
        lemma_case_back(list[i]);
    }
    lemma_all_of(list, write, take);
}

/// A method is taken back from its JSON value.
proof fn lemma_function_back(f: FunctionModel)
    ensures
        function_in(function_term(f)) == Some(f),
{
    let members = function_term(f)->Object_0;
    lemma_entry_keys();
    lemma_params_back(f.inputs);
    lemma_member(members, 0);
    lemma_member(members, 1);
    lemma_member(members, 2);
    lemma_member(members, 3);
}

/// A type is taken back from its JSON value.
proof fn lemma_type_back(t: TypeModel)
    ensures
        type_in(type_term(t)) == Some(t),
{
    let members = type_term(t)->Object_0;
    lemma_entry_keys();
    lemma_params_back(t.fields);
    lemma_cases_back(t.cases);
    lemma_member(members, 0);
    lemma_member(members, 1);
    lemma_member(members, 2);
    lemma_member(members, 3);
}

/// An event is taken back from its JSON value.
proof fn lemma_event_back(e: EventModel)
    ensures
        event_in(event_term(e)) == Some(e),
{
    let members = event_term(e)->Object_0;
    lemma_entry_keys();
    lemma_params_back(e.topics);
    lemma_params_back(e.data);
    lemma_member(members, 0);
    lemma_member(members, 1);
    lemma_member(members, 2);
}

/// An inventory is taken back from its JSON value.
proof fn lemma_inventory_back(inv: InventoryModel)
    ensures
        inventory_in(inventory_term(inv)) == Some(inv),
{
    let members = inventory_term(inv)->Object_0;
    let f_write = |f: FunctionModel| function_term(f);
    let f_take = |v: JsonTerm| function_in(v);
    let t_write = |t: TypeModel| type_term(t);
    let t_take = |v: JsonTerm| type_in(v);
    let e_write = |e: EventModel| event_term(e);
    let e_take = |v: JsonTerm| event_in(v);
    assert forall|i: int| 0 <= i < inv.functions.len() implies f_take(
        f_write(#[trigger] inv.functions[i]),
    ) == Some(inv.functions[i]) by {
        lemma_function_back(inv.functions[i]);
    }
    assert forall|i: int| 0 <= i < inv.types.len() implies t_take(
        t_write(#[trigger] inv.types[i]),
    ) == Some(inv.types[i]) by {
        lemma_type_back(inv.types[i]);
    }
    assert forall|i: int| 0 <= i < inv.events.len() implies e_take(
        e_write(#[trigger] inv.events[i]),
    ) == Some(inv.events[i]) by {
        lemma_event_back(inv.events[i]);
    }
    lemma_all_of(inv.functions, f_write, f_take);
    lemma_all_of(inv.types, t_write, t_take);
    lemma_cases_back(inv.errors);
    lemma_all_of(inv.events, e_write, e_take);
    lemma_inventory_keys();
    lemma_member(members, 0);
    lemma_member(members, 1);
    lemma_member(members, 2);
    lemma_member(members, 3);
    lemma_member(members, 4);
}

/// Reading the rendered inventory as JSON gives the inventory back, every field of it and all
/// lists in their order, where its texts hold no control characters and its authorization labels
/// no quotes or backslashes: those are not escaped.
pub proof fn rendered_inventory_reads_back(inv: InventoryModel)
    requires
        inventory_printable(inv),
    ensures
        recorded(inventory_text(inv)) == Some(inv),
{
    inventory_text_is_json(inv);
    lemma_inventory_back(inv);
}

} // verus!
