//! What changed between two inventories, and whether clients of the older one still work.
//!
//! A change is additive where it leaves clients of the older interface as they are: a new method,
//! a new error, a new field at the end of an event payload. Anything else that changes is breaking
//! and needs a higher version.
use crate::abi::inventory::{
    case_names, cases, event_names, events, function_names, functions, same_cases, same_params,
    same_params_up_to, type_names, types, CaseModel, ErrorCase, EventAbi, EventModel, FunctionAbi,
    FunctionModel, Inventory, InventoryModel, TypeAbi, TypeModel,
};
use crate::sorting::{
    by_name, is_index, latest, lemma_index_places, lemma_latest, look_up, name_list, names, Keyed,
};
use crate::text::{chars_of, decimal, decimal_text, join, joined, same_text, string_of, texts};
use vstd::prelude::*;

verus! {

/// Whether a change leaves the clients of the older interface as they are.
#[derive(Clone, Copy, Debug, PartialEq, Eq, Structural)]
pub enum ChangeKind {
    Additive,
    Breaking,
}

/// One difference between two inventories.
#[derive(Clone, Debug, PartialEq, Eq)]
pub struct Change {
    pub kind: ChangeKind,
    pub detail: String,
}

/// The mathematical value of a `Change`.
#[verifier::ext_equal]
pub struct ChangeModel {
    pub kind: ChangeKind,
    pub detail: Seq<char>,
}

impl View for Change {
    type V = ChangeModel;

    open spec fn view(&self) -> ChangeModel {
        ChangeModel { kind: self.kind, detail: self.detail@ }
    }
}

/// The values of a list of changes.
pub open spec fn change_list(list: Seq<Change>) -> Seq<ChangeModel> {
    list.map_values(|c: Change| c@)
}

/// A change that breaks clients.
pub open spec fn breaking(detail: Seq<char>) -> ChangeModel {
    ChangeModel { kind: ChangeKind::Breaking, detail }
}

/// A change that leaves clients as they are.
pub open spec fn additive(detail: Seq<char>) -> ChangeModel {
    ChangeModel { kind: ChangeKind::Additive, detail }
}

/// What `f` gives for each name of the list, one after the other.
pub open spec fn each<M>(list: Seq<Seq<char>>, f: spec_fn(Seq<char>) -> Seq<M>) -> Seq<M>
    decreases list.len(),
{
    if list.len() == 0 {
        Seq::empty()
    } else {
        each(list.drop_last(), f) + f(list.last())
    }
}

/// The change, where it happened.
pub open spec fn only_if(happened: bool, change: ChangeModel) -> Seq<ChangeModel> {
    if happened {
        seq![change]
    } else {
        Seq::empty()
    }
}

/// The different names of `a` that `b` does not have, in ascending order.
pub open spec fn absent_names(a: Seq<Seq<char>>, b: Seq<Seq<char>>) -> Seq<Seq<char>> {
    each(name_list(a), absent_rule(b))
}

/// The name itself, where `b` does not have it.
pub open spec fn absent_rule(b: Seq<Seq<char>>) -> spec_fn(Seq<char>) -> Seq<Seq<char>> {
    |n: Seq<char>|
        if b.contains(n) {
            Seq::empty()
        } else {
            seq![n]
        }
}

/// The last method of that name.
pub open spec fn method_named(list: Seq<FunctionModel>, n: Seq<char>) -> Option<FunctionModel> {
    match latest(function_names(list), n) {
        Some(i) => Some(list[i]),
        None => None,
    }
}

/// What changed about the method `n`, which was `prev` before.
pub open spec fn method_changes(
    n: Seq<char>,
    prev: FunctionModel,
    next: Option<FunctionModel>,
) -> Seq<ChangeModel> {
    match next {
        None => seq![breaking("removed method `"@ + n + "`"@)],
        Some(next) => only_if(
            prev.inputs != next.inputs,
            breaking("type-changed method `"@ + n + "` inputs"@),
        ) + only_if(
            prev.outputs != next.outputs,
            breaking("type-changed method `"@ + n + "` return type"@),
        ) + only_if(
            prev.auth != next.auth,
            breaking("authorization changed on `"@ + n + "`"@),
        ),
    }
}

/// What changed about a method of `old`.
pub open spec fn method_rule(old: Seq<FunctionModel>, new: Seq<FunctionModel>) -> spec_fn(
    Seq<char>,
) -> Seq<ChangeModel> {
    |n: Seq<char>|
        match method_named(old, n) {
            Some(prev) => method_changes(n, prev, method_named(new, n)),
            None => Seq::empty(),
        }
}

/// That a method was added.
pub open spec fn added_method_rule() -> spec_fn(Seq<char>) -> Seq<ChangeModel> {
    |n: Seq<char>| seq![additive("added method `"@ + n + "`"@)]
}

/// One method less and one more: clients address methods by name, so this is a rename.
pub open spec fn renaming(removed: Seq<Seq<char>>, added: Seq<Seq<char>>) -> Seq<ChangeModel> {
    only_if(
        removed.len() == 1 && added.len() == 1,
        breaking("renamed method `"@ + removed[0] + "` -> `"@ + added[0] + "`"@),
    )
}

/// What changed about the methods.
pub open spec fn function_diff(old: InventoryModel, new: InventoryModel) -> Seq<ChangeModel> {
    let removed = absent_names(function_names(old.functions), function_names(new.functions));
    let added = absent_names(function_names(new.functions), function_names(old.functions));
    each(name_list(function_names(old.functions)), method_rule(old.functions, new.functions))
        + each(added, added_method_rule()) + renaming(removed, added)
}

/// The last case of that name.
pub open spec fn case_named(list: Seq<CaseModel>, n: Seq<char>) -> Option<CaseModel> {
    match latest(case_names(list), n) {
        Some(i) => Some(list[i]),
        None => None,
    }
}

/// What changed about the error `n`, which was `prev` before.
pub open spec fn error_changes(
    n: Seq<char>,
    prev: CaseModel,
    next: Option<CaseModel>,
) -> Seq<ChangeModel> {
    match next {
        None => seq![breaking("removed error `"@ + n + "`"@)],
        Some(next) => only_if(
            prev.discriminant != next.discriminant,
            breaking(
                "renumbered error `"@ + n + "`: "@ + decimal(prev.discriminant as nat) + " -> "@
                    + decimal(next.discriminant as nat),
            ),
        ),
    }
}

/// What changed about an error of `old`.
pub open spec fn error_rule(old: Seq<CaseModel>, new: Seq<CaseModel>) -> spec_fn(
    Seq<char>,
) -> Seq<ChangeModel> {
    |n: Seq<char>|
        match case_named(old, n) {
            Some(prev) => error_changes(n, prev, case_named(new, n)),
            None => Seq::empty(),
        }
}

/// That an error was added.
pub open spec fn added_error_rule() -> spec_fn(Seq<char>) -> Seq<ChangeModel> {
    |n: Seq<char>| seq![additive("added error `"@ + n + "`"@)]
}

/// What changed about the errors. An older inventory without errors is compared with nothing.
pub open spec fn error_diff(old: InventoryModel, new: InventoryModel) -> Seq<ChangeModel> {
    if old.errors.len() == 0 {
        Seq::empty()
    } else {
        each(name_list(case_names(old.errors)), error_rule(old.errors, new.errors)) + each(
            absent_names(case_names(new.errors), case_names(old.errors)),
            added_error_rule(),
        )
    }
}

/// The last type of that name.
pub open spec fn type_named(list: Seq<TypeModel>, n: Seq<char>) -> Option<TypeModel> {
    match latest(type_names(list), n) {
        Some(i) => Some(list[i]),
        None => None,
    }
}

/// What changed about the type `n`, which was `prev` before.
pub open spec fn type_changes(
    n: Seq<char>,
    prev: TypeModel,
    next: Option<TypeModel>,
) -> Seq<ChangeModel> {
    match next {
        None => seq![breaking("removed type `"@ + n + "`"@)],
        Some(next) => only_if(
            next.fields != prev.fields || next.cases != prev.cases,
            breaking("type-changed UDT `"@ + n + "`"@),
        ),
    }
}

/// What changed about a type of `old`.
pub open spec fn type_rule(old: Seq<TypeModel>, new: Seq<TypeModel>) -> spec_fn(
    Seq<char>,
) -> Seq<ChangeModel> {
    |n: Seq<char>|
        match type_named(old, n) {
            Some(prev) => type_changes(n, prev, type_named(new, n)),
            None => Seq::empty(),
        }
}

/// What changed about the types of the older inventory.
pub open spec fn type_diff(old: InventoryModel, new: InventoryModel) -> Seq<ChangeModel> {
    each(name_list(type_names(old.types)), type_rule(old.types, new.types))
}

/// The last event of that name.
pub open spec fn event_named(list: Seq<EventModel>, n: Seq<char>) -> Option<EventModel> {
    match latest(event_names(list), n) {
        Some(i) => Some(list[i]),
        None => None,
    }
}

/// What changed about the event `n`, which was `prev` before.
pub open spec fn event_changes(
    n: Seq<char>,
    prev: EventModel,
    next: Option<EventModel>,
) -> Seq<ChangeModel> {
    match next {
        None => seq![breaking("removed event `"@ + n + "`"@)],
        Some(next) => only_if(
            next.topics != prev.topics,
            breaking("reordered or changed topics on event `"@ + n + "`"@),
        ) + if !prev.data.is_prefix_of(next.data) {
            seq![breaking("changed event payload `"@ + n + "`"@)]
        } else {
            only_if(
                next.data.len() > prev.data.len(),
                additive("appended event payload fields on `"@ + n + "`"@),
            )
        },
    }
}

/// What changed about an event of `old`.
pub open spec fn event_rule(old: Seq<EventModel>, new: Seq<EventModel>) -> spec_fn(
    Seq<char>,
) -> Seq<ChangeModel> {
    |n: Seq<char>|
        match event_named(old, n) {
            Some(prev) => event_changes(n, prev, event_named(new, n)),
            None => Seq::empty(),
        }
}

/// What changed about the events of the older inventory.
pub open spec fn event_diff(old: InventoryModel, new: InventoryModel) -> Seq<ChangeModel> {
    each(name_list(event_names(old.events)), event_rule(old.events, new.events))
}

/// All that changed.
pub open spec fn changes_between(old: InventoryModel, new: InventoryModel) -> Seq<ChangeModel> {
    function_diff(old, new) + error_diff(old, new) + type_diff(old, new) + event_diff(old, new)
}

/// The details of the breaking changes.
pub open spec fn breaking_details(changes: Seq<ChangeModel>) -> Seq<Seq<char>>
    decreases changes.len(),
{
    if changes.len() == 0 {
        Seq::empty()
    } else if changes.last().kind == ChangeKind::Breaking {
        breaking_details(changes.drop_last()).push(changes.last().detail)
    } else {
        breaking_details(changes.drop_last())
    }
}

/// Whether `new` may follow `old`, and the complaint where it may not.
pub open spec fn verdict(old: InventoryModel, new: InventoryModel) -> Result<(), Seq<char>> {
    let details = breaking_details(changes_between(old, new));
    if new.abi_version < old.abi_version {
        Err(
            "ABI_VERSION downgrade is not allowed ("@ + decimal(old.abi_version as nat) + " -> "@
                + decimal(new.abi_version as nat) + ")"@,
        )
    } else if details.len() > 0 && new.abi_version <= old.abi_version {
        Err(
            "breaking ABI change without ABI_VERSION bump (still "@ + decimal(
                new.abi_version as nat,
            ) + "): "@ + joined(details, "; "@),
        )
    } else {
        Ok(())
    }
}

/// The names of a list of methods are the names of their values.
proof fn lemma_function_names(list: Seq<FunctionAbi>)
    ensures
        names::<FunctionAbi, char>(list) == function_names(functions(list)),
{
    assert(names::<FunctionAbi, char>(list) =~= function_names(functions(list)));
}

/// The names of a list of cases are the names of their values.
proof fn lemma_case_names(list: Seq<ErrorCase>)
    ensures
        names::<ErrorCase, char>(list) == case_names(cases(list)),
{
    assert(names::<ErrorCase, char>(list) =~= case_names(cases(list)));
}

/// The names of a list of types are the names of their values.
proof fn lemma_type_names(list: Seq<TypeAbi>)
    ensures
        names::<TypeAbi, char>(list) == type_names(types(list)),
{
    assert(names::<TypeAbi, char>(list) =~= type_names(types(list)));
}

/// The names of a list of events are the names of their values.
proof fn lemma_event_names(list: Seq<EventAbi>)
    ensures
        names::<EventAbi, char>(list) == event_names(events(list)),
{
    assert(names::<EventAbi, char>(list) =~= event_names(events(list)));
}

/// Appends one change.
fn push_change(changes: &mut Vec<Change>, kind: ChangeKind, before: &str, name: &str, after: &str)
    ensures
        change_list(final(changes)@) == change_list(old(changes)@).push(
            ChangeModel { kind, detail: before@ + name@ + after@ },
        ),
{
    let mut detail = String::new();
    detail.append(before);
    detail.append(name);
    detail.append(after);
    assert(detail@ == before@ + name@ + after@);
    changes.push(Change { kind, detail });
    assert(change_list(changes@) =~= change_list(old(changes)@).push(
        ChangeModel { kind, detail: before@ + name@ + after@ },
    ));
}

/// The different names of `a` that `b` does not have, in ascending order.
fn missing_names<M: Keyed<char>>(a: &[M], b: &[M]) -> (r: Vec<String>)
    ensures
        texts(r@) == absent_names(names::<M, char>(a@), names::<M, char>(b@)),
{
    let ghost a_names = names::<M, char>(a@);
    let ghost b_names = names::<M, char>(b@);
    let ghost list = name_list(a_names);
    let order = by_name::<M, char>(a);
    proof {
        lemma_index_places(order@, a_names);
    }
    let mut r: Vec<String> = Vec::new();
    for k in 0..order.len()
        invariant
            a_names == names::<M, char>(a@),
            b_names == names::<M, char>(b@),
            list == name_list(a_names),
            order@.len() == list.len(),
            forall|j: int|
                0 <= j < order@.len() ==> #[trigger] order@[j] < a@.len() && a_names[order@[j] as int]
                    == list[j],
            texts(r@) == each(list.take(k as int), absent_rule(b_names)),
    {
        let ghost done = texts(r@);
        assert(order@[k as int] < a@.len());
        let name = a[order[k]].symbols();
        assert(name@ == list[k as int]);
        proof {
            lemma_latest(b_names, name@);
            assert(list.take(k + 1).drop_last() == list.take(k as int));
        }
        if look_up(b, &name).is_none() {
            r.push(string_of(&name));
            assert(texts(r@) =~= done + seq![name@]);
        } else {
            assert(texts(r@) =~= done + Seq::empty());
        }
    }
    assert(list.take(order@.len() as int) == list);
    r
}

/// Appends what changed about the methods.
pub fn diff_functions(before: &Inventory, after: &Inventory, changes: &mut Vec<Change>)
    ensures
        change_list(final(changes)@) == change_list(old(changes)@) + function_diff(before@, after@),
{
    let ghost start = change_list(changes@);
    let ghost was = before@.functions;
    let ghost now = after@.functions;
    let ghost list = name_list(function_names(was));
    let ghost rule = method_rule(was, now);
    let order = by_name::<FunctionAbi, char>(&before.functions);
    proof {
        lemma_function_names(before.functions@);
        lemma_function_names(after.functions@);
        lemma_index_places(order@, function_names(was));
    }
    for k in 0..order.len()
        invariant
            was == before@.functions,
            now == after@.functions,
            list == name_list(function_names(was)),
            rule == method_rule(was, now),
            is_index(order@, function_names(was)),
            names::<FunctionAbi, char>(after.functions@) == function_names(now),
            forall|j: int|
                0 <= j < order@.len() ==> #[trigger] order@[j] < was.len()
                    && function_names(was)[order@[j] as int] == list[j],
            change_list(changes@) == start + each(list.take(k as int), rule),
    {
        let ghost so_far = change_list(changes@);
        assert(order@[k as int] < was.len());
        let prev = &before.functions[order[k]];
        let name: &str = &prev.name;
        proof {
            assert(prev@ == was[order@[k as int] as int]);
            assert(name@ == list[k as int]);
            assert(latest(function_names(was), list[k as int]) == Some(order@[k as int] as int));
            assert(list.take(k + 1).drop_last() == list.take(k as int));
        }
        match look_up(&after.functions, &chars_of(name)) {
            None => {
                push_change(changes, ChangeKind::Breaking, "removed method `", name, "`");
            },
            Some(j) => {
                let next = &after.functions[j];
                assert(next@ == now[j as int]);
                if !same_params(&prev.inputs, &next.inputs) {
                    push_change(
                        changes,
                        ChangeKind::Breaking,
                        "type-changed method `",
                        name,
                        "` inputs",
                    );
                }
                if !same_text(&prev.outputs, &next.outputs) {
                    push_change(
                        changes,
                        ChangeKind::Breaking,
                        "type-changed method `",
                        name,
                        "` return type",
                    );
                }
                if !same_text(prev.auth, next.auth) {
                    push_change(
                        changes,
                        ChangeKind::Breaking,
                        "authorization changed on `",
                        name,
                        "`",
                    );
                }
            },
        }
        assert(change_list(changes@) =~= so_far + rule(list[k as int]));
        assert(change_list(changes@) =~= start + each(list.take(k + 1), rule));
    }
    assert(list.take(order@.len() as int) == list);
    let ghost kept = change_list(changes@);
    let removed = missing_names::<FunctionAbi>(&before.functions, &after.functions);
    let added = missing_names::<FunctionAbi>(&after.functions, &before.functions);
    let ghost added_list = absent_names(function_names(now), function_names(was));
    for k in 0..added.len()
        invariant
            texts(added@) == added_list,
            change_list(changes@) == kept + each(added_list.take(k as int), added_method_rule()),
    {
        let ghost so_far = change_list(changes@);
        assert(added@[k as int]@ == added_list[k as int]);
        push_change(changes, ChangeKind::Additive, "added method `", &added[k], "`");
        assert(added_list.take(k + 1).drop_last() == added_list.take(k as int));
        assert(change_list(changes@) =~= kept + each(added_list.take(k + 1), added_method_rule()));
    }
    assert(added_list.take(added@.len() as int) == added_list);
    let ghost so_far = change_list(changes@);
    if removed.len() == 1 && added.len() == 1 {
        let mut detail = String::new();
        detail.append("renamed method `");
        detail.append(&removed[0]);
        detail.append("` -> `");
        detail.append(&added[0]);
        assert(texts(removed@)[0] == removed@[0]@);
        assert(texts(added@)[0] == added@[0]@);
        push_change(changes, ChangeKind::Breaking, "", &detail, "`");
        proof {
            reveal_strlit("");
            assert(""@ + detail@ + "`"@ =~= detail@ + "`"@);
        }
    }
    assert(change_list(changes@) =~= start + function_diff(before@, after@));
}

/// Appends what changed about the errors.
pub fn diff_errors(before: &Inventory, after: &Inventory, changes: &mut Vec<Change>)
    ensures
        change_list(final(changes)@) == change_list(old(changes)@) + error_diff(before@, after@),
{
    if before.errors.len() == 0 {
        return;
    }
    let ghost start = change_list(changes@);
    let ghost was = before@.errors;
    let ghost now = after@.errors;
    let ghost list = name_list(case_names(was));
    let ghost rule = error_rule(was, now);
    let order = by_name::<ErrorCase, char>(&before.errors);
    proof {
        lemma_case_names(before.errors@);
        lemma_case_names(after.errors@);
        lemma_index_places(order@, case_names(was));
    }
    for k in 0..order.len()
        invariant
            was == before@.errors,
            now == after@.errors,
            list == name_list(case_names(was)),
            rule == error_rule(was, now),
            is_index(order@, case_names(was)),
            names::<ErrorCase, char>(after.errors@) == case_names(now),
            forall|j: int|
                0 <= j < order@.len() ==> #[trigger] order@[j] < was.len()
                    && case_names(was)[order@[j] as int] == list[j],
            change_list(changes@) == start + each(list.take(k as int), rule),
    {
        let ghost so_far = change_list(changes@);
        assert(order@[k as int] < was.len());
        let prev = &before.errors[order[k]];
        let name: &str = &prev.name;
        proof {
            assert(prev@ == was[order@[k as int] as int]);
            assert(name@ == list[k as int]);
            assert(latest(case_names(was), list[k as int]) == Some(order@[k as int] as int));
            assert(list.take(k + 1).drop_last() == list.take(k as int));
        }
        match look_up(&after.errors, &chars_of(name)) {
            None => {
                push_change(changes, ChangeKind::Breaking, "removed error `", name, "`");
            },
            Some(j) => {
                let next = &after.errors[j];
                assert(next@ == now[j as int]);
                if prev.discriminant != next.discriminant {
                    let mut numbers = String::new();
                    numbers.append("`: ");
                    numbers.append(&decimal_text(prev.discriminant as u128));
                    numbers.append(" -> ");
                    numbers.append(&decimal_text(next.discriminant as u128));
                    push_change(
                        changes,
                        ChangeKind::Breaking,
                        "renumbered error `",
                        name,
                        &numbers,
                    );
                    assert("renumbered error `"@ + name@ + numbers@ =~= "renumbered error `"@
                        + name@ + "`: "@ + decimal(prev.discriminant as nat) + " -> "@ + decimal(
                        next.discriminant as nat,
                    ));
                }
            },
        }
        assert(change_list(changes@) =~= so_far + rule(list[k as int]));
        assert(change_list(changes@) =~= start + each(list.take(k + 1), rule));
    }
    assert(list.take(order@.len() as int) == list);
    let ghost kept = change_list(changes@);
    let added = missing_names::<ErrorCase>(&after.errors, &before.errors);
    let ghost added_list = absent_names(case_names(now), case_names(was));
    for k in 0..added.len()
        invariant
            texts(added@) == added_list,
            change_list(changes@) == kept + each(added_list.take(k as int), added_error_rule()),
    {
        assert(added@[k as int]@ == added_list[k as int]);
        push_change(changes, ChangeKind::Additive, "added error `", &added[k], "`");
        assert(added_list.take(k + 1).drop_last() == added_list.take(k as int));
        assert(change_list(changes@) =~= kept + each(added_list.take(k + 1), added_error_rule()));
    }
    assert(added_list.take(added@.len() as int) == added_list);
    assert(change_list(changes@) =~= start + error_diff(before@, after@));
}

/// Appends what changed about the types.
pub fn diff_types(before: &Inventory, after: &Inventory, changes: &mut Vec<Change>)
    ensures
        change_list(final(changes)@) == change_list(old(changes)@) + type_diff(before@, after@),
{
    if before.types.len() == 0 {
        assert(name_list(type_names(before@.types)).len() == 0);
        assert(change_list(changes@) =~= change_list(changes@) + type_diff(before@, after@));
        return;
    }
    let ghost start = change_list(changes@);
    let ghost was = before@.types;
    let ghost now = after@.types;
    let ghost list = name_list(type_names(was));
    let ghost rule = type_rule(was, now);
    let order = by_name::<TypeAbi, char>(&before.types);
    proof {
        lemma_type_names(before.types@);
        lemma_type_names(after.types@);
        lemma_index_places(order@, type_names(was));
    }
    for k in 0..order.len()
        invariant
            was == before@.types,
            now == after@.types,
            list == name_list(type_names(was)),
            rule == type_rule(was, now),
            is_index(order@, type_names(was)),
            names::<TypeAbi, char>(after.types@) == type_names(now),
            forall|j: int|
                0 <= j < order@.len() ==> #[trigger] order@[j] < was.len()
                    && type_names(was)[order@[j] as int] == list[j],
            change_list(changes@) == start + each(list.take(k as int), rule),
    {
        let ghost so_far = change_list(changes@);
        assert(order@[k as int] < was.len());
        let prev = &before.types[order[k]];
        let name: &str = &prev.name;
        proof {
            assert(prev@ == was[order@[k as int] as int]);
            assert(name@ == list[k as int]);
            assert(latest(type_names(was), list[k as int]) == Some(order@[k as int] as int));
            assert(list.take(k + 1).drop_last() == list.take(k as int));
        }
        match look_up(&after.types, &chars_of(name)) {
            None => {
                push_change(changes, ChangeKind::Breaking, "removed type `", name, "`");
            },
            Some(j) => {
                let next = &after.types[j];
                assert(next@ == now[j as int]);
                if !same_params(&next.fields, &prev.fields) || !same_cases(
                    &next.cases,
                    &prev.cases,
                ) {
                    push_change(changes, ChangeKind::Breaking, "type-changed UDT `", name, "`");
                }
            },
        }
        assert(change_list(changes@) =~= so_far + rule(list[k as int]));
        assert(change_list(changes@) =~= start + each(list.take(k + 1), rule));
    }
    assert(list.take(order@.len() as int) == list);
}

/// Appends what changed about the events.
pub fn diff_events(before: &Inventory, after: &Inventory, changes: &mut Vec<Change>)
    ensures
        change_list(final(changes)@) == change_list(old(changes)@) + event_diff(before@, after@),
{
    if before.events.len() == 0 {
        assert(name_list(event_names(before@.events)).len() == 0);
        assert(change_list(changes@) =~= change_list(changes@) + event_diff(before@, after@));
        return;
    }
    let ghost start = change_list(changes@);
    let ghost was = before@.events;
    let ghost now = after@.events;
    let ghost list = name_list(event_names(was));
    let ghost rule = event_rule(was, now);
    let order = by_name::<EventAbi, char>(&before.events);
    proof {
        lemma_event_names(before.events@);
        lemma_event_names(after.events@);
        lemma_index_places(order@, event_names(was));
    }
    for k in 0..order.len()
        invariant
            was == before@.events,
            now == after@.events,
            list == name_list(event_names(was)),
            rule == event_rule(was, now),
            is_index(order@, event_names(was)),
            names::<EventAbi, char>(after.events@) == event_names(now),
            forall|j: int|
                0 <= j < order@.len() ==> #[trigger] order@[j] < was.len()
                    && event_names(was)[order@[j] as int] == list[j],
            change_list(changes@) == start + each(list.take(k as int), rule),
    {
        let ghost so_far = change_list(changes@);
        assert(order@[k as int] < was.len());
        let prev = &before.events[order[k]];
        let name: &str = &prev.name;
        proof {
            assert(prev@ == was[order@[k as int] as int]);
            assert(name@ == list[k as int]);
            assert(latest(event_names(was), list[k as int]) == Some(order@[k as int] as int));
            assert(list.take(k + 1).drop_last() == list.take(k as int));
        }
        match look_up(&after.events, &chars_of(name)) {
            None => {
                push_change(changes, ChangeKind::Breaking, "removed event `", name, "`");
            },
            Some(j) => {
                let next = &after.events[j];
                assert(next@ == now[j as int]);
                if !same_params(&next.topics, &prev.topics) {
                    push_change(
                        changes,
                        ChangeKind::Breaking,
                        "reordered or changed topics on event `",
                        name,
                        "`",
                    );
                }
                let had: usize = prev.data.len();
                let has: usize = next.data.len();
                proof {
                    let a = prev@.data;
                    let b = next@.data;
                    assert(a.take(had as int) =~= a);
                    assert(had <= has ==> (a.is_prefix_of(b) <==> b.take(had as int) == a));
                }
                if has < had || !same_params_up_to(&next.data, &prev.data, had) {
                    push_change(
                        changes,
                        ChangeKind::Breaking,
                        "changed event payload `",
                        name,
                        "`",
                    );
                } else if has > had {
                    push_change(
                        changes,
                        ChangeKind::Additive,
                        "appended event payload fields on `",
                        name,
                        "`",
                    );
                }
            },
        }
        assert(change_list(changes@) =~= so_far + rule(list[k as int]));
        assert(change_list(changes@) =~= start + each(list.take(k + 1), rule));
    }
    assert(list.take(order@.len() as int) == list);
}

/// All that changed from one inventory to the other.
pub fn diff(before: &Inventory, after: &Inventory) -> (r: Vec<Change>)
    ensures
        change_list(r@) == changes_between(before@, after@),
{
    let mut changes: Vec<Change> = Vec::new();
    assert(change_list(changes@) =~= Seq::empty());
    diff_functions(before, after, &mut changes);
    diff_errors(before, after, &mut changes);
    diff_types(before, after, &mut changes);
    diff_events(before, after, &mut changes);
    assert(change_list(changes@) =~= changes_between(before@, after@));
    changes
}

/// Whether the later inventory may follow the earlier one.
///
/// A lower version is never accepted. At the same version every change must be additive. A higher
/// version accepts any change.
pub fn check_compatibility(before: &Inventory, after: &Inventory) -> (r: Result<(), String>)
    ensures
        match r {
            Ok(()) => verdict(before@, after@) is Ok,
            Err(text) => verdict(before@, after@) == Err::<(), Seq<char>>(text@),
        },
{
    if after.abi_version < before.abi_version {
        let mut text = String::new();
        text.append("ABI_VERSION downgrade is not allowed (");
        text.append(&decimal_text(before.abi_version as u128));
        text.append(" -> ");
        text.append(&decimal_text(after.abi_version as u128));
        text.append(")");
        return Err(text);
    }
    let changes = diff(before, after);
    let ghost all = changes_between(before@, after@);
    let mut details: Vec<String> = Vec::new();
    for k in 0..changes.len()
        invariant
            change_list(changes@) == all,
            texts(details@) == breaking_details(all.take(k as int)),
    {
        let ghost so_far = texts(details@);
        assert(all.take(k + 1).drop_last() == all.take(k as int));
        assert(all[k as int] == changes@[k as int]@);
        if changes[k].kind == ChangeKind::Breaking {
            details.push(changes[k].detail.clone());
            assert(texts(details@) =~= so_far.push(all[k as int].detail));
        }
    }
    assert(all.take(changes@.len() as int) == all);
    if details.len() > 0 && after.abi_version <= before.abi_version {
        let mut text = String::new();
        text.append("breaking ABI change without ABI_VERSION bump (still ");
        text.append(&decimal_text(after.abi_version as u128));
        text.append("): ");
        text.append(&join(&details, "; "));
        return Err(text);
    }
    Ok(())
}

} // verus!
