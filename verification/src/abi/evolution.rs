//! What the compatibility rules promise, over all inventories.
use crate::abi::compatibility::{
    absent_names, absent_rule, added_error_rule, added_method_rule, additive, breaking_details,
    case_named, changes_between, each, error_diff, error_rule, event_diff, event_named, event_rule,
    function_diff, method_named, method_rule, type_diff, type_named, type_rule, verdict,
    ChangeKind, ChangeModel,
};
use crate::abi::inventory::{
    case_names, event_names, function_names, type_names, CaseModel, EventModel, FunctionModel,
    InventoryModel, ParamModel,
};
use crate::sorting::{lemma_latest, lemma_name_list, lemma_precedes_irreflexive, name_list};
use vstd::prelude::*;

verus! {

/// One of the changes is breaking.
pub open spec fn any_breaking(changes: Seq<ChangeModel>) -> bool {
    exists|i: int| 0 <= i < changes.len() && (#[trigger] changes[i]).kind == ChangeKind::Breaking
}

/// Every method of `old` still exists with the same inputs, return type and authorization.
pub open spec fn methods_kept(old: Seq<FunctionModel>, new: Seq<FunctionModel>) -> bool {
    forall|n: Seq<char>| #[trigger]
        function_names(old).contains(n) ==> match (method_named(old, n), method_named(new, n)) {
            (Some(a), Some(b)) => a.inputs == b.inputs && a.outputs == b.outputs && a.auth
                == b.auth,
            _ => false,
        }
}

/// Every error of `old` still exists under the same number.
pub open spec fn errors_kept(old: Seq<CaseModel>, new: Seq<CaseModel>) -> bool {
    forall|n: Seq<char>| #[trigger]
        case_names(old).contains(n) ==> match (case_named(old, n), case_named(new, n)) {
            (Some(a), Some(b)) => a.discriminant == b.discriminant,
            _ => false,
        }
}

/// Every type of `old` still exists with the same fields and cases.
pub open spec fn types_kept(old: InventoryModel, new: InventoryModel) -> bool {
    forall|n: Seq<char>| #[trigger]
        type_names(old.types).contains(n) ==> match (
            type_named(old.types, n),
            type_named(new.types, n),
        ) {
            (Some(a), Some(b)) => a.fields == b.fields && a.cases == b.cases,
            _ => false,
        }
}

/// Every event of `old` still exists with the same topics, and its payload starts as before.
pub open spec fn events_kept(old: Seq<EventModel>, new: Seq<EventModel>) -> bool {
    forall|n: Seq<char>| #[trigger]
        event_names(old).contains(n) ==> match (event_named(old, n), event_named(new, n)) {
            (Some(a), Some(b)) => a.topics == b.topics && a.data.is_prefix_of(b.data),
            _ => false,
        }
}

/// All that a client of `old` can rely on is still there.
pub open spec fn clients_kept(old: InventoryModel, new: InventoryModel) -> bool {
    &&& methods_kept(old.functions, new.functions)
    &&& errors_kept(old.errors, new.errors)
    &&& types_kept(old, new)
    &&& events_kept(old.events, new.events)
}

/// Two lists hold a breaking change exactly if one of them does.
proof fn lemma_any_breaking_both(a: Seq<ChangeModel>, b: Seq<ChangeModel>)
    ensures
        any_breaking(a + b) <==> any_breaking(a) || any_breaking(b),
{
    if any_breaking(a) {
        let i = choose|i: int|
            0 <= i < a.len() && (#[trigger] a[i]).kind == ChangeKind::Breaking;
        assert((a + b)[i] == a[i]);
    }
    if any_breaking(b) {
        let i = choose|i: int|
            0 <= i < b.len() && (#[trigger] b[i]).kind == ChangeKind::Breaking;
        assert((a + b)[a.len() + i] == b[i]);
    }
    if any_breaking(a + b) {
        let i = choose|i: int|
            0 <= i < (a + b).len() && (#[trigger] (a + b)[i]).kind == ChangeKind::Breaking;
        if i < a.len() {
            assert(a[i].kind == ChangeKind::Breaking);
        } else {
            assert(b[i - a.len()].kind == ChangeKind::Breaking);
        }
    }
}

/// The changes of a list of names hold a breaking one exactly if those of some name do.
proof fn lemma_any_breaking_each(
    list: Seq<Seq<char>>,
    f: spec_fn(Seq<char>) -> Seq<ChangeModel>,
)
    ensures
        any_breaking(each(list, f)) <==> exists|n: Seq<char>| #[trigger]
            list.contains(n) && any_breaking(f(n)),
    decreases list.len(),
{
    if list.len() > 0 {
        let front = list.drop_last();
        lemma_any_breaking_each(front, f);
        lemma_any_breaking_both(each(front, f), f(list.last()));
        assert(list.contains(list.last())) by {
            assert(list[list.len() - 1] == list.last());
        }
        assert forall|n: Seq<char>| #[trigger] front.contains(n) implies list.contains(n) by {
            let i = choose|i: int| 0 <= i < front.len() && front[i] == n;
            assert(list[i] == n);
        }
        assert forall|n: Seq<char>| #[trigger] list.contains(n) && n != list.last() implies
            front.contains(n) by {
            let i = choose|i: int| 0 <= i < list.len() && list[i] == n;
            assert(front[i] == n);
        }
        if any_breaking(each(front, f)) {
            let n = choose|n: Seq<char>| #[trigger] front.contains(n) && any_breaking(f(n));
            assert(list.contains(n));
        }
    }
}

/// Nothing comes of a list of names none of which gives anything.
proof fn lemma_each_empty<M>(list: Seq<Seq<char>>, f: spec_fn(Seq<char>) -> Seq<M>)
    requires
        forall|i: int| 0 <= i < list.len() ==> f(#[trigger] list[i]) == Seq::<M>::empty(),
    ensures
        each(list, f) == Seq::<M>::empty(),
    decreases list.len(),
{
    if list.len() > 0 {
        let front = list.drop_last();
        assert forall|i: int| 0 <= i < front.len() implies f(#[trigger] front[i]) == Seq::<
            M,
        >::empty() by {
            assert(front[i] == list[i]);
        }
        lemma_each_empty(front, f);
        assert(f(list[list.len() - 1]) == Seq::<M>::empty());
        assert(each(list, f) =~= Seq::<M>::empty());
    }
}

/// Where one name of the list gives something and no other, that is what comes of the list.
proof fn lemma_each_one<M>(list: Seq<Seq<char>>, f: spec_fn(Seq<char>) -> Seq<M>, k: int)
    requires
        0 <= k < list.len(),
        forall|i: int|
            0 <= i < list.len() && i != k ==> f(#[trigger] list[i]) == Seq::<M>::empty(),
    ensures
        each(list, f) == f(list[k]),
    decreases list.len(),
{
    let front = list.drop_last();
    assert forall|i: int| 0 <= i < front.len() && i != k implies f(#[trigger] front[i]) == Seq::<
        M,
    >::empty() by {
        assert(front[i] == list[i]);
    }
    if k == list.len() - 1 {
        lemma_each_empty(front, f);
        assert(each(list, f) =~= f(list[k]));
    } else {
        lemma_each_one(front, f, k);
        assert(f(list[list.len() - 1]) == Seq::<M>::empty());
        assert(each(list, f) =~= f(list[k]));
    }
}

/// Nothing is absent from a list that holds every name.
pub proof fn lemma_nothing_absent(a: Seq<Seq<char>>, b: Seq<Seq<char>>)
    requires
        forall|n: Seq<char>| #[trigger] a.contains(n) ==> b.contains(n),
    ensures
        absent_names(a, b) == Seq::<Seq<char>>::empty(),
{
    lemma_name_list(a);
    let list = name_list(a);
    assert forall|i: int| 0 <= i < list.len() implies absent_rule(b)(#[trigger] list[i]) == Seq::<
        Seq<char>,
    >::empty() by {
        assert(list.contains(list[i]));
    }
    lemma_each_empty(list, absent_rule(b));
}

/// Where one name is absent and no other, the list of absent names is that one name.
pub proof fn lemma_one_absent(a: Seq<Seq<char>>, b: Seq<Seq<char>>, n: Seq<char>)
    requires
        a.contains(n),
        !b.contains(n),
        forall|m: Seq<char>| #[trigger] a.contains(m) && m != n ==> b.contains(m),
    ensures
        absent_names(a, b) == seq![n],
{
    lemma_name_list(a);
    let list = name_list(a);
    assert(list.contains(n));
    let k = choose|k: int| 0 <= k < list.len() && list[k] == n;
    assert forall|i: int| 0 <= i < list.len() && i != k implies absent_rule(b)(#[trigger] list[i])
        == Seq::<Seq<char>>::empty() by {
        assert(list.contains(list[i]));
        lemma_precedes_irreflexive(n);
        assert(list[i] != list[k]);
    }
    lemma_each_one(list, absent_rule(b), k);
}

/// Every name of a list stands in its list of different names.
proof fn lemma_listed(a: Seq<Seq<char>>)
    ensures
        forall|n: Seq<char>| #[trigger] a.contains(n) ==> name_list(a).contains(n),
        forall|n: Seq<char>| #[trigger] name_list(a).contains(n) ==> a.contains(n),
{
    lemma_name_list(a);
    assert forall|n: Seq<char>| #[trigger] a.contains(n) implies name_list(a).contains(n) by {
        assert(name_list(a).contains(n) <==> a.contains(n));
    }
}

/// There is a breaking change among the methods exactly if a method of `old` was not kept.
proof fn lemma_methods(old: InventoryModel, new: InventoryModel)
    ensures
        any_breaking(function_diff(old, new)) <==> !methods_kept(old.functions, new.functions),
{
    let a = function_names(old.functions);
    let b = function_names(new.functions);
    let rule = method_rule(old.functions, new.functions);
    let removed = absent_names(a, b);
    let added = absent_names(b, a);
    let kept = each(name_list(a), rule);
    let gained = each(added, added_method_rule());
    lemma_listed(a);
    lemma_any_breaking_each(name_list(a), rule);
    lemma_any_breaking_each(added, added_method_rule());
    let renamed = crate::abi::compatibility::renaming(removed, added);
    lemma_any_breaking_both(kept, gained);
    lemma_any_breaking_both(kept + gained, renamed);
    assert forall|n: Seq<char>| #[trigger] a.contains(n) implies (any_breaking(rule(n)) <==> !(match (
        method_named(old.functions, n),
        method_named(new.functions, n),
    ) {
        (Some(a), Some(b)) => a.inputs == b.inputs && a.outputs == b.outputs && a.auth == b.auth,
        _ => false,
    })) by {
        lemma_latest(a, n);
        lemma_latest(b, n);
        let c = rule(n);
        if method_named(new.functions, n) is None {
            assert(c[0].kind == ChangeKind::Breaking);
        } else if c.len() > 0 {
            assert(c[0].kind == ChangeKind::Breaking);
        }
    }
    if any_breaking(renamed) {
        assert(removed.contains(removed[0]));
        if methods_kept(old.functions, new.functions) {
            assert forall|n: Seq<char>| #[trigger] a.contains(n) implies b.contains(n) by {
                lemma_latest(b, n);
            }
            lemma_nothing_absent(a, b);
        }
    }
    assert(!any_breaking(gained)) by {
        assert forall|n: Seq<char>| !any_breaking(#[trigger] added_method_rule()(n)) by {}
    }
}

/// There is a breaking change among the errors exactly if an error of `old` was not kept.
proof fn lemma_errors(old: InventoryModel, new: InventoryModel)
    ensures
        any_breaking(error_diff(old, new)) <==> !errors_kept(old.errors, new.errors),
{
    let a = case_names(old.errors);
    let b = case_names(new.errors);
    let rule = error_rule(old.errors, new.errors);
    let added = absent_names(b, a);
    let kept = each(name_list(a), rule);
    let gained = each(added, added_error_rule());
    lemma_listed(a);
    lemma_any_breaking_each(name_list(a), rule);
    lemma_any_breaking_each(added, added_error_rule());
    lemma_any_breaking_both(kept, gained);
    assert forall|n: Seq<char>| #[trigger] a.contains(n) implies (any_breaking(rule(n)) <==> !(match (
        case_named(old.errors, n),
        case_named(new.errors, n),
    ) {
        (Some(a), Some(b)) => a.discriminant == b.discriminant,
        _ => false,
    })) by {
        lemma_latest(a, n);
        lemma_latest(b, n);
        let c = rule(n);
        if c.len() > 0 {
            assert(c[0].kind == ChangeKind::Breaking);
        }
    }
    assert(!any_breaking(gained)) by {
        assert forall|n: Seq<char>| !any_breaking(#[trigger] added_error_rule()(n)) by {}
    }
}

/// There is a breaking change among the types exactly if a type of `old` was not kept.
proof fn lemma_types(old: InventoryModel, new: InventoryModel)
    ensures
        any_breaking(type_diff(old, new)) <==> !types_kept(old, new),
{
    let a = type_names(old.types);
    let b = type_names(new.types);
    let rule = type_rule(old.types, new.types);
    lemma_listed(a);
    lemma_any_breaking_each(name_list(a), rule);
    assert forall|n: Seq<char>| #[trigger] a.contains(n) implies (any_breaking(rule(n)) <==> !(match (
        type_named(old.types, n),
        type_named(new.types, n),
    ) {
        (Some(a), Some(b)) => a.fields == b.fields && a.cases == b.cases,
        _ => false,
    })) by {
        lemma_latest(a, n);
        lemma_latest(b, n);
        let c = rule(n);
        if c.len() > 0 {
            assert(c[0].kind == ChangeKind::Breaking);
        }
    }
}

/// There is a breaking change among the events exactly if an event of `old` was not kept.
proof fn lemma_events(old: InventoryModel, new: InventoryModel)
    ensures
        any_breaking(event_diff(old, new)) <==> !events_kept(old.events, new.events),
{
    let a = event_names(old.events);
    let b = event_names(new.events);
    let rule = event_rule(old.events, new.events);
    lemma_listed(a);
    lemma_any_breaking_each(name_list(a), rule);
    assert forall|n: Seq<char>| #[trigger] a.contains(n) implies (any_breaking(rule(n)) <==> !(match (
        event_named(old.events, n),
        event_named(new.events, n),
    ) {
        (Some(a), Some(b)) => a.topics == b.topics && a.data.is_prefix_of(b.data),
        _ => false,
    })) by {
        lemma_latest(a, n);
        lemma_latest(b, n);
        let c = rule(n);
        match (event_named(old.events, n), event_named(new.events, n)) {
            (Some(x), Some(y)) => {
                if x.topics != y.topics {
                    assert(c[0].kind == ChangeKind::Breaking);
                } else if !x.data.is_prefix_of(y.data) {
                    assert(c[c.len() - 1].kind == ChangeKind::Breaking);
                }
            },
            _ => {
                assert(c[0].kind == ChangeKind::Breaking);
            },
        }
    }
}

/// A change is breaking exactly if it takes something from the clients of the older interface: a
/// method, its inputs, return type or authorization, an error or its number, a type, its fields
/// or cases, an event, its topics or the start of its payload.
pub proof fn breaking_means_clients_lose(old: InventoryModel, new: InventoryModel)
    ensures
        any_breaking(changes_between(old, new)) <==> !clients_kept(old, new),
{
    lemma_methods(old, new);
    lemma_errors(old, new);
    lemma_types(old, new);
    lemma_events(old, new);
    let m = function_diff(old, new);
    let e = error_diff(old, new);
    let t = type_diff(old, new);
    lemma_any_breaking_both(m, e);
    lemma_any_breaking_both(m + e, t);
    lemma_any_breaking_both(m + e + t, event_diff(old, new));
}

/// There are details of breaking changes exactly if there is a breaking change.
proof fn lemma_breaking_details(changes: Seq<ChangeModel>)
    ensures
        breaking_details(changes).len() > 0 <==> any_breaking(changes),
    decreases changes.len(),
{
    if changes.len() > 0 {
        let front = changes.drop_last();
        lemma_breaking_details(front);
        assert(changes =~= front + seq![changes.last()]);
        lemma_any_breaking_both(front, seq![changes.last()]);
        if changes.last().kind == ChangeKind::Breaking {
            assert(seq![changes.last()][0].kind == ChangeKind::Breaking);
        }
    }
}

/// A newer interface is accepted exactly if its version is higher, or if it has the same version
/// and keeps all that the clients of the older one rely on. In particular a lower version is
/// always refused.
pub proof fn accepted_means_bumped_or_kept(old: InventoryModel, new: InventoryModel)
    ensures
        verdict(old, new) is Ok <==> new.abi_version > old.abi_version || (new.abi_version
            == old.abi_version && clients_kept(old, new)),
{
    breaking_means_clients_lose(old, new);
    lemma_breaking_details(changes_between(old, new));
}

/// An interface is compatible with itself, and nothing has changed in it.
pub proof fn compatible_with_itself(x: InventoryModel)
    ensures
        changes_between(x, x) == Seq::<ChangeModel>::empty(),
        verdict(x, x) is Ok,
{
    let m = function_names(x.functions);
    let e = case_names(x.errors);
    let t = type_names(x.types);
    let v = event_names(x.events);
    lemma_nothing_absent(m, m);
    lemma_nothing_absent(e, e);
    lemma_each_empty(absent_names(m, m), added_method_rule());
    lemma_each_empty(absent_names(e, e), added_error_rule());
    let none = Seq::<ChangeModel>::empty();
    assert forall|i: int| 0 <= i < name_list(m).len() implies method_rule(x.functions, x.functions)(
        #[trigger] name_list(m)[i],
    ) == none by {
        lemma_name_list(m);
        assert(name_list(m).contains(name_list(m)[i]));
        lemma_latest(m, name_list(m)[i]);
        assert(method_rule(x.functions, x.functions)(name_list(m)[i]) =~= none);
    }
    lemma_each_empty(name_list(m), method_rule(x.functions, x.functions));
    assert forall|i: int| 0 <= i < name_list(e).len() implies error_rule(x.errors, x.errors)(
        #[trigger] name_list(e)[i],
    ) == none by {
        lemma_name_list(e);
        assert(name_list(e).contains(name_list(e)[i]));
        lemma_latest(e, name_list(e)[i]);
    }
    lemma_each_empty(name_list(e), error_rule(x.errors, x.errors));
    assert forall|i: int| 0 <= i < name_list(t).len() implies type_rule(x.types, x.types)(
        #[trigger] name_list(t)[i],
    ) == none by {
        lemma_name_list(t);
        assert(name_list(t).contains(name_list(t)[i]));
        lemma_latest(t, name_list(t)[i]);
    }
    lemma_each_empty(name_list(t), type_rule(x.types, x.types));
    assert forall|i: int| 0 <= i < name_list(v).len() implies event_rule(x.events, x.events)(
        #[trigger] name_list(v)[i],
    ) == none by {
        lemma_name_list(v);
        assert(name_list(v).contains(name_list(v)[i]));
        lemma_latest(v, name_list(v)[i]);
        let y = event_named(x.events, name_list(v)[i]);
        assert(y.unwrap().data.is_prefix_of(y.unwrap().data));
        assert(event_rule(x.events, x.events)(name_list(v)[i]) =~= none);
    }
    lemma_each_empty(name_list(v), event_rule(x.events, x.events));
    assert(changes_between(x, x) =~= none);
    lemma_breaking_details(none);
}

/// What a second step keeps of what a first step kept, the two steps together keep.
pub proof fn keeping_clients_is_transitive(a: InventoryModel, b: InventoryModel, c: InventoryModel)
    requires
        clients_kept(a, b),
        clients_kept(b, c),
    ensures
        clients_kept(a, c),
{
    assert forall|n: Seq<char>| #[trigger] function_names(a.functions).contains(n) implies (match (
        method_named(a.functions, n),
        method_named(c.functions, n),
    ) {
        (Some(x), Some(y)) => x.inputs == y.inputs && x.outputs == y.outputs && x.auth == y.auth,
        _ => false,
    }) by {
        lemma_latest(function_names(b.functions), n);
        assert(function_names(b.functions).contains(n));
    }
    assert forall|n: Seq<char>| #[trigger] case_names(a.errors).contains(n) implies (match (
        case_named(a.errors, n),
        case_named(c.errors, n),
    ) {
        (Some(x), Some(y)) => x.discriminant == y.discriminant,
        _ => false,
    }) by {
        lemma_latest(case_names(b.errors), n);
        assert(case_names(b.errors).contains(n));
    }
    assert forall|n: Seq<char>| #[trigger] type_names(a.types).contains(n) implies (match (
        type_named(a.types, n),
        type_named(c.types, n),
    ) {
        (Some(x), Some(y)) => x.fields == y.fields && x.cases == y.cases,
        _ => false,
    }) by {
        lemma_latest(type_names(b.types), n);
        assert(type_names(b.types).contains(n));
    }
    assert forall|n: Seq<char>| #[trigger] event_names(a.events).contains(n) implies (match (
        event_named(a.events, n),
        event_named(c.events, n),
    ) {
        (Some(x), Some(y)) => x.topics == y.topics && x.data.is_prefix_of(y.data),
        _ => false,
    }) by {
        lemma_latest(event_names(b.events), n);
        assert(event_names(b.events).contains(n));
        let x = event_named(a.events, n).unwrap().data;
        let y = event_named(b.events, n).unwrap().data;
        let z = event_named(c.events, n).unwrap().data;
        assert(y =~= z.subrange(0, y.len() as int));
        assert(x =~= y.subrange(0, x.len() as int));
        assert(x =~= z.subrange(0, x.len() as int));
    }
}

/// At the same version, one accepted step after another is an accepted step.
pub proof fn acceptance_is_transitive(a: InventoryModel, b: InventoryModel, c: InventoryModel)
    requires
        a.abi_version == b.abi_version == c.abi_version,
        verdict(a, b) is Ok,
        verdict(b, c) is Ok,
    ensures
        verdict(a, c) is Ok,
{
    accepted_means_bumped_or_kept(a, b);
    accepted_means_bumped_or_kept(b, c);
    keeping_clients_is_transitive(a, b, c);
    accepted_means_bumped_or_kept(a, c);
}

/// A method under a new name is an additive change, the only one that there is, and needs no
/// higher version.
pub proof fn new_method_is_additive(x: InventoryModel, f: FunctionModel)
    requires
        !function_names(x.functions).contains(f.name),
    ensures
        changes_between(x, (InventoryModel { functions: x.functions.push(f), ..x })) == seq![
            additive("added method `"@ + f.name + "`"@),
        ],
        verdict(x, (InventoryModel { functions: x.functions.push(f), ..x })) is Ok,
{
    let y = InventoryModel { functions: x.functions.push(f), ..x };
    let a = function_names(x.functions);
    let b = function_names(y.functions);
    assert(b =~= a.push(f.name));
    assert(b[a.len() as int] == f.name);
    assert forall|n: Seq<char>| #[trigger] a.contains(n) implies b.contains(n) by {
        let i = choose|i: int| 0 <= i < a.len() && a[i] == n;
        assert(b[i] == n);
    }
    assert forall|n: Seq<char>| #[trigger] b.contains(n) && n != f.name implies a.contains(n) by {
        let i = choose|i: int| 0 <= i < b.len() && b[i] == n;
        assert(a[i] == n);
    }
    lemma_nothing_absent(a, b);
    lemma_one_absent(b, a, f.name);
    let rule = method_rule(x.functions, y.functions);
    let none = Seq::<ChangeModel>::empty();
    assert forall|i: int| 0 <= i < name_list(a).len() implies rule(#[trigger] name_list(a)[i])
        == none by {
        let n = name_list(a)[i];
        lemma_name_list(a);
        assert(name_list(a).contains(n));
        lemma_latest(a, n);
        assert(b.drop_last() =~= a);
        assert(method_named(y.functions, n) == method_named(x.functions, n));
        assert(rule(n) =~= none);
    }
    lemma_each_empty(name_list(a), rule);
    lemma_each_one(seq![f.name], added_method_rule(), 0);
    compatible_with_itself(x);
    assert(error_diff(x, x) + type_diff(x, x) + event_diff(x, x) =~= none) by {
        let l = changes_between(x, x).len();
        assert(l == function_diff(x, x).len() + error_diff(x, x).len() + type_diff(x, x).len()
            + event_diff(x, x).len());
    }
    assert(error_diff(x, y) == error_diff(x, x));
    assert(type_diff(x, y) == type_diff(x, x));
    assert(event_diff(x, y) == event_diff(x, x));
    assert(changes_between(x, y) =~= seq![additive("added method `"@ + f.name + "`"@)]);
    reveal_with_fuel(breaking_details, 2);
}

/// An error under a new name is an additive change and needs no higher version. It is the only
/// change, if there were errors before.
pub proof fn new_error_is_additive(x: InventoryModel, c: CaseModel)
    requires
        !case_names(x.errors).contains(c.name),
    ensures
        changes_between(x, (InventoryModel { errors: x.errors.push(c), ..x })) == (
        if x.errors.len() == 0 {
            Seq::<ChangeModel>::empty()
        } else {
            seq![additive("added error `"@ + c.name + "`"@)]
        }),
        verdict(x, (InventoryModel { errors: x.errors.push(c), ..x })) is Ok,
{
    let y = InventoryModel { errors: x.errors.push(c), ..x };
    let a = case_names(x.errors);
    let b = case_names(y.errors);
    assert(b =~= a.push(c.name));
    assert(b[a.len() as int] == c.name);
    assert forall|n: Seq<char>| #[trigger] b.contains(n) && n != c.name implies a.contains(n) by {
        let i = choose|i: int| 0 <= i < b.len() && b[i] == n;
        assert(a[i] == n);
    }
    lemma_one_absent(b, a, c.name);
    let rule = error_rule(x.errors, y.errors);
    let none = Seq::<ChangeModel>::empty();
    assert forall|i: int| 0 <= i < name_list(a).len() implies rule(#[trigger] name_list(a)[i])
        == none by {
        let n = name_list(a)[i];
        lemma_name_list(a);
        assert(name_list(a).contains(n));
        lemma_latest(a, n);
        assert(b.drop_last() =~= a);
        assert(case_named(y.errors, n) == case_named(x.errors, n));
    }
    lemma_each_empty(name_list(a), rule);
    lemma_each_one(seq![c.name], added_error_rule(), 0);
    compatible_with_itself(x);
    assert(function_diff(x, x).len() == 0 && type_diff(x, x).len() == 0 && event_diff(x, x).len()
        == 0) by {
        let l = changes_between(x, x).len();
        assert(l == function_diff(x, x).len() + error_diff(x, x).len() + type_diff(x, x).len()
            + event_diff(x, x).len());
    }
    assert(function_diff(x, y) == function_diff(x, x));
    assert(type_diff(x, y) == type_diff(x, x));
    assert(event_diff(x, y) == event_diff(x, x));
    if x.errors.len() == 0 {
        assert(changes_between(x, y) =~= none);
    } else {
        assert(changes_between(x, y) =~= seq![additive("added error `"@ + c.name + "`"@)]);
    }
    reveal_with_fuel(breaking_details, 2);
}

/// A field at the end of an event payload is an additive change and needs no higher version.
pub proof fn longer_payload_is_additive(x: InventoryModel, i: int, more: Seq<ParamModel>)
    requires
        0 <= i < x.events.len(),
    ensures
        verdict(
            x,
            (InventoryModel {
                events: x.events.update(
                    i,
                    (EventModel { data: x.events[i].data + more, ..x.events[i] }),
                ),
                ..x
            }),
        ) is Ok,
{
    let e = EventModel { data: x.events[i].data + more, ..x.events[i] };
    let y = InventoryModel { events: x.events.update(i, e), ..x };
    let v = event_names(x.events);
    assert(event_names(y.events) =~= v);
    assert forall|n: Seq<char>| #[trigger] function_names(x.functions).contains(n) implies (
    method_named(x.functions, n) is Some) by {
        lemma_latest(function_names(x.functions), n);
    }
    assert forall|n: Seq<char>| #[trigger] case_names(x.errors).contains(n) implies (case_named(
        x.errors,
        n,
    ) is Some) by {
        lemma_latest(case_names(x.errors), n);
    }
    assert forall|n: Seq<char>| #[trigger] type_names(x.types).contains(n) implies (type_named(
        x.types,
        n,
    ) is Some) by {
        lemma_latest(type_names(x.types), n);
    }
    assert forall|n: Seq<char>| #[trigger] v.contains(n) implies (match (
        event_named(x.events, n),
        event_named(y.events, n),
    ) {
        (Some(a), Some(b)) => a.topics == b.topics && a.data.is_prefix_of(b.data),
        _ => false,
    }) by {
        lemma_latest(v, n);
        let a = event_named(x.events, n).unwrap().data;
        let b = event_named(y.events, n).unwrap().data;
        assert(a =~= b.subrange(0, a.len() as int));
    }
    assert(clients_kept(x, y));
    accepted_means_bumped_or_kept(x, y);
}

/// Without a higher version no method may go: neither by removal nor by a new name for it.
pub proof fn lost_method_needs_higher_version(
    old: InventoryModel,
    new: InventoryModel,
    n: Seq<char>,
)
    requires
        new.abi_version <= old.abi_version,
        function_names(old.functions).contains(n),
        !function_names(new.functions).contains(n),
    ensures
        verdict(old, new) is Err,
{
    lemma_latest(function_names(new.functions), n);
    accepted_means_bumped_or_kept(old, new);
}

} // verus!
