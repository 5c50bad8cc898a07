//! The report on two inventories goes by names, not by places.
use crate::abi::compatibility::{
    absent_names, absent_rule, case_named, changes_between, error_rule, event_named, event_rule,
    method_named, method_rule, type_named, type_rule,
};
use crate::abi::inventory::{
    case_names, event_names, function_names, type_names, CaseModel, EventModel, FunctionModel,
    InventoryModel, TypeModel,
};
use crate::sorting::{
    latest, lemma_latest, lemma_reordered, lemma_same_name_list, name_list, same_names,
};
use vstd::prelude::*;

verus! {

/// No two methods, errors, types or events share a name.
pub open spec fn names_unique(inv: InventoryModel) -> bool {
    &&& function_names(inv.functions).no_duplicates()
    &&& case_names(inv.errors).no_duplicates()
    &&& type_names(inv.types).no_duplicates()
    &&& event_names(inv.events).no_duplicates()
}

/// Both inventories have the same methods, errors, types and events, in any order and under any
/// version.
pub open spec fn same_entries(a: InventoryModel, b: InventoryModel) -> bool {
    &&& a.functions.to_multiset() == b.functions.to_multiset()
    &&& a.errors.to_multiset() == b.errors.to_multiset()
    &&& a.types.to_multiset() == b.types.to_multiset()
    &&& a.events.to_multiset() == b.events.to_multiset()
}

/// The last item of that name.
spec fn found<M>(list: Seq<M>, key: spec_fn(M) -> Seq<char>, n: Seq<char>) -> Option<M> {
    match latest(list.map_values(key), n) {
        Some(i) => Some(list[i]),
        None => None,
    }
}

/// Where names are unique, the item under a name does not depend on the order of the items.
proof fn lemma_found<M>(x: Seq<M>, y: Seq<M>, key: spec_fn(M) -> Seq<char>)
    requires
        x.to_multiset() == y.to_multiset(),
        x.map_values(key).no_duplicates(),
    ensures
        x.len() == y.len(),
        same_names(x.map_values(key), y.map_values(key)),
        name_list(x.map_values(key)) == name_list(y.map_values(key)),
        forall|n: Seq<char>| #[trigger] found(x, key, n) == found(y, key, n),
{
    let a = x.map_values(key);
    let b = y.map_values(key);
    lemma_reordered(x, y, key);
    lemma_same_name_list(a, b);
    assert forall|n: Seq<char>| #[trigger] found(x, key, n) == found(y, key, n) by {
        lemma_latest(a, n);
        lemma_latest(b, n);
        assert(a.contains(n) <==> b.contains(n));
        if let Some(i) = latest(a, n) {
            let j = latest(b, n).unwrap();
            assert(key(x[i]) == a[i] && key(y[j]) == b[j]);
            assert(x[i] == y[j]);
        }
    }
}

/// Lists of the same names have the same names absent from lists of the same names.
proof fn lemma_absent(
    a: Seq<Seq<char>>,
    b: Seq<Seq<char>>,
    other_a: Seq<Seq<char>>,
    other_b: Seq<Seq<char>>,
)
    requires
        same_names(a, other_a),
        same_names(b, other_b),
    ensures
        absent_names(a, b) == absent_names(other_a, other_b),
{
    lemma_same_name_list(a, other_a);
    assert(absent_rule(b) =~= absent_rule(other_b)) by {
        assert forall|n: Seq<char>| #[trigger] absent_rule(b)(n) == absent_rule(other_b)(n) by {
            assert(b.contains(n) <==> other_b.contains(n));
        }
    }
}

/// What changed between two inventories with unique names is reported alike, in the same order,
/// for any order of their lists and for any versions.
pub proof fn report_goes_by_name(
    old_inv: InventoryModel,
    new_inv: InventoryModel,
    other_old: InventoryModel,
    other_new: InventoryModel,
)
    requires
        names_unique(old_inv),
        names_unique(new_inv),
        same_entries(old_inv, other_old),
        same_entries(new_inv, other_new),
    ensures
        changes_between(other_old, other_new) == changes_between(old_inv, new_inv),
{
    let by_function = |f: FunctionModel| f.name;
    let by_case = |c: CaseModel| c.name;
    let by_type = |t: TypeModel| t.name;
    let by_event = |e: EventModel| e.name;
    lemma_found(old_inv.functions, other_old.functions, by_function);
    lemma_found(new_inv.functions, other_new.functions, by_function);
    lemma_found(old_inv.errors, other_old.errors, by_case);
    lemma_found(new_inv.errors, other_new.errors, by_case);
    lemma_found(old_inv.types, other_old.types, by_type);
    lemma_found(new_inv.types, other_new.types, by_type);
    lemma_found(old_inv.events, other_old.events, by_event);
    lemma_found(new_inv.events, other_new.events, by_event);
    lemma_absent(
        function_names(old_inv.functions),
        function_names(new_inv.functions),
        function_names(other_old.functions),
        function_names(other_new.functions),
    );
    lemma_absent(
        function_names(new_inv.functions),
        function_names(old_inv.functions),
        function_names(other_new.functions),
        function_names(other_old.functions),
    );
    lemma_absent(
        case_names(new_inv.errors),
        case_names(old_inv.errors),
        case_names(other_new.errors),
        case_names(other_old.errors),
    );
    assert(method_rule(old_inv.functions, new_inv.functions) =~= method_rule(
        other_old.functions,
        other_new.functions,
    )) by {
        assert forall|n: Seq<char>| #[trigger]
            method_named(old_inv.functions, n) == method_named(other_old.functions, n) by {
            assert(found(old_inv.functions, by_function, n) == found(
                other_old.functions,
                by_function,
                n,
            ));
        }
        assert forall|n: Seq<char>| #[trigger]
            method_named(new_inv.functions, n) == method_named(other_new.functions, n) by {
            assert(found(new_inv.functions, by_function, n) == found(
                other_new.functions,
                by_function,
                n,
            ));
        }
    }
    assert(error_rule(old_inv.errors, new_inv.errors) =~= error_rule(
        other_old.errors,
        other_new.errors,
    )) by {
        assert forall|n: Seq<char>| #[trigger]
            case_named(old_inv.errors, n) == case_named(other_old.errors, n) by {
            assert(found(old_inv.errors, by_case, n) == found(other_old.errors, by_case, n));
        }
        assert forall|n: Seq<char>| #[trigger]
            case_named(new_inv.errors, n) == case_named(other_new.errors, n) by {
            assert(found(new_inv.errors, by_case, n) == found(other_new.errors, by_case, n));
        }
    }
    assert(type_rule(old_inv.types, new_inv.types) =~= type_rule(other_old.types, other_new.types))
        by {
        assert forall|n: Seq<char>| #[trigger]
            type_named(old_inv.types, n) == type_named(other_old.types, n) by {
            assert(found(old_inv.types, by_type, n) == found(other_old.types, by_type, n));
        }
        assert forall|n: Seq<char>| #[trigger]
            type_named(new_inv.types, n) == type_named(other_new.types, n) by {
            assert(found(new_inv.types, by_type, n) == found(other_new.types, by_type, n));
        }
    }
    assert(event_rule(old_inv.events, new_inv.events) =~= event_rule(
        other_old.events,
        other_new.events,
    )) by {
        assert forall|n: Seq<char>| #[trigger]
            event_named(old_inv.events, n) == event_named(other_old.events, n) by {
            assert(found(old_inv.events, by_event, n) == found(other_old.events, by_event, n));
        }
        assert forall|n: Seq<char>| #[trigger]
            event_named(new_inv.events, n) == event_named(other_new.events, n) by {
            assert(found(new_inv.events, by_event, n) == found(other_new.events, by_event, n));
        }
    }
}

} // verus!
