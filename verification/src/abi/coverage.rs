//! Which methods, types and events an inventory lists, and in which order.
use crate::abi::decode::{
    all_of, entry_rule, event_key, event_rule, function_key, function_rule, inventory_is_in_order,
    inventory_methods_have_their_authorization, inventory_of, inventory_of_bytes, type_key,
    type_rule,
};
use crate::abi::inventory::{auth_entries, auth_label, event_names, function_names, type_names};
use crate::abi::source::declared_names;
use crate::abi::spec_entry::{decoded_entry, EntryShape};
use crate::sorting::{
    ascending, lemma_ascending_unique, lemma_name_list, lemma_reordered, lemma_strictly, name_list,
    same_names,
};
use crate::text::line_list;
use vstd::prelude::*;

verus! {

/// The names that the entries of a specification give to its methods.
pub open spec fn method_names(methods: Seq<EntryShape>) -> Seq<Seq<char>> {
    function_names(all_of(methods, function_rule()).unwrap())
}

/// The methods in the table of authorizations.
pub open spec fn table_names() -> Seq<Seq<char>> {
    auth_entries().map_values(|e: (&'static str, &'static str)| e.0@)
}

/// Where no two methods of a specification share a name, the methods of the inventory are in
/// strictly ascending order, and the like holds of its types and of its events.
pub proof fn inventory_is_strictly_ascending(
    abi_version: u32,
    methods: Seq<EntryShape>,
    type_entries: Seq<EntryShape>,
    error_entry: EntryShape,
    event_entries: Seq<EntryShape>,
)
    ensures
        inventory_of(abi_version, methods, type_entries, error_entry, event_entries) matches Some(
            inv,
        ) ==> {
            &&& method_names(methods).no_duplicates() ==> ascending(function_names(inv.functions))
            &&& type_names(all_of(type_entries, type_rule()).unwrap()).no_duplicates()
                ==> ascending(type_names(inv.types))
            &&& event_names(all_of(event_entries, event_rule()).unwrap()).no_duplicates()
                ==> ascending(event_names(inv.events))
        },
{
    let made = inventory_of(abi_version, methods, type_entries, error_entry, event_entries);
    if made is Some {
        let inv = made.unwrap();
        let f = all_of(methods, function_rule()).unwrap();
        let t = all_of(type_entries, type_rule()).unwrap();
        let e = all_of(event_entries, event_rule()).unwrap();
        inventory_is_in_order(abi_version, methods, type_entries, error_entry, event_entries);
        assert(function_names(f) =~= f.map_values(function_key()));
        assert(function_names(inv.functions) =~= inv.functions.map_values(function_key()));
        assert(type_names(t) =~= t.map_values(type_key()));
        assert(type_names(inv.types) =~= inv.types.map_values(type_key()));
        assert(event_names(e) =~= e.map_values(event_key()));
        assert(event_names(inv.events) =~= inv.events.map_values(event_key()));
        if function_names(f).no_duplicates() {
            lemma_reordered(f, inv.functions, function_key());
            lemma_strictly(function_names(inv.functions));
        }
        if type_names(t).no_duplicates() {
            lemma_reordered(t, inv.types, type_key());
            lemma_strictly(type_names(inv.types));
        }
        if event_names(e).no_duplicates() {
            lemma_reordered(e, inv.events, event_key());
            lemma_strictly(event_names(inv.events));
        }
    }
}

/// Where the methods of a specification have different names, and these are the names of a list,
/// the names of the inventory's methods are that list in ascending order.
proof fn lemma_methods_are_listed(
    abi_version: u32,
    methods: Seq<EntryShape>,
    type_entries: Seq<EntryShape>,
    error_entry: EntryShape,
    event_entries: Seq<EntryShape>,
    listed: Seq<Seq<char>>,
)
    requires
        method_names(methods).no_duplicates(),
        same_names(method_names(methods), listed),
    ensures
        inventory_of(abi_version, methods, type_entries, error_entry, event_entries) matches Some(
            inv,
        ) ==> function_names(inv.functions) == name_list(listed),
{
    let made = inventory_of(abi_version, methods, type_entries, error_entry, event_entries);
    if made is Some {
        let inv = made.unwrap();
        let f = all_of(methods, function_rule()).unwrap();
        let found = function_names(inv.functions);
        inventory_is_in_order(abi_version, methods, type_entries, error_entry, event_entries);
        inventory_is_strictly_ascending(
            abi_version,
            methods,
            type_entries,
            error_entry,
            event_entries,
        );
        assert(function_names(f) =~= f.map_values(function_key()));
        assert(found =~= inv.functions.map_values(function_key()));
        lemma_reordered(f, inv.functions, function_key());
        lemma_name_list(listed);
        assert forall|n: Seq<char>| #[trigger] found.contains(n) <==> name_list(listed).contains(
            n,
        ) by {
            assert(method_names(methods).contains(n) <==> listed.contains(n));
            assert(f.map_values(function_key()).contains(n) <==> found.contains(n));
        }
        lemma_ascending_unique(found, name_list(listed));
    }
}

/// Where a specification lists just the methods in the table of authorizations, each once, the
/// names of the inventory's methods are those of the table, in ascending order.
pub proof fn methods_are_those_of_the_table(
    abi_version: u32,
    methods: Seq<EntryShape>,
    type_entries: Seq<EntryShape>,
    error_entry: EntryShape,
    event_entries: Seq<EntryShape>,
)
    requires
        method_names(methods).no_duplicates(),
        same_names(method_names(methods), table_names()),
    ensures
        inventory_of(abi_version, methods, type_entries, error_entry, event_entries) matches Some(
            inv,
        ) ==> function_names(inv.functions) == name_list(table_names()),
{
    lemma_methods_are_listed(
        abi_version,
        methods,
        type_entries,
        error_entry,
        event_entries,
        table_names(),
    );
}

/// Where a specification lists just the methods that a source text declares, each once, the names
/// of the inventory's methods are the declared ones, in ascending order.
pub proof fn methods_are_those_of_the_source(
    abi_version: u32,
    methods: Seq<EntryShape>,
    type_entries: Seq<EntryShape>,
    error_entry: EntryShape,
    event_entries: Seq<EntryShape>,
    source: Seq<char>,
)
    requires
        method_names(methods).no_duplicates(),
        same_names(method_names(methods), declared_names(line_list(source))),
    ensures
        inventory_of(abi_version, methods, type_entries, error_entry, event_entries) matches Some(
            inv,
        ) ==> function_names(inv.functions) == name_list(declared_names(line_list(source))),
{
    lemma_methods_are_listed(
        abi_version,
        methods,
        type_entries,
        error_entry,
        event_entries,
        declared_names(line_list(source)),
    );
}

/// Where the embedded specification lists just the methods in the table of authorizations, each
/// once, and no type or event twice, the inventory that is made from its bytes lists the methods of
/// the table in ascending order, each with the authorization that the table gives it, and its types
/// and events are ascending too.
pub proof fn embedded_inventory_covers_the_table(
    abi_version: u32,
    methods: Seq<Seq<u8>>,
    type_specs: Seq<Seq<u8>>,
    error_spec: Seq<u8>,
    event_specs: Seq<Seq<u8>>,
)
    requires
        method_names(all_of(methods, entry_rule()).unwrap()).no_duplicates(),
        same_names(method_names(all_of(methods, entry_rule()).unwrap()), table_names()),
        type_names(
            all_of(all_of(type_specs, entry_rule()).unwrap(), type_rule()).unwrap(),
        ).no_duplicates(),
        event_names(
            all_of(all_of(event_specs, entry_rule()).unwrap(), event_rule()).unwrap(),
        ).no_duplicates(),
    ensures
        inventory_of_bytes(abi_version, methods, type_specs, error_spec, event_specs) matches Some(
            inv,
        ) ==> {
            &&& function_names(inv.functions) == name_list(table_names())
            &&& ascending(function_names(inv.functions))
            &&& ascending(type_names(inv.types))
            &&& ascending(event_names(inv.events))
            &&& forall|i: int|
                0 <= i < inv.functions.len() ==> auth_label((#[trigger] inv.functions[i]).name)
                    == Some(inv.functions[i].auth)
        },
{
    let made = inventory_of_bytes(abi_version, methods, type_specs, error_spec, event_specs);
    if made is Some {
        let inv = made.unwrap();
        let f = all_of(methods, entry_rule()).unwrap();
        let t = all_of(type_specs, entry_rule()).unwrap();
        let e = decoded_entry(error_spec).unwrap();
        let v = all_of(event_specs, entry_rule()).unwrap();
        methods_are_those_of_the_table(abi_version, f, t, e, v);
        inventory_is_strictly_ascending(abi_version, f, t, e, v);
        assert forall|i: int| 0 <= i < inv.functions.len() implies auth_label(
            (#[trigger] inv.functions[i]).name,
        ) == Some(inv.functions[i].auth) by {
            inventory_methods_have_their_authorization(abi_version, f, t, e, v, i);
        }
    }
}

} // verus!
