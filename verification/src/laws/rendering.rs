//! How an inventory is laid out as text.
use crate::abi::inventory::{
    CaseModel, EventModel, FunctionModel, InventoryModel, ParamModel, TypeModel,
};
use crate::abi::render::{
    block, case_block, case_row, escaped, event_rows, function_rows, inventory_text, param_block,
    param_row, type_rows,
};
use crate::text::{decimal, joined};
use vstd::prelude::*;

verus! {

/// A backslash stands before each backslash and each double quote, and every other character stands
/// for itself, wherever it stands.
pub proof fn escaping_goes_by_character(a: Seq<char>, c: char, b: Seq<char>)
    ensures
        escaped(Seq::empty()) == Seq::<char>::empty(),
        escaped(a + seq![c] + b) == escaped(a) + (if c == '\\' || c == '"' {
            seq!['\\', c]
        } else {
            seq![c]
        }) + escaped(b),
    decreases b.len(),
{
    let all = a + seq![c] + b;
    if b.len() == 0 {
        assert(all =~= a.push(c));
        assert(a.push(c).drop_last() =~= a);
    } else {
        escaping_goes_by_character(a, c, b.drop_last());
        assert(all.drop_last() =~= a + seq![c] + b.drop_last());
        assert(all.last() == b.last());
    }
}

/// A block of rows is a line for each row, with a comma behind each but the last.
pub proof fn blocks_are_rows_with_commas(rows: Seq<Seq<char>>, row: Seq<char>)
    ensures
        block(Seq::empty()) == Seq::<char>::empty(),
        block(seq![row]) == row + seq!['\n'],
        rows.len() > 0 ==> block(rows.push(row)) == block(rows).drop_last() + seq![',', '\n'] + row
            + seq!['\n'],
{
    reveal_strlit(",\n");
    reveal_strlit("\n");
    assert(",\n"@ =~= seq![',', '\n']);
    assert("\n"@ =~= seq!['\n']);
    reveal_with_fuel(joined, 2);
    assert(seq![row].drop_last() =~= Seq::<Seq<char>>::empty());
    assert(joined(seq![row], ",\n"@) =~= row);
    if rows.len() > 0 {
        assert(rows.push(row).drop_last() =~= rows);
        assert(block(rows).drop_last() =~= joined(rows, ",\n"@));
    }
}

/// A parameter is a row with its name and its type, a case one with its name and its number.
pub proof fn rows_show_their_item(indent: Seq<char>, p: ParamModel, c: CaseModel)
    ensures
        param_row(p) == "        {\"name\": \""@ + escaped(p.name) + "\", \"type\": \""@ + escaped(p.ty)
            + "\"}"@,
        case_row(indent, c) == indent + "{\"name\": \""@ + escaped(c.name) + "\", \"discriminant\": "@
            + decimal(c.discriminant as nat) + "}"@,
{
}

/// A list is a block with a row for each of its items, in order.
pub proof fn lists_are_blocks(
    params: Seq<ParamModel>,
    rows: Seq<Seq<char>>,
    cases: Seq<CaseModel>,
    lines: Seq<Seq<char>>,
    indent: Seq<char>,
)
    requires
        rows.len() == params.len(),
        forall|i: int| 0 <= i < rows.len() ==> #[trigger] rows[i] == param_row(params[i]),
        lines.len() == cases.len(),
        forall|i: int| 0 <= i < lines.len() ==> #[trigger] lines[i] == case_row(indent, cases[i]),
    ensures
        param_block(params) == block(rows),
        case_block(indent, cases) == block(lines),
{
    assert(params.map_values(|p: ParamModel| param_row(p)) =~= rows);
    assert(cases.map_values(|c: CaseModel| case_row(indent, c)) =~= lines);
}

/// A method shows its name, its authorization, its inputs and its return type, a type its name, its
/// kind, its fields and its cases, an event its name, its topics and its payload, in that order.
pub proof fn entries_show_their_parts(f: FunctionModel, t: TypeModel, e: EventModel)
    ensures
        function_rows(f) == "    {\n      \"name\": \""@ + escaped(f.name)
            + "\",\n      \"auth\": \""@ + f.auth + "\",\n      \"inputs\": [\n"@ + param_block(f.inputs)
            + "      ],\n      \"outputs\": \""@ + escaped(f.outputs) + "\"\n    }"@,
        type_rows(t) == "    {\n      \"name\": \""@ + escaped(t.name) + "\",\n      \"kind\": \""@
            + escaped(t.kind) + "\",\n      \"fields\": [\n"@ + param_block(t.fields)
            + "      ],\n      \"cases\": [\n"@ + case_block("        "@, t.cases)
            + "      ]\n    }"@,
        event_rows(e) == "    {\n      \"name\": \""@ + escaped(e.name)
            + "\",\n      \"topics\": [\n"@ + param_block(e.topics) + "      ],\n      \"data\": [\n"@
            + param_block(e.data) + "      ]\n    }"@,
{
}

/// An inventory shows its version, its methods, its types, its errors and its events, in that
/// order, each list in a block.
pub proof fn inventories_show_their_parts(
    inv: InventoryModel,
    methods: Seq<Seq<char>>,
    type_list: Seq<Seq<char>>,
    events: Seq<Seq<char>>,
)
    requires
        methods.len() == inv.functions.len(),
        forall|i: int|
            0 <= i < methods.len() ==> #[trigger] methods[i] == function_rows(inv.functions[i]),
        type_list.len() == inv.types.len(),
        forall|i: int|
            0 <= i < type_list.len() ==> #[trigger] type_list[i] == type_rows(inv.types[i]),
        events.len() == inv.events.len(),
        forall|i: int| 0 <= i < events.len() ==> #[trigger] events[i] == event_rows(inv.events[i]),
    ensures
        inventory_text(inv) == "{\n  \"abi_version\": "@ + decimal(inv.abi_version as nat)
            + ",\n  \"functions\": [\n"@ + block(methods) + "  ],\n  \"types\": [\n"@ + block(type_list)
            + "  ],\n  \"errors\": [\n"@ + case_block("    "@, inv.errors) + "  ],\n  \"events\": [\n"@
            + block(events) + "  ]\n}\n"@,
{
    assert(inv.functions.map_values(|f: FunctionModel| function_rows(f)) =~= methods);
    assert(inv.types.map_values(|t: TypeModel| type_rows(t)) =~= type_list);
    assert(inv.events.map_values(|e: EventModel| event_rows(e)) =~= events);
}

} // verus!
