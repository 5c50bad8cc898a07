//! The inventory as JSON text.
use crate::abi::inventory::{
    CaseModel, ErrorCase, EventAbi, EventModel, FunctionAbi, FunctionModel, Inventory,
    InventoryModel, ParamAbi, ParamModel, TypeAbi, TypeModel,
};
use crate::text::{decimal, decimal_text, join, joined, texts};
use vstd::prelude::*;

verus! {

/// The text with a backslash before each backslash and each double quote.
pub open spec fn escaped(s: Seq<char>) -> Seq<char>
    decreases s.len(),
{
    if s.len() == 0 {
        s
    } else if s.last() == '\\' || s.last() == '"' {
        escaped(s.drop_last()).push('\\').push(s.last())
    } else {
        escaped(s.drop_last()).push(s.last())
    }
}

/// Lines with a comma after each but the last.
pub open spec fn block(rows: Seq<Seq<char>>) -> Seq<char> {
    if rows.len() == 0 {
        Seq::empty()
    } else {
        joined(rows, ",\n"@) + "\n"@
    }
}

/// A parameter or field, on a line of its own.
pub open spec fn param_row(p: ParamModel) -> Seq<char> {
    "        {\"name\": \""@ + escaped(p.name) + "\", \"type\": \""@ + escaped(p.ty) + "\"}"@
}

/// The lines of a list of parameters or fields.
pub open spec fn param_block(list: Seq<ParamModel>) -> Seq<char> {
    block(list.map_values(|p: ParamModel| param_row(p)))
}

/// An error or an enum case, on a line of its own.
pub open spec fn case_row(indent: Seq<char>, c: CaseModel) -> Seq<char> {
    indent + "{\"name\": \""@ + escaped(c.name) + "\", \"discriminant\": "@ + decimal(
        c.discriminant as nat,
    ) + "}"@
}

/// The lines of a list of errors or enum cases.
pub open spec fn case_block(indent: Seq<char>, list: Seq<CaseModel>) -> Seq<char> {
    block(list.map_values(|c: CaseModel| case_row(indent, c)))
}

/// A method, on several lines.
pub open spec fn function_rows(f: FunctionModel) -> Seq<char> {
    "    {\n      \"name\": \""@ + escaped(f.name) + "\",\n      \"auth\": \""@ + f.auth
        + "\",\n      \"inputs\": [\n"@ + param_block(f.inputs)
        + "      ],\n      \"outputs\": \""@ + escaped(f.outputs) + "\"\n    }"@
}

/// A type, on several lines.
pub open spec fn type_rows(t: TypeModel) -> Seq<char> {
    "    {\n      \"name\": \""@ + escaped(t.name) + "\",\n      \"kind\": \""@ + escaped(t.kind)
        + "\",\n      \"fields\": [\n"@ + param_block(t.fields)
        + "      ],\n      \"cases\": [\n"@ + case_block("        "@, t.cases)
        + "      ]\n    }"@
}

/// An event, on several lines.
pub open spec fn event_rows(e: EventModel) -> Seq<char> {
    "    {\n      \"name\": \""@ + escaped(e.name) + "\",\n      \"topics\": [\n"@ + param_block(
        e.topics,
    ) + "      ],\n      \"data\": [\n"@ + param_block(e.data) + "      ]\n    }"@
}

/// The whole inventory.
pub open spec fn inventory_text(inv: InventoryModel) -> Seq<char> {
    "{\n  \"abi_version\": "@ + decimal(inv.abi_version as nat) + ",\n  \"functions\": [\n"@
        + block(inv.functions.map_values(|f: FunctionModel| function_rows(f)))
        + "  ],\n  \"types\": [\n"@ + block(inv.types.map_values(|t: TypeModel| type_rows(t)))
        + "  ],\n  \"errors\": [\n"@ + case_block("    "@, inv.errors)
        + "  ],\n  \"events\": [\n"@ + block(inv.events.map_values(|e: EventModel| event_rows(e)))
        + "  ]\n}\n"@
}

/// The text with a backslash before each backslash and each double quote.
pub fn escape(s: &str) -> (r: String)
    ensures
        r@ == escaped(s@),
{
    let mut r = String::new();
    let ghost all = s@;
    for c in it: s.chars()
        invariant
            it.seq() == all,
            r@ == escaped(all.take(it.index() as int)),
    {
        proof {
            assert(all.take(it.index() + 1).drop_last() == all.take(it.index() as int));
        }
        if c == '\\' || c == '"' {
            r.push('\\');
        }
        r.push(c);
    }
    assert(all.take(all.len() as int) == all);
    r
}

/// Lines with a comma after each but the last.
fn block_text(rows: &[String]) -> (r: String)
    ensures
        r@ == block(texts(rows@)),
{
    if rows.len() == 0 {
        return String::new();
    }
    let mut r = join(rows, ",\n");
    r.append("\n");
    r
}

/// The lines of a list of parameters or fields.
fn render_params(list: &[ParamAbi]) -> (r: String)
    ensures
        r@ == param_block(list@.map_values(|p: ParamAbi| p@)),
{
    let ghost models = list@.map_values(|p: ParamAbi| p@);
    let mut rows: Vec<String> = Vec::new();
    for i in 0..list.len()
        invariant
            models == list@.map_values(|p: ParamAbi| p@),
            rows@.len() == i,
            forall|j: int| 0 <= j < i ==> (#[trigger] rows@[j])@ == param_row(models[j]),
    {
        let mut row = String::new();
        row.append("        {\"name\": \"");
        row.append(&escape(&list[i].name));
        row.append("\", \"type\": \"");
        row.append(&escape(&list[i].ty));
        row.append("\"}");
        assert(row@ == param_row(models[i as int]));
        rows.push(row);
    }
    assert(texts(rows@) =~= models.map_values(|p: ParamModel| param_row(p)));
    block_text(&rows)
}

/// The lines of a list of errors or enum cases.
fn render_cases(indent: &str, list: &[ErrorCase]) -> (r: String)
    ensures
        r@ == case_block(indent@, list@.map_values(|c: ErrorCase| c@)),
{
    let ghost models = list@.map_values(|c: ErrorCase| c@);
    let mut rows: Vec<String> = Vec::new();
    for i in 0..list.len()
        invariant
            models == list@.map_values(|c: ErrorCase| c@),
            rows@.len() == i,
            forall|j: int| 0 <= j < i ==> (#[trigger] rows@[j])@ == case_row(indent@, models[j]),
    {
        let mut row = String::new();
        row.append(indent);
        row.append("{\"name\": \"");
        row.append(&escape(&list[i].name));
        row.append("\", \"discriminant\": ");
        row.append(&decimal_text(list[i].discriminant as u128));
        row.append("}");
        assert(row@ =~= case_row(indent@, models[i as int]));
        rows.push(row);
    }
    assert(texts(rows@) =~= models.map_values(|c: CaseModel| case_row(indent@, c)));
    block_text(&rows)
}

/// A method, on several lines.
fn render_function(f: &FunctionAbi) -> (r: String)
    ensures
        r@ == function_rows(f@),
{
    let mut r = String::new();
    r.append("    {\n      \"name\": \"");
    r.append(&escape(&f.name));
    r.append("\",\n      \"auth\": \"");
    r.append(f.auth);
    r.append("\",\n      \"inputs\": [\n");
    r.append(&render_params(&f.inputs));
    r.append("      ],\n      \"outputs\": \"");
    r.append(&escape(&f.outputs));
    r.append("\"\n    }");
    assert(r@ =~= function_rows(f@));
    r
}

/// A type, on several lines.
fn render_type(t: &TypeAbi) -> (r: String)
    ensures
        r@ == type_rows(t@),
{
    let mut r = String::new();
    r.append("    {\n      \"name\": \"");
    r.append(&escape(&t.name));
    r.append("\",\n      \"kind\": \"");
    r.append(&escape(&t.kind));
    r.append("\",\n      \"fields\": [\n");
    r.append(&render_params(&t.fields));
    r.append("      ],\n      \"cases\": [\n");
    r.append(&render_cases("        ", &t.cases));
    r.append("      ]\n    }");
    assert(r@ =~= type_rows(t@));
    r
}

/// An event, on several lines.
fn render_event(e: &EventAbi) -> (r: String)
    ensures
        r@ == event_rows(e@),
{
    let mut r = String::new();
    r.append("    {\n      \"name\": \"");
    r.append(&escape(&e.name));
    r.append("\",\n      \"topics\": [\n");
    r.append(&render_params(&e.topics));
    r.append("      ],\n      \"data\": [\n");
    r.append(&render_params(&e.data));
    r.append("      ]\n    }");
    assert(r@ =~= event_rows(e@));
    r
}

/// The inventory as JSON text, in the form that is committed beside the contract.
pub fn render_json(inv: &Inventory) -> (r: String)
    ensures
        r@ == inventory_text(inv@),
{
    let ghost functions = inv@.functions;
    let ghost types = inv@.types;
    let ghost events = inv@.events;
    let mut function_list: Vec<String> = Vec::new();
    for i in 0..inv.functions.len()
        invariant
            functions == inv@.functions,
            function_list@.len() == i,
            forall|j: int|
                0 <= j < i ==> (#[trigger] function_list@[j])@ == function_rows(functions[j]),
    {
        function_list.push(render_function(&inv.functions[i]));
    }
    let mut type_list: Vec<String> = Vec::new();
    for i in 0..inv.types.len()
        invariant
            types == inv@.types,
            type_list@.len() == i,
            forall|j: int| 0 <= j < i ==> (#[trigger] type_list@[j])@ == type_rows(types[j]),
    {
        type_list.push(render_type(&inv.types[i]));
    }
    let mut event_list: Vec<String> = Vec::new();
    for i in 0..inv.events.len()
        invariant
            events == inv@.events,
            event_list@.len() == i,
            forall|j: int| 0 <= j < i ==> (#[trigger] event_list@[j])@ == event_rows(events[j]),
    {
        event_list.push(render_event(&inv.events[i]));
    }
    assert(texts(function_list@) =~= functions.map_values(|f: FunctionModel| function_rows(f)));
    assert(texts(type_list@) =~= types.map_values(|t: TypeModel| type_rows(t)));
    assert(texts(event_list@) =~= events.map_values(|e: EventModel| event_rows(e)));
    let mut out = String::new();
    out.append("{\n  \"abi_version\": ");
    out.append(&decimal_text(inv.abi_version as u128));
    out.append(",\n  \"functions\": [\n");
    out.append(&block_text(&function_list));
    out.append("  ],\n  \"types\": [\n");
    out.append(&block_text(&type_list));
    out.append("  ],\n  \"errors\": [\n");
    out.append(&render_cases("    ", &inv.errors));
    out.append("  ],\n  \"events\": [\n");
    out.append(&block_text(&event_list));
    out.append("  ]\n}\n");
    assert(out@ =~= inventory_text(inv@));
    out
}

} // verus!
