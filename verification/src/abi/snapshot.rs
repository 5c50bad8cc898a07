//! A rendered inventory stands for one inventory: no two render to the same text.
use crate::abi::inventory::{
    CaseModel, EventModel, FunctionModel, InventoryModel, ParamModel, TypeModel,
};
use crate::abi::render::{
    block, case_block, case_row, escaped, event_rows, function_rows, inventory_text, param_block,
    param_row, type_rows,
};
use crate::text::{decimal, is_digit, joined, lemma_decimal_value};
use vstd::prelude::*;

verus! {

/// A text without double quotes.
pub open spec fn unquoted(s: Seq<char>) -> bool {
    forall|i: int| 0 <= i < s.len() ==> #[trigger] s[i] != '"'
}

/// What follows the same text is the same.
proof fn lemma_cancel(a: Seq<char>, x: Seq<char>, y: Seq<char>)
    requires
        a + x == a + y,
    ensures
        x == y,
{
    assert((a + x).skip(a.len() as int) =~= x);
    assert((a + y).skip(a.len() as int) =~= y);
}

/// Two parts go to what follows them.
pub proof fn lemma_fold(a: Seq<char>, p: Seq<char>, q: Seq<char>, x: Seq<char>)
    ensures
        a + p + q + x == a + (p + q + x),
{
    assert(a + p + q + x =~= a + (p + q + x));
}

/// A text without quotes ends at the quote that follows it.
proof fn lemma_unquoted(a: Seq<char>, x: Seq<char>, b: Seq<char>, y: Seq<char>)
    requires
        unquoted(a),
        unquoted(b),
        a + seq!['"'] + x == b + seq!['"'] + y,
    ensures
        a == b,
        x == y,
{
    let s = a + seq!['"'] + x;
    let t = b + seq!['"'] + y;
    if a.len() < b.len() {
        assert(s[a.len() as int] == '"');
        assert(t[a.len() as int] == b[a.len() as int]);
    } else if b.len() < a.len() {
        assert(t[b.len() as int] == '"');
        assert(s[b.len() as int] == a[b.len() as int]);
    } else {
        assert(a =~= s.take(a.len() as int));
        assert(b =~= t.take(b.len() as int));
        assert(x =~= s.skip(a.len() as int + 1));
        assert(y =~= t.skip(b.len() as int + 1));
    }
}

/// Escaping goes character by character.
proof fn lemma_escaped_parts(a: Seq<char>, b: Seq<char>)
    ensures
        escaped(a + b) == escaped(a) + escaped(b),
    decreases b.len(),
{
    if b.len() == 0 {
        assert(a + b =~= a);
        assert(escaped(a) + escaped(b) =~= escaped(a));
    } else {
        let front = b.drop_last();
        lemma_escaped_parts(a, front);
        assert((a + b).drop_last() =~= a + front);
        assert((a + b).last() == b.last());
        assert(escaped(a + b) =~= escaped(a) + escaped(b));
    }
}

/// The escaped form of a text starts with that of its first character.
pub proof fn lemma_escaped_first(s: Seq<char>)
    requires
        s.len() > 0,
    ensures
        escaped(s) == (if s[0] == '\\' || s[0] == '"' {
            seq!['\\', s[0]]
        } else {
            seq![s[0]]
        }) + escaped(s.skip(1)),
{
    let first = seq![s[0]];
    assert(s =~= first + s.skip(1));
    lemma_escaped_parts(first, s.skip(1));
    reveal_with_fuel(escaped, 2);
    assert(first.drop_last() =~= Seq::empty());
    assert(escaped(first) =~= if s[0] == '\\' || s[0] == '"' {
        seq!['\\', s[0]]
    } else {
        seq![s[0]]
    });
}

/// An escaped text ends at the quote that follows it.
proof fn lemma_escaped(a: Seq<char>, x: Seq<char>, b: Seq<char>, y: Seq<char>)
    requires
        escaped(a) + seq!['"'] + x == escaped(b) + seq!['"'] + y,
    ensures
        a == b,
        x == y,
    decreases a.len(),
{
    let s = escaped(a) + seq!['"'] + x;
    let t = escaped(b) + seq!['"'] + y;
    if a.len() == 0 || b.len() == 0 {
        if a.len() == 0 && b.len() == 0 {
            assert(s.skip(1) =~= x);
            assert(t.skip(1) =~= y);
            assert(a =~= b);
        } else if a.len() == 0 {
            lemma_escaped_first(b);
            assert(s[0] == '"');
            assert(t[0] != '"');
        } else {
            lemma_escaped_first(a);
            assert(s[0] != '"');
            assert(t[0] == '"');
        }
    } else {
        lemma_escaped_first(a);
        lemma_escaped_first(b);
        let wide_a = a[0] == '\\' || a[0] == '"';
        let wide_b = b[0] == '\\' || b[0] == '"';
        assert(s[0] == (if wide_a {
            '\\'
        } else {
            a[0]
        }));
        assert(t[0] == (if wide_b {
            '\\'
        } else {
            b[0]
        }));
        assert(wide_a == wide_b);
        if wide_a {
            assert(s[1] == a[0] && t[1] == b[0]);
            assert(s.skip(2) =~= escaped(a.skip(1)) + seq!['"'] + x);
            assert(t.skip(2) =~= escaped(b.skip(1)) + seq!['"'] + y);
        } else {
            assert(s.skip(1) =~= escaped(a.skip(1)) + seq!['"'] + x);
            assert(t.skip(1) =~= escaped(b.skip(1)) + seq!['"'] + y);
        }
        lemma_escaped(a.skip(1), x, b.skip(1), y);
        assert(a =~= seq![a[0]] + a.skip(1));
        assert(b =~= seq![b[0]] + b.skip(1));
    }
}

/// A number ends where its digits end.
proof fn lemma_decimal(n: nat, x: Seq<char>, m: nat, y: Seq<char>)
    requires
        x.len() > 0,
        y.len() > 0,
        !is_digit(x[0]),
        !is_digit(y[0]),
        decimal(n) + x == decimal(m) + y,
    ensures
        n == m,
        x == y,
{
    lemma_decimal_value(n);
    lemma_decimal_value(m);
    let a = decimal(n);
    let b = decimal(m);
    let s = a + x;
    let t = b + y;
    if a.len() < b.len() {
        assert(s[a.len() as int] == x[0]);
        assert(t[a.len() as int] == b[a.len() as int]);
    } else if b.len() < a.len() {
        assert(t[b.len() as int] == y[0]);
        assert(s[b.len() as int] == a[b.len() as int]);
    } else {
        assert(a =~= s.take(a.len() as int));
        assert(b =~= t.take(b.len() as int));
        assert(x =~= s.skip(a.len() as int));
        assert(y =~= t.skip(b.len() as int));
    }
}

/// The rows of a list show where they end: two rows with the same text at their start are of the
/// same item.
spec fn rows_end<M>(f: spec_fn(M) -> Seq<char>, dom: spec_fn(M) -> bool) -> bool {
    forall|p: M, q: M, x: Seq<char>, y: Seq<char>|
        #![trigger f(p) + x, f(q) + y]
        dom(p) && dom(q) && f(p) + x == f(q) + y ==> p == q && x == y
}

/// Every row has the character `c` at the place `k`.
spec fn rows_marked<M>(f: spec_fn(M) -> Seq<char>, k: int, c: char) -> bool {
    forall|p: M| 0 <= k < (#[trigger] f(p)).len() && f(p)[k] == c
}

/// All items are in the domain.
spec fn all_in<M>(list: Seq<M>, dom: spec_fn(M) -> bool) -> bool {
    forall|i: int| 0 <= i < list.len() ==> dom(#[trigger] list[i])
}

/// Joining goes from the front as well.
proof fn lemma_joined_front(rows: Seq<Seq<char>>, sep: Seq<char>)
    requires
        rows.len() > 1,
    ensures
        joined(rows, sep) == rows[0] + sep + joined(rows.skip(1), sep),
    decreases rows.len(),
{
    let front = rows.drop_last();
    let rest = rows.skip(1);
    if rows.len() == 2 {
        assert(joined(front, sep) == rows[0]);
        assert(joined(rest, sep) == rows[1]);
    } else {
        lemma_joined_front(front, sep);
        assert(front.skip(1) =~= rest.drop_last());
        assert(rest.last() == rows.last());
        assert(joined(rows, sep) =~= rows[0] + sep + joined(rest, sep));
    }
}

/// A block starts with its first row. What follows the row tells whether it is the last.
pub proof fn lemma_block_front<M>(list: Seq<M>, f: spec_fn(M) -> Seq<char>, x: Seq<char>)
    requires
        list.len() > 0,
    ensures
        list.len() == 1 ==> block(list.map_values(f)) + x == f(list[0]) + ("\n"@ + x),
        list.len() > 1 ==> block(list.map_values(f)) + x == f(list[0]) + (",\n"@ + (block(
            list.skip(1).map_values(f),
        ) + x)),
{
    let rows = list.map_values(f);
    if list.len() == 1 {
        assert(block(rows) + x =~= f(list[0]) + ("\n"@ + x));
    } else {
        lemma_joined_front(rows, ",\n"@);
        assert(rows.skip(1) =~= list.skip(1).map_values(f));
        assert(block(rows) + x =~= f(list[0]) + (",\n"@ + (block(list.skip(1).map_values(f)) + x)));
    }
}

/// A block ends where the text behind it starts, which has another character at the place that
/// marks the rows.
proof fn lemma_block<M>(
    a: Seq<M>,
    x: Seq<char>,
    b: Seq<M>,
    y: Seq<char>,
    f: spec_fn(M) -> Seq<char>,
    dom: spec_fn(M) -> bool,
    k: int,
    c: char,
)
    requires
        rows_end(f, dom),
        rows_marked(f, k, c),
        all_in(a, dom),
        all_in(b, dom),
        k < x.len(),
        k < y.len(),
        x[k] != c,
        y[k] != c,
        block(a.map_values(f)) + x == block(b.map_values(f)) + y,
    ensures
        a == b,
        x == y,
    decreases a.len(),
{
    let s = block(a.map_values(f)) + x;
    let t = block(b.map_values(f)) + y;
    reveal_strlit("\n");
    reveal_strlit(",\n");
    if a.len() == 0 {
        assert(s =~= x);
        if b.len() > 0 {
            lemma_block_front(b, f, y);
            assert(f(b[0])[k] == c);
            assert(t[k] == c);
        } else {
            assert(t =~= y);
            assert(a =~= b);
        }
    } else if b.len() == 0 {
        assert(t =~= y);
        lemma_block_front(a, f, x);
        assert(f(a[0])[k] == c);
        assert(s[k] == c);
    } else {
        lemma_block_front(a, f, x);
        lemma_block_front(b, f, y);
        let rest_a = a.skip(1);
        let rest_b = b.skip(1);
        let after_a = if a.len() == 1 {
            "\n"@ + x
        } else {
            ",\n"@ + (block(rest_a.map_values(f)) + x)
        };
        let after_b = if b.len() == 1 {
            "\n"@ + y
        } else {
            ",\n"@ + (block(rest_b.map_values(f)) + y)
        };
        assert(dom(a[0]) && dom(b[0]));
        assert(f(a[0]) + after_a == f(b[0]) + after_b);
        assert(a[0] == b[0] && after_a == after_b);
        assert(after_a[0] == (if a.len() == 1 {
            '\n'
        } else {
            ','
        }));
        assert(after_b[0] == (if b.len() == 1 {
            '\n'
        } else {
            ','
        }));
        if a.len() == 1 {
            lemma_cancel("\n"@, x, y);
        } else {
            lemma_cancel(
                ",\n"@,
                block(rest_a.map_values(f)) + x,
                block(rest_b.map_values(f)) + y,
            );
            assert forall|i: int| 0 <= i < rest_a.len() implies dom(#[trigger] rest_a[i]) by {
                assert(rest_a[i] == a[i + 1]);
            }
            assert forall|i: int| 0 <= i < rest_b.len() implies dom(#[trigger] rest_b[i]) by {
                assert(rest_b[i] == b[i + 1]);
            }
            lemma_block(rest_a, x, rest_b, y, f, dom, k, c);
        }
        assert(a =~= seq![a[0]] + rest_a);
        assert(b =~= seq![b[0]] + rest_b);
    }
}

/// An escaped text ends at the quote that starts what follows.
proof fn lemma_text(a: Seq<char>, x: Seq<char>, b: Seq<char>, y: Seq<char>, lit: Seq<char>)
    requires
        lit.len() > 0,
        lit[0] == '"',
        escaped(a) + lit + x == escaped(b) + lit + y,
    ensures
        a == b,
        x == y,
{
    let rest = lit.skip(1);
    assert(escaped(a) + lit + x =~= escaped(a) + seq!['"'] + (rest + x));
    assert(escaped(b) + lit + y =~= escaped(b) + seq!['"'] + (rest + y));
    lemma_escaped(a, rest + x, b, rest + y);
    lemma_cancel(rest, x, y);
}

/// A number ends at the character that starts what follows.
proof fn lemma_number(n: nat, x: Seq<char>, m: nat, y: Seq<char>, lit: Seq<char>)
    requires
        lit.len() > 0,
        !is_digit(lit[0]),
        decimal(n) + lit + x == decimal(m) + lit + y,
    ensures
        n == m,
        x == y,
{
    assert(decimal(n) + lit + x =~= decimal(n) + (lit + x));
    assert(decimal(m) + lit + y =~= decimal(m) + (lit + y));
    lemma_decimal(n, lit + x, m, lit + y);
    lemma_cancel(lit, x, y);
}

/// A text without quotes ends at the quote that starts what follows.
proof fn lemma_label(a: Seq<char>, x: Seq<char>, b: Seq<char>, y: Seq<char>, lit: Seq<char>)
    requires
        unquoted(a),
        unquoted(b),
        lit.len() > 0,
        lit[0] == '"',
        a + lit + x == b + lit + y,
    ensures
        a == b,
        x == y,
{
    let rest = lit.skip(1);
    assert(a + lit + x =~= a + seq!['"'] + (rest + x));
    assert(b + lit + y =~= b + seq!['"'] + (rest + y));
    lemma_unquoted(a, rest + x, b, rest + y);
    lemma_cancel(rest, x, y);
}

/// The line of a parameter, each part before what follows it.
pub proof fn lemma_param_folded(p: ParamModel, x: Seq<char>)
    ensures
        param_row(p) + x == "        {\"name\": \""@ + (escaped(p.name) + "\", \"type\": \""@ + (
        escaped(p.ty) + "\"}"@ + x)),
{
    let start = "        {\"name\": \""@;
    let middle = "\", \"type\": \""@;
    lemma_fold(start + escaped(p.name) + middle, escaped(p.ty), "\"}"@, x);
    lemma_fold(start, escaped(p.name), middle, escaped(p.ty) + "\"}"@ + x);
}

/// The line of an error or an enum case, each part before what follows it.
pub proof fn lemma_case_folded(indent: Seq<char>, c: CaseModel, x: Seq<char>)
    ensures
        case_row(indent, c) + x == (indent + "{\"name\": \""@) + (escaped(c.name)
            + "\", \"discriminant\": "@ + (decimal(c.discriminant as nat) + "}"@ + x)),
{
    let start = indent + "{\"name\": \""@;
    let middle = "\", \"discriminant\": "@;
    let number = decimal(c.discriminant as nat);
    lemma_fold(start + escaped(c.name) + middle, number, "}"@, x);
    lemma_fold(start, escaped(c.name), middle, number + "}"@ + x);
}

/// The lines of a method, each part before what follows it.
pub proof fn lemma_function_folded(f: FunctionModel, x: Seq<char>)
    ensures
        function_rows(f) + x == "    {\n      \"name\": \""@ + (escaped(f.name)
            + "\",\n      \"auth\": \""@ + (f.auth + "\",\n      \"inputs\": [\n"@ + (param_block(
            f.inputs,
        ) + "      ],\n      \"outputs\": \""@ + (escaped(f.outputs) + "\"\n    }"@ + x)))),
{
    let start = "    {\n      \"name\": \""@;
    let auth = "\",\n      \"auth\": \""@;
    let inputs = "\",\n      \"inputs\": [\n"@;
    let outputs = "      ],\n      \"outputs\": \""@;
    let end = "\"\n    }"@;
    let upto_auth = start + escaped(f.name) + auth;
    let upto_inputs = upto_auth + f.auth + inputs;
    let upto_outputs = upto_inputs + param_block(f.inputs) + outputs;
    let f3 = escaped(f.outputs) + end + x;
    let f2 = param_block(f.inputs) + outputs + f3;
    lemma_fold(upto_outputs, escaped(f.outputs), end, x);
    lemma_fold(upto_inputs, param_block(f.inputs), outputs, f3);
    lemma_fold(upto_auth, f.auth, inputs, f2);
    lemma_fold(start, escaped(f.name), auth, f.auth + inputs + f2);
}

/// The lines of a type, each part before what follows it.
pub proof fn lemma_type_folded(t: TypeModel, x: Seq<char>)
    ensures
        type_rows(t) + x == "    {\n      \"name\": \""@ + (escaped(t.name)
            + "\",\n      \"kind\": \""@ + (escaped(t.kind) + "\",\n      \"fields\": [\n"@ + (
        param_block(t.fields) + "      ],\n      \"cases\": [\n"@ + (case_block("        "@, t.cases)
            + "      ]\n    }"@ + x)))),
{
    let start = "    {\n      \"name\": \""@;
    let kind = "\",\n      \"kind\": \""@;
    let fields = "\",\n      \"fields\": [\n"@;
    let cases = "      ],\n      \"cases\": [\n"@;
    let end = "      ]\n    }"@;
    let upto_kind = start + escaped(t.name) + kind;
    let upto_fields = upto_kind + escaped(t.kind) + fields;
    let upto_cases = upto_fields + param_block(t.fields) + cases;
    let t3 = case_block("        "@, t.cases) + end + x;
    let t2 = param_block(t.fields) + cases + t3;
    lemma_fold(upto_cases, case_block("        "@, t.cases), end, x);
    lemma_fold(upto_fields, param_block(t.fields), cases, t3);
    lemma_fold(upto_kind, escaped(t.kind), fields, t2);
    lemma_fold(start, escaped(t.name), kind, escaped(t.kind) + fields + t2);
}

/// The lines of an event, each part before what follows it.
pub proof fn lemma_event_folded(e: EventModel, x: Seq<char>)
    ensures
        event_rows(e) + x == "    {\n      \"name\": \""@ + (escaped(e.name)
            + "\",\n      \"topics\": [\n"@ + (param_block(e.topics) + "      ],\n      \"data\": [\n"@
            + (param_block(e.data) + "      ]\n    }"@ + x))),
{
    let start = "    {\n      \"name\": \""@;
    let topics = "\",\n      \"topics\": [\n"@;
    let data = "      ],\n      \"data\": [\n"@;
    let end = "      ]\n    }"@;
    let upto_topics = start + escaped(e.name) + topics;
    let upto_data = upto_topics + param_block(e.topics) + data;
    let e2 = param_block(e.data) + end + x;
    lemma_fold(upto_data, param_block(e.data), end, x);
    lemma_fold(upto_topics, param_block(e.topics), data, e2);
    lemma_fold(start, escaped(e.name), topics, param_block(e.topics) + data + e2);
}

/// A line of a parameter is of one parameter.
proof fn lemma_param_row(p: ParamModel, x: Seq<char>, q: ParamModel, y: Seq<char>)
    requires
        param_row(p) + x == param_row(q) + y,
    ensures
        p == q,
        x == y,
{
    let start = "        {\"name\": \""@;
    let middle = "\", \"type\": \""@;
    let end = "\"}"@;
    reveal_strlit("\", \"type\": \"");
    reveal_strlit("\"}");
    let p_rest = escaped(p.ty) + end + x;
    let q_rest = escaped(q.ty) + end + y;
    let p_all = escaped(p.name) + middle + p_rest;
    let q_all = escaped(q.name) + middle + q_rest;
    lemma_param_folded(p, x);
    lemma_param_folded(q, y);
    lemma_cancel(start, p_all, q_all);
    lemma_text(p.name, p_rest, q.name, q_rest, middle);
    lemma_text(p.ty, x, q.ty, y, end);
}

/// A line of an error or an enum case is of one case.
proof fn lemma_case_row(indent: Seq<char>, c: CaseModel, x: Seq<char>, d: CaseModel, y: Seq<char>)
    requires
        case_row(indent, c) + x == case_row(indent, d) + y,
    ensures
        c == d,
        x == y,
{
    let start = indent + "{\"name\": \""@;
    let middle = "\", \"discriminant\": "@;
    let end = "}"@;
    reveal_strlit("\", \"discriminant\": ");
    reveal_strlit("}");
    let c_rest = decimal(c.discriminant as nat) + end + x;
    let d_rest = decimal(d.discriminant as nat) + end + y;
    let c_all = escaped(c.name) + middle + c_rest;
    let d_all = escaped(d.name) + middle + d_rest;
    lemma_case_folded(indent, c, x);
    lemma_case_folded(indent, d, y);
    lemma_cancel(start, c_all, d_all);
    lemma_text(c.name, c_rest, d.name, d_rest, middle);
    lemma_number(c.discriminant as nat, x, d.discriminant as nat, y, end);
}

/// The lines of a list of parameters end at the bracket that follows them.
proof fn lemma_param_block(
    a: Seq<ParamModel>,
    x: Seq<char>,
    b: Seq<ParamModel>,
    y: Seq<char>,
    lit: Seq<char>,
)
    requires
        lit.len() > 6,
        lit[6] == ']',
        param_block(a) + lit + x == param_block(b) + lit + y,
    ensures
        a == b,
        x == y,
{
    let f = |p: ParamModel| param_row(p);
    let dom = |p: ParamModel| true;
    reveal_strlit("        {\"name\": \"");
    assert(rows_end(f, dom)) by {
        assert forall|p: ParamModel, q: ParamModel, u: Seq<char>, v: Seq<char>|
            #![trigger f(p) + u, f(q) + v]
            dom(p) && dom(q) && f(p) + u == f(q) + v implies p == q && u == v by {
            lemma_param_row(p, u, q, v);
        }
    }
    assert(rows_marked(f, 6, ' '));
    assert(param_block(a) + lit + x =~= block(a.map_values(f)) + (lit + x));
    assert(param_block(b) + lit + y =~= block(b.map_values(f)) + (lit + y));
    lemma_block(a, lit + x, b, lit + y, f, dom, 6, ' ');
    lemma_cancel(lit, x, y);
}

/// The lines of a list of errors or enum cases end at the bracket that follows them.
proof fn lemma_case_block(
    indent: Seq<char>,
    a: Seq<CaseModel>,
    x: Seq<char>,
    b: Seq<CaseModel>,
    y: Seq<char>,
    lit: Seq<char>,
    k: int,
)
    requires
        0 <= k < indent.len(),
        k < lit.len(),
        indent[k] == ' ',
        lit[k] == ']',
        case_block(indent, a) + lit + x == case_block(indent, b) + lit + y,
    ensures
        a == b,
        x == y,
{
    let f = |c: CaseModel| case_row(indent, c);
    let dom = |c: CaseModel| true;
    assert(rows_end(f, dom)) by {
        assert forall|c: CaseModel, d: CaseModel, u: Seq<char>, v: Seq<char>|
            #![trigger f(c) + u, f(d) + v]
            dom(c) && dom(d) && f(c) + u == f(d) + v implies c == d && u == v by {
            lemma_case_row(indent, c, u, d, v);
        }
    }
    assert(rows_marked(f, k, ' '));
    assert(case_block(indent, a) + lit + x =~= block(a.map_values(f)) + (lit + x));
    assert(case_block(indent, b) + lit + y =~= block(b.map_values(f)) + (lit + y));
    lemma_block(a, lit + x, b, lit + y, f, dom, k, ' ');
    lemma_cancel(lit, x, y);
}

/// The lines of a method are of one method, if its authorization holds no quote.
proof fn lemma_function_rows(f: FunctionModel, x: Seq<char>, g: FunctionModel, y: Seq<char>)
    requires
        unquoted(f.auth),
        unquoted(g.auth),
        function_rows(f) + x == function_rows(g) + y,
    ensures
        f == g,
        x == y,
{
    let start = "    {\n      \"name\": \""@;
    let auth = "\",\n      \"auth\": \""@;
    let inputs = "\",\n      \"inputs\": [\n"@;
    let outputs = "      ],\n      \"outputs\": \""@;
    let end = "\"\n    }"@;
    reveal_strlit("\",\n      \"auth\": \"");
    reveal_strlit("\",\n      \"inputs\": [\n");
    reveal_strlit("      ],\n      \"outputs\": \"");
    reveal_strlit("\"\n    }");
    let f3 = escaped(f.outputs) + end + x;
    let g3 = escaped(g.outputs) + end + y;
    let f2 = param_block(f.inputs) + outputs + f3;
    let g2 = param_block(g.inputs) + outputs + g3;
    let f1 = f.auth + inputs + f2;
    let g1 = g.auth + inputs + g2;
    let f0 = escaped(f.name) + auth + f1;
    let g0 = escaped(g.name) + auth + g1;
    lemma_function_folded(f, x);
    lemma_function_folded(g, y);
    lemma_cancel(start, f0, g0);
    lemma_text(f.name, f1, g.name, g1, auth);
    lemma_label(f.auth, f2, g.auth, g2, inputs);
    lemma_param_block(f.inputs, f3, g.inputs, g3, outputs);
    lemma_text(f.outputs, x, g.outputs, y, end);
}

/// The lines of a type are of one type.
proof fn lemma_type_rows(t: TypeModel, x: Seq<char>, u: TypeModel, y: Seq<char>)
    requires
        type_rows(t) + x == type_rows(u) + y,
    ensures
        t == u,
        x == y,
{
    let start = "    {\n      \"name\": \""@;
    let kind = "\",\n      \"kind\": \""@;
    let fields = "\",\n      \"fields\": [\n"@;
    let cases = "      ],\n      \"cases\": [\n"@;
    let end = "      ]\n    }"@;
    reveal_strlit("\",\n      \"kind\": \"");
    reveal_strlit("\",\n      \"fields\": [\n");
    reveal_strlit("      ],\n      \"cases\": [\n");
    reveal_strlit("      ]\n    }");
    reveal_strlit("        ");
    let t3 = case_block("        "@, t.cases) + end + x;
    let u3 = case_block("        "@, u.cases) + end + y;
    let t2 = param_block(t.fields) + cases + t3;
    let u2 = param_block(u.fields) + cases + u3;
    let t1 = escaped(t.kind) + fields + t2;
    let u1 = escaped(u.kind) + fields + u2;
    let t0 = escaped(t.name) + kind + t1;
    let u0 = escaped(u.name) + kind + u1;
    lemma_type_folded(t, x);
    lemma_type_folded(u, y);
    lemma_cancel(start, t0, u0);
    lemma_text(t.name, t1, u.name, u1, kind);
    lemma_text(t.kind, t2, u.kind, u2, fields);
    lemma_param_block(t.fields, t3, u.fields, u3, cases);
    lemma_case_block("        "@, t.cases, x, u.cases, y, end, 6);
}

/// The lines of an event are of one event.
proof fn lemma_event_rows(e: EventModel, x: Seq<char>, f: EventModel, y: Seq<char>)
    requires
        event_rows(e) + x == event_rows(f) + y,
    ensures
        e == f,
        x == y,
{
    let start = "    {\n      \"name\": \""@;
    let topics = "\",\n      \"topics\": [\n"@;
    let data = "      ],\n      \"data\": [\n"@;
    let end = "      ]\n    }"@;
    reveal_strlit("\",\n      \"topics\": [\n");
    reveal_strlit("      ],\n      \"data\": [\n");
    reveal_strlit("      ]\n    }");
    let e2 = param_block(e.data) + end + x;
    let f2 = param_block(f.data) + end + y;
    let e1 = param_block(e.topics) + data + e2;
    let f1 = param_block(f.topics) + data + f2;
    let e0 = escaped(e.name) + topics + e1;
    let f0 = escaped(f.name) + topics + f1;
    lemma_event_folded(e, x);
    lemma_event_folded(f, y);
    lemma_cancel(start, e0, f0);
    lemma_text(e.name, e1, f.name, f1, topics);
    lemma_param_block(e.topics, e2, f.topics, f2, data);
    lemma_param_block(e.data, x, f.data, y, end);
}

/// The lines of a list of methods end at the bracket that follows them.
proof fn lemma_functions(
    a: Seq<FunctionModel>,
    x: Seq<char>,
    b: Seq<FunctionModel>,
    y: Seq<char>,
    lit: Seq<char>,
)
    requires
        lit.len() > 2,
        lit[2] == ']',
        forall|i: int| 0 <= i < a.len() ==> unquoted((#[trigger] a[i]).auth),
        forall|i: int| 0 <= i < b.len() ==> unquoted((#[trigger] b[i]).auth),
        block(a.map_values(|f: FunctionModel| function_rows(f))) + lit + x == block(
            b.map_values(|f: FunctionModel| function_rows(f)),
        ) + lit + y,
    ensures
        a == b,
        x == y,
{
    let rows = |f: FunctionModel| function_rows(f);
    let dom = |f: FunctionModel| unquoted(f.auth);
    reveal_strlit("    {\n      \"name\": \"");
    assert(rows_end(rows, dom)) by {
        assert forall|p: FunctionModel, q: FunctionModel, u: Seq<char>, v: Seq<char>|
            #![trigger rows(p) + u, rows(q) + v]
            dom(p) && dom(q) && rows(p) + u == rows(q) + v implies p == q && u == v by {
            lemma_function_rows(p, u, q, v);
        }
    }
    assert(rows_marked(rows, 2, ' '));
    assert(block(a.map_values(rows)) + lit + x =~= block(a.map_values(rows)) + (lit + x));
    assert(block(b.map_values(rows)) + lit + y =~= block(b.map_values(rows)) + (lit + y));
    lemma_block(a, lit + x, b, lit + y, rows, dom, 2, ' ');
    lemma_cancel(lit, x, y);
}

/// The lines of a list of types end at the bracket that follows them.
proof fn lemma_types(
    a: Seq<TypeModel>,
    x: Seq<char>,
    b: Seq<TypeModel>,
    y: Seq<char>,
    lit: Seq<char>,
)
    requires
        lit.len() > 2,
        lit[2] == ']',
        block(a.map_values(|t: TypeModel| type_rows(t))) + lit + x == block(
            b.map_values(|t: TypeModel| type_rows(t)),
        ) + lit + y,
    ensures
        a == b,
        x == y,
{
    let rows = |t: TypeModel| type_rows(t);
    let dom = |t: TypeModel| true;
    reveal_strlit("    {\n      \"name\": \"");
    assert(rows_end(rows, dom)) by {
        assert forall|p: TypeModel, q: TypeModel, u: Seq<char>, v: Seq<char>|
            #![trigger rows(p) + u, rows(q) + v]
            dom(p) && dom(q) && rows(p) + u == rows(q) + v implies p == q && u == v by {
            lemma_type_rows(p, u, q, v);
        }
    }
    assert(rows_marked(rows, 2, ' '));
    assert(block(a.map_values(rows)) + lit + x =~= block(a.map_values(rows)) + (lit + x));
    assert(block(b.map_values(rows)) + lit + y =~= block(b.map_values(rows)) + (lit + y));
    lemma_block(a, lit + x, b, lit + y, rows, dom, 2, ' ');
    lemma_cancel(lit, x, y);
}

/// The lines of a list of events end at the bracket that follows them.
proof fn lemma_events(
    a: Seq<EventModel>,
    x: Seq<char>,
    b: Seq<EventModel>,
    y: Seq<char>,
    lit: Seq<char>,
)
    requires
        lit.len() > 2,
        lit[2] == ']',
        block(a.map_values(|e: EventModel| event_rows(e))) + lit + x == block(
            b.map_values(|e: EventModel| event_rows(e)),
        ) + lit + y,
    ensures
        a == b,
        x == y,
{
    let rows = |e: EventModel| event_rows(e);
    let dom = |e: EventModel| true;
    reveal_strlit("    {\n      \"name\": \"");
    assert(rows_end(rows, dom)) by {
        assert forall|p: EventModel, q: EventModel, u: Seq<char>, v: Seq<char>|
            #![trigger rows(p) + u, rows(q) + v]
            dom(p) && dom(q) && rows(p) + u == rows(q) + v implies p == q && u == v by {
            lemma_event_rows(p, u, q, v);
        }
    }
    assert(rows_marked(rows, 2, ' '));
    assert(block(a.map_values(rows)) + lit + x =~= block(a.map_values(rows)) + (lit + x));
    assert(block(b.map_values(rows)) + lit + y =~= block(b.map_values(rows)) + (lit + y));
    lemma_block(a, lit + x, b, lit + y, rows, dom, 2, ' ');
    lemma_cancel(lit, x, y);
}

/// The text of an inventory, each part before what follows it.
pub proof fn lemma_inventory_text(inv: InventoryModel)
    ensures
        inventory_text(inv) == "{\n  \"abi_version\": "@ + (decimal(inv.abi_version as nat)
            + ",\n  \"functions\": [\n"@ + after_functions(inv)),
{
    let start = "{\n  \"abi_version\": "@;
    let functions = ",\n  \"functions\": [\n"@;
    let types = "  ],\n  \"types\": [\n"@;
    let errors = "  ],\n  \"errors\": [\n"@;
    let events = "  ],\n  \"events\": [\n"@;
    let end = "  ]\n}\n"@;
    let none = Seq::<char>::empty();
    let version_text = decimal(inv.abi_version as nat);
    let function_text = block(inv.functions.map_values(|f: FunctionModel| function_rows(f)));
    let type_text = block(inv.types.map_values(|t: TypeModel| type_rows(t)));
    let error_text = case_block("    "@, inv.errors);
    let event_text = block(inv.events.map_values(|e: EventModel| event_rows(e)));
    let upto_functions = start + version_text + functions;
    let upto_types = upto_functions + function_text + types;
    let upto_errors = upto_types + type_text + errors;
    let upto_events = upto_errors + error_text + events;
    assert(inventory_text(inv) =~= inventory_text(inv) + none);
    lemma_fold(upto_events, event_text, end, none);
    lemma_fold(upto_errors, error_text, events, event_text + end + none);
    lemma_fold(upto_types, type_text, errors, after_errors(inv));
    lemma_fold(upto_functions, function_text, types, after_types(inv));
    lemma_fold(start, version_text, functions, after_functions(inv));
}

/// The text that follows the head of the errors.
pub open spec fn after_errors(inv: InventoryModel) -> Seq<char> {
    case_block("    "@, inv.errors) + "  ],\n  \"events\": [\n"@ + (block(
        inv.events.map_values(|e: EventModel| event_rows(e)),
    ) + "  ]\n}\n"@ + Seq::<char>::empty())
}

/// The text that follows the head of the types.
pub open spec fn after_types(inv: InventoryModel) -> Seq<char> {
    block(inv.types.map_values(|t: TypeModel| type_rows(t))) + "  ],\n  \"errors\": [\n"@
        + after_errors(inv)
}

/// The text that follows the head of the methods.
pub open spec fn after_functions(inv: InventoryModel) -> Seq<char> {
    block(inv.functions.map_values(|f: FunctionModel| function_rows(f)))
        + "  ],\n  \"types\": [\n"@ + after_types(inv)
}

/// Two inventories with the same JSON text are the same, provided that no authorization label
/// holds a quote: the labels are written as they are.
pub proof fn same_text_means_same_inventory(a: InventoryModel, b: InventoryModel)
    requires
        forall|i: int| 0 <= i < a.functions.len() ==> unquoted((#[trigger] a.functions[i]).auth),
        forall|i: int| 0 <= i < b.functions.len() ==> unquoted((#[trigger] b.functions[i]).auth),
        inventory_text(a) == inventory_text(b),
    ensures
        a == b,
{
    let start = "{\n  \"abi_version\": "@;
    let functions = ",\n  \"functions\": [\n"@;
    let types = "  ],\n  \"types\": [\n"@;
    let errors = "  ],\n  \"errors\": [\n"@;
    let events = "  ],\n  \"events\": [\n"@;
    let end = "  ]\n}\n"@;
    let none = Seq::<char>::empty();
    reveal_strlit(",\n  \"functions\": [\n");
    reveal_strlit("  ],\n  \"types\": [\n");
    reveal_strlit("  ],\n  \"errors\": [\n");
    reveal_strlit("  ],\n  \"events\": [\n");
    reveal_strlit("  ]\n}\n");
    reveal_strlit("    ");
    let a0 = after_functions(a);
    let b0 = after_functions(b);
    let a_number = decimal(a.abi_version as nat);
    let b_number = decimal(b.abi_version as nat);
    lemma_inventory_text(a);
    lemma_inventory_text(b);
    lemma_cancel(start, a_number + functions + a0, b_number + functions + b0);
    lemma_number(a.abi_version as nat, a0, b.abi_version as nat, b0, functions);
    lemma_functions(a.functions, after_types(a), b.functions, after_types(b), types);
    lemma_types(a.types, after_errors(a), b.types, after_errors(b), errors);
    let a1 = block(a.events.map_values(|e: EventModel| event_rows(e))) + end + none;
    let b1 = block(b.events.map_values(|e: EventModel| event_rows(e))) + end + none;
    lemma_case_block("    "@, a.errors, a1, b.errors, b1, events, 2);
    lemma_events(a.events, none, b.events, none, end);
}

} // verus!
