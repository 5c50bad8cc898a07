//! The rendered inventory is JSON, and reading it gives the inventory back.
use crate::abi::inventory::{
    CaseModel, EventModel, FunctionModel, InventoryModel, ParamModel, TypeModel,
};
use crate::abi::render::{
    block, case_block, case_row, escaped, event_rows, function_rows, inventory_text, param_block,
    param_row, type_rows,
};
use crate::abi::snapshot::{
    after_errors, after_functions, after_types, lemma_block_front, lemma_case_folded,
    lemma_escaped_first, lemma_event_folded, lemma_function_folded, lemma_inventory_text,
    lemma_param_folded, lemma_type_folded,
};
use crate::json_text::{
    all_blank, digit_run, escaped_char, lemma_skip_blank, lemma_skip_blank_len, lemma_value_after,
    member_head, read_document, read_items, read_members, read_text, read_value, skip_blank,
    JsonTerm,
};
use crate::text::{decimal, digit, is_digit, lemma_decimal_value};
use vstd::prelude::*;

verus! {

/// A text without control characters.
pub open spec fn printable(s: Seq<char>) -> bool {
    forall|i: int| 0 <= i < s.len() ==> (#[trigger] s[i]) as u32 > 0x1f
}

/// A text that stands in a JSON string as it is.
pub open spec fn verbatim(s: Seq<char>) -> bool {
    printable(s) && forall|i: int|
        0 <= i < s.len() ==> (#[trigger] s[i]) != '"' && s[i] != '\\'
}

/// The text is that of the value, whatever follows it.
spec fn reads_as(text: Seq<char>, value: JsonTerm) -> bool {
    forall|x: Seq<char>| #[trigger] read_value(text + x) == Some((value, x))
}

/// The members that were read, with one more in front.
spec fn with_member(
    key: Seq<char>,
    value: JsonTerm,
    more: Option<(Seq<(Seq<char>, JsonTerm)>, Seq<char>)>,
) -> Option<(Seq<(Seq<char>, JsonTerm)>, Seq<char>)> {
    match more {
        Some((members, rest)) => Some((seq![(key, value)] + members, rest)),
        None => None,
    }
}

/// The key of a member in quotes and with its colon, behind blanks, and `tail` behind that.
spec fn key_part(lead: Seq<char>, key: Seq<char>, tail: Seq<char>) -> Seq<char> {
    lead + seq!['"'] + key + seq!['"', ':'] + tail
}

/// The text starts with a member.
spec fn starts_member(s: Seq<char>, key: Seq<char>, value: JsonTerm, rest: Seq<char>) -> bool {
    match member_head(s) {
        Some((found, after_colon)) => {
            &&& found == key
            &&& after_colon.len() <= s.len()
            &&& read_value(after_colon) == Some((value, rest))
            &&& rest.len() < s.len()
        },
        None => false,
    }
}

/// An escaped text is read back up to its closing quote.
proof fn lemma_read_escaped(s: Seq<char>, x: Seq<char>)
    requires
        printable(s),
    ensures
        read_text(escaped(s) + (seq!['"'] + x)) == Some((s, x)),
    decreases s.len(),
{
    let text = escaped(s) + (seq!['"'] + x);
    if s.len() == 0 {
        assert(text[0] == '"');
        assert(text.skip(1) =~= x);
        assert(s =~= Seq::empty());
    } else {
        let more = s.skip(1);
        assert forall|i: int| 0 <= i < more.len() implies (#[trigger] more[i]) as u32 > 0x1f by {
            assert(s[i + 1] as u32 > 0x1f);
        }
        lemma_read_escaped(more, x);
        lemma_escaped_first(s);
        assert(s[0] as u32 > 0x1f);
        if s[0] == '\\' || s[0] == '"' {
            assert(text[0] == '\\' && text[1] == s[0]);
            assert(text.skip(2) =~= escaped(more) + (seq!['"'] + x));
            assert(escaped_char(s[0]) == Some(s[0]));
        } else {
            assert(text[0] == s[0]);
            assert(text.skip(1) =~= escaped(more) + (seq!['"'] + x));
        }
        assert(seq![s[0]] + more =~= s);
    }
}

/// A text without quotes and backslashes is its own escaped form.
proof fn lemma_verbatim(s: Seq<char>)
    requires
        verbatim(s),
    ensures
        escaped(s) == s,
    decreases s.len(),
{
    if s.len() > 0 {
        let front = s.drop_last();
        assert forall|i: int| 0 <= i < front.len() implies (#[trigger] front[i]) as u32 > 0x1f
            && front[i] != '"' && front[i] != '\\' by {
            assert(s[i] == front[i]);
        }
        lemma_verbatim(front);
        assert(s[s.len() - 1] == s.last());
        assert(front.push(s.last()) =~= s);
    }
}

/// The key of a member is read.
proof fn lemma_head(lead: Seq<char>, key: Seq<char>, x: Seq<char>)
    requires
        all_blank(lead),
        verbatim(key),
    ensures
        member_head(lead + seq!['"'] + key + seq!['"', ':'] + x) == Some((key, x)),
{
    let s = lead + seq!['"'] + key + seq!['"', ':'] + x;
    let start = seq!['"'] + (key + (seq!['"'] + (seq![':'] + x)));
    assert(s =~= lead + start);
    lemma_skip_blank(lead, start);
    assert(skip_blank(start) == start);
    assert(start.skip(1) =~= key + (seq!['"'] + (seq![':'] + x)));
    lemma_verbatim(key);
    lemma_read_escaped(key, seq![':'] + x);
    let colon = seq![':'] + x;
    assert(skip_blank(colon) == colon);
    assert(colon.skip(1) =~= x);
}

/// A member starts where its key stands before its value.
proof fn lemma_starts(
    lead: Seq<char>,
    key: Seq<char>,
    text: Seq<char>,
    value: JsonTerm,
    rest: Seq<char>,
)
    requires
        all_blank(lead),
        verbatim(key),
        read_value(text) == Some((value, rest)),
        rest.len() <= text.len(),
    ensures
        starts_member(
            lead + seq!['"'] + key + seq!['"', ':'] + text,
            key,
            value,
            rest,
        ),
{
    lemma_head(lead, key, text);
}

/// Behind a member and a comma, the next member is read.
proof fn lemma_next(s: Seq<char>, key: Seq<char>, value: JsonTerm, rest: Seq<char>)
    requires
        starts_member(s, key, value, seq![','] + rest),
    ensures
        read_members(s) == with_member(key, value, read_members(rest)),
{
    let next = seq![','] + rest;
    assert(skip_blank(next) == next);
    assert(next.skip(1) =~= rest);
}

/// Behind a member and a closing brace, the members end.
proof fn lemma_last(
    s: Seq<char>,
    key: Seq<char>,
    value: JsonTerm,
    lead: Seq<char>,
    rest: Seq<char>,
)
    requires
        all_blank(lead),
        starts_member(s, key, value, lead + (seq!['}'] + rest)),
    ensures
        read_members(s) == Some((seq![(key, value)], rest)),
{
    let next = seq!['}'] + rest;
    lemma_skip_blank(lead, next);
    assert(skip_blank(next) == next);
    assert(next.skip(1) =~= rest);
}

/// A string is read, behind a blank.
proof fn lemma_text_value(s: Seq<char>, x: Seq<char>)
    requires
        printable(s),
    ensures
        read_value(seq![' ', '"'] + (escaped(s) + (seq!['"'] + x))) == Some((JsonTerm::Text(s), x)),
{
    let inner = escaped(s) + (seq!['"'] + x);
    let start = seq!['"'] + inner;
    assert(seq![' ', '"'] + inner =~= seq![' '] + start);
    lemma_skip_blank(seq![' '], start);
    assert(skip_blank(start) == start);
    assert(start.skip(1) =~= inner);
    lemma_read_escaped(s, x);
}

/// The digits of a number are those that the text starts with.
proof fn lemma_digit_run(digits: Seq<char>, x: Seq<char>)
    requires
        forall|i: int| 0 <= i < digits.len() ==> is_digit(#[trigger] digits[i]),
        x.len() > 0,
        !is_digit(x[0]),
    ensures
        digit_run(digits + x) == digits.len(),
    decreases digits.len(),
{
    let s = digits + x;
    if digits.len() == 0 {
        assert(s =~= x);
    } else {
        assert(is_digit(digits[0]));
        assert(s[0] == digits[0]);
        let more = digits.skip(1);
        assert forall|i: int| 0 <= i < more.len() implies is_digit(#[trigger] more[i]) by {
            assert(is_digit(digits[i + 1]));
        }
        assert(s.skip(1) =~= more + x);
        lemma_digit_run(more, x);
    }
}

/// A number of more than one digit does not start with a zero.
proof fn lemma_no_leading_zero(n: nat)
    requires
        n > 0,
    ensures
        decimal(n)[0] != '0',
    decreases n,
{
    if n >= 10 {
        lemma_no_leading_zero(n / 10);
        lemma_decimal_value(n / 10);
    } else {
        assert(digit(n) != '0');
    }
}

/// A number is read, behind a blank.
proof fn lemma_number_value(n: nat, x: Seq<char>)
    requires
        x.len() > 0,
        !is_digit(x[0]),
    ensures
        read_value(seq![' '] + (decimal(n) + x)) == Some((JsonTerm::Number(n), x)),
{
    let start = decimal(n) + x;
    lemma_decimal_value(n);
    lemma_digit_run(decimal(n), x);
    assert(start[0] == decimal(n)[0]);
    assert(is_digit(start[0]));
    lemma_skip_blank(seq![' '], start);
    assert(skip_blank(start) == start);
    assert(start.take(decimal(n).len() as int) =~= decimal(n));
    assert(start.skip(decimal(n).len() as int) =~= x);
    if n > 0 {
        lemma_no_leading_zero(n);
    }
}

/// The items of a list are read from the lines of a block.
proof fn lemma_items<M>(
    list: Seq<M>,
    f: spec_fn(M) -> Seq<char>,
    g: spec_fn(M) -> JsonTerm,
    lead: Seq<char>,
    indent: Seq<char>,
    x: Seq<char>,
)
    requires
        list.len() > 0,
        all_blank(lead),
        all_blank(indent),
        forall|i: int| 0 <= i < list.len() ==> reads_as(f(#[trigger] list[i]), g(list[i])),
    ensures
        read_items(lead + (block(list.map_values(f)) + (indent + (seq![']'] + x)))) == Some(
            (list.map_values(g), x),
        ),
    decreases list.len(),
{
    let end = indent + (seq![']'] + x);
    let body = block(list.map_values(f)) + end;
    lemma_block_front(list, f, end);
    reveal_strlit("\n");
    reveal_strlit(",\n");
    assert(reads_as(f(list[0]), g(list[0])));
    if list.len() == 1 {
        let after = "\n"@ + end;
        assert(read_value(f(list[0]) + after) == Some((g(list[0]), after)));
        lemma_value_after(lead, body);
        lemma_skip_blank("\n"@, end);
        lemma_skip_blank(indent, seq![']'] + x);
        assert((seq![']'] + x).skip(1) =~= x);
        assert(list.map_values(g) =~= seq![g(list[0])]);
        lemma_skip_blank_len(after);
    } else {
        let rest = list.skip(1);
        let more = block(rest.map_values(f)) + end;
        let after = ",\n"@ + more;
        assert(read_value(f(list[0]) + after) == Some((g(list[0]), after)));
        lemma_value_after(lead, body);
        assert(after[0] == ',');
        assert(skip_blank(after) == after);
        assert(after.skip(1) =~= "\n"@ + more);
        assert forall|i: int| 0 <= i < rest.len() implies reads_as(
            f(#[trigger] rest[i]),
            g(rest[i]),
        ) by {
            assert(rest[i] == list[i + 1]);
        }
        lemma_items(rest, f, g, "\n"@, indent, x);
        assert(list.map_values(g) =~= seq![g(list[0])] + rest.map_values(g));
    }
}

/// A list is read, behind a blank.
proof fn lemma_list_value<M>(
    list: Seq<M>,
    f: spec_fn(M) -> Seq<char>,
    g: spec_fn(M) -> JsonTerm,
    indent: Seq<char>,
    x: Seq<char>,
)
    requires
        all_blank(indent),
        forall|i: int| 0 <= i < list.len() ==> reads_as(f(#[trigger] list[i]), g(list[i])),
    ensures
        read_value(
            seq![' ', '[', '\n'] + (block(list.map_values(f)) + (indent + (seq![']'] + x))),
        ) == Some((JsonTerm::List(list.map_values(g)), x)),
{
    let end = indent + (seq![']'] + x);
    let body = block(list.map_values(f)) + end;
    let inner = seq!['\n'] + body;
    let start = seq!['['] + inner;
    assert(seq![' ', '[', '\n'] + body =~= seq![' '] + start);
    lemma_skip_blank(seq![' '], start);
    assert(skip_blank(start) == start);
    assert(start.skip(1) =~= inner);
    lemma_skip_blank(seq!['\n'], body);
    if list.len() == 0 {
        assert(body =~= end);
        lemma_skip_blank(indent, seq![']'] + x);
        assert((seq![']'] + x).skip(1) =~= x);
        assert(list.map_values(g) =~= Seq::empty());
    } else {
        lemma_items(list, f, g, seq!['\n'], indent, x);
        let first = skip_blank(body);
        lemma_block_front(list, f, end);
        assert(reads_as(f(list[0]), g(list[0])));
        assert(read_value(body) is Some);
        assert(first.len() > 0 && first[0] == ']' ==> digit_run(first) == 0);
    }
}

/// An object is read from its members.
proof fn lemma_object(
    lead: Seq<char>,
    s: Seq<char>,
    members: Seq<(Seq<char>, JsonTerm)>,
    x: Seq<char>,
)
    requires
        all_blank(lead),
        read_members(s) == Some((members, x)),
    ensures
        read_value(lead + (seq!['{'] + s)) == Some((JsonTerm::Object(members), x)),
{
    let start = seq!['{'] + s;
    assert(skip_blank(start) == start);
    assert(start.skip(1) =~= s);
    assert(read_value(start) == Some((JsonTerm::Object(members), x)));
    lemma_value_after(lead, start);
}

/// A member with a text, and the next member behind a comma.
proof fn lemma_text_more(
    lead: Seq<char>,
    key: Seq<char>,
    s: Seq<char>,
    next: Seq<char>,
    x: Seq<char>,
)
    requires
        all_blank(lead),
        verbatim(key),
        printable(s),
    ensures
        read_members(
            key_part(lead, key, seq![' ', '"']) + (escaped(s) + (seq!['"', ','] + next) + x),
        ) == with_member(key, JsonTerm::Text(s), read_members(next + x)),
{
    let whole = key_part(lead, key, seq![' ', '"']) + (escaped(s) + (seq!['"', ','] + next) + x);
    let rest = seq![','] + (next + x);
    let text = seq![' ', '"'] + (escaped(s) + (seq!['"'] + rest));
    assert(escaped(s) + (seq!['"', ','] + next) + x =~= escaped(s) + (seq!['"'] + rest));
    assert(whole =~= lead + seq!['"'] + key + seq!['"', ':'] + text);
    lemma_text_value(s, rest);
    lemma_starts(lead, key, text, JsonTerm::Text(s), rest);
    lemma_next(whole, key, JsonTerm::Text(s), next + x);
}

/// A member with a text, and the end of the object.
proof fn lemma_text_last(
    lead: Seq<char>,
    key: Seq<char>,
    s: Seq<char>,
    gap: Seq<char>,
    x: Seq<char>,
)
    requires
        all_blank(lead),
        all_blank(gap),
        verbatim(key),
        printable(s),
    ensures
        read_members(
            key_part(lead, key, seq![' ', '"']) + (escaped(s) + (seq!['"'] + gap + seq!['}']) + x),
        ) == Some((seq![(key, JsonTerm::Text(s))], x)),
{
    let tail = seq!['"'] + gap + seq!['}'];
    let whole = key_part(lead, key, seq![' ', '"']) + (escaped(s) + tail + x);
    let rest = gap + (seq!['}'] + x);
    let text = seq![' ', '"'] + (escaped(s) + (seq!['"'] + rest));
    assert(escaped(s) + tail + x =~= escaped(s) + (seq!['"'] + rest));
    assert(whole =~= lead + seq!['"'] + key + seq!['"', ':'] + text);
    lemma_text_value(s, rest);
    lemma_starts(lead, key, text, JsonTerm::Text(s), rest);
    lemma_last(whole, key, JsonTerm::Text(s), gap, x);
}

/// A member with a number, and the next member behind a comma.
proof fn lemma_number_more(
    lead: Seq<char>,
    key: Seq<char>,
    n: nat,
    next: Seq<char>,
    x: Seq<char>,
)
    requires
        all_blank(lead),
        verbatim(key),
    ensures
        read_members(key_part(lead, key, seq![' ']) + (decimal(n) + (seq![','] + next) + x))
            == with_member(key, JsonTerm::Number(n), read_members(next + x)),
{
    let whole = key_part(lead, key, seq![' ']) + (decimal(n) + (seq![','] + next) + x);
    let rest = seq![','] + (next + x);
    let text = seq![' '] + (decimal(n) + rest);
    assert(decimal(n) + (seq![','] + next) + x =~= decimal(n) + rest);
    assert(whole =~= lead + seq!['"'] + key + seq!['"', ':'] + text);
    lemma_number_value(n, rest);
    lemma_starts(lead, key, text, JsonTerm::Number(n), rest);
    lemma_next(whole, key, JsonTerm::Number(n), next + x);
}

/// A member with a number, and the end of the object.
proof fn lemma_number_last(lead: Seq<char>, key: Seq<char>, n: nat, x: Seq<char>)
    requires
        all_blank(lead),
        verbatim(key),
    ensures
        read_members(key_part(lead, key, seq![' ']) + (decimal(n) + seq!['}'] + x)) == Some(
            (seq![(key, JsonTerm::Number(n))], x),
        ),
{
    let whole = key_part(lead, key, seq![' ']) + (decimal(n) + seq!['}'] + x);
    let none = Seq::<char>::empty();
    let rest = none + (seq!['}'] + x);
    let text = seq![' '] + (decimal(n) + rest);
    assert(decimal(n) + seq!['}'] + x =~= decimal(n) + rest);
    assert(whole =~= lead + seq!['"'] + key + seq!['"', ':'] + text);
    lemma_number_value(n, rest);
    lemma_starts(lead, key, text, JsonTerm::Number(n), rest);
    lemma_last(whole, key, JsonTerm::Number(n), none, x);
}

/// A member with a list, and the next member behind a comma.
proof fn lemma_list_more<M>(
    lead: Seq<char>,
    key: Seq<char>,
    list: Seq<M>,
    f: spec_fn(M) -> Seq<char>,
    g: spec_fn(M) -> JsonTerm,
    indent: Seq<char>,
    next: Seq<char>,
    x: Seq<char>,
)
    requires
        all_blank(lead),
        all_blank(indent),
        verbatim(key),
        forall|i: int| 0 <= i < list.len() ==> reads_as(f(#[trigger] list[i]), g(list[i])),
    ensures
        read_members(
            key_part(lead, key, seq![' ', '[', '\n']) + (block(list.map_values(f)) + (indent + seq![
                ']',
                ',',
            ] + next) + x),
        ) == with_member(key, JsonTerm::List(list.map_values(g)), read_members(next + x)),
{
    let body = block(list.map_values(f));
    let value = JsonTerm::List(list.map_values(g));
    let tail = indent + seq![']', ','] + next;
    let whole = key_part(lead, key, seq![' ', '[', '\n']) + (body + tail + x);
    let rest = seq![','] + (next + x);
    let text = seq![' ', '[', '\n'] + (body + (indent + (seq![']'] + rest)));
    assert(tail + x =~= indent + (seq![']'] + rest));
    assert(body + tail + x =~= body + (tail + x));
    assert(whole =~= lead + seq!['"'] + key + seq!['"', ':'] + text);
    lemma_list_value(list, f, g, indent, rest);
    lemma_starts(lead, key, text, value, rest);
    lemma_next(whole, key, value, next + x);
}

/// A member with a list, and the end of the object.
proof fn lemma_list_last<M>(
    lead: Seq<char>,
    key: Seq<char>,
    list: Seq<M>,
    f: spec_fn(M) -> Seq<char>,
    g: spec_fn(M) -> JsonTerm,
    indent: Seq<char>,
    gap: Seq<char>,
    x: Seq<char>,
)
    requires
        all_blank(lead),
        all_blank(indent),
        all_blank(gap),
        verbatim(key),
        forall|i: int| 0 <= i < list.len() ==> reads_as(f(#[trigger] list[i]), g(list[i])),
    ensures
        read_members(
            key_part(lead, key, seq![' ', '[', '\n']) + (block(list.map_values(f)) + (indent + seq![
                ']',
            ] + gap + seq!['}']) + x),
        ) == Some((seq![(key, JsonTerm::List(list.map_values(g)))], x)),
{
    let body = block(list.map_values(f));
    let value = JsonTerm::List(list.map_values(g));
    let tail = indent + seq![']'] + gap + seq!['}'];
    let whole = key_part(lead, key, seq![' ', '[', '\n']) + (body + tail + x);
    let rest = gap + (seq!['}'] + x);
    let text = seq![' ', '[', '\n'] + (body + (indent + (seq![']'] + rest)));
    assert(tail + x =~= indent + (seq![']'] + rest));
    assert(body + tail + x =~= body + (tail + x));
    assert(whole =~= lead + seq!['"'] + key + seq!['"', ':'] + text);
    lemma_list_value(list, f, g, indent, rest);
    lemma_starts(lead, key, text, value, rest);
    lemma_last(whole, key, value, gap, x);
}

/// The opening brace of an object stands before its members.
proof fn lemma_open(lead: Seq<char>, head: Seq<char>, x: Seq<char>)
    ensures
        lead + seq!['{'] + head + x == lead + (seq!['{'] + (head + x)),
{
    assert(lead + seq!['{'] + head + x =~= lead + (seq!['{'] + (head + x)));
}

/// A parameter as a JSON value.
pub open spec fn param_term(p: ParamModel) -> JsonTerm {
    JsonTerm::Object(
        seq![("name"@, JsonTerm::Text(p.name)), ("type"@, JsonTerm::Text(p.ty))],
    )
}

/// An error or an enum case as a JSON value.
pub open spec fn case_term(c: CaseModel) -> JsonTerm {
    JsonTerm::Object(
        seq![
            ("name"@, JsonTerm::Text(c.name)),
            ("discriminant"@, JsonTerm::Number(c.discriminant as nat)),
        ],
    )
}

/// The line of a parameter is JSON.
proof fn lemma_param(p: ParamModel)
    requires
        printable(p.name),
        printable(p.ty),
    ensures
        reads_as(param_row(p), param_term(p)),
{
    let none = Seq::<char>::empty();
    let lead = "        "@;
    let first = key_part(none, "name"@, seq![' ', '"']);
    let second = key_part(seq![' '], "type"@, seq![' ', '"']);
    reveal_strlit("name");
    reveal_strlit("type");
    reveal_strlit("        ");
    reveal_strlit("        {\"name\": \"");
    reveal_strlit("\", \"type\": \"");
    reveal_strlit("\"}");
    assert("        {\"name\": \""@ =~= lead + seq!['{'] + first);
    assert("\", \"type\": \""@ =~= seq!['"', ','] + second);
    assert("\"}"@ =~= seq!['"'] + none + seq!['}']);
    assert forall|x: Seq<char>| #[trigger] read_value(param_row(p) + x) == Some((param_term(p), x))
        by {
        let y = escaped(p.ty) + "\"}"@ + x;
        let z = escaped(p.name) + "\", \"type\": \""@ + y;
        lemma_param_folded(p, x);
        lemma_open(lead, first, z);
        lemma_text_last(seq![' '], "type"@, p.ty, none, x);
        lemma_text_more(none, "name"@, p.name, second, y);
        let members = seq![("name"@, JsonTerm::Text(p.name))] + seq![
            ("type"@, JsonTerm::Text(p.ty)),
        ];
        lemma_object(lead, first + z, members, x);
        assert(members =~= seq![("name"@, JsonTerm::Text(p.name)), ("type"@, JsonTerm::Text(p.ty))]);
    }
}

/// The line of an error or an enum case is JSON.
proof fn lemma_case(indent: Seq<char>, c: CaseModel)
    requires
        all_blank(indent),
        printable(c.name),
    ensures
        reads_as(case_row(indent, c), case_term(c)),
{
    let none = Seq::<char>::empty();
    let n = c.discriminant as nat;
    let first = key_part(none, "name"@, seq![' ', '"']);
    let second = key_part(seq![' '], "discriminant"@, seq![' ']);
    reveal_strlit("name");
    reveal_strlit("discriminant");
    reveal_strlit("{\"name\": \"");
    reveal_strlit("\", \"discriminant\": ");
    reveal_strlit("}");
    assert("{\"name\": \""@ =~= seq!['{'] + first);
    assert(indent + "{\"name\": \""@ =~= indent + seq!['{'] + first);
    assert("\", \"discriminant\": "@ =~= seq!['"', ','] + second);
    assert("}"@ =~= seq!['}']);
    assert forall|x: Seq<char>| #[trigger]
        read_value(case_row(indent, c) + x) == Some((case_term(c), x)) by {
        let y = decimal(n) + "}"@ + x;
        let z = escaped(c.name) + "\", \"discriminant\": "@ + y;
        lemma_case_folded(indent, c, x);
        lemma_open(indent, first, z);
        lemma_number_last(seq![' '], "discriminant"@, n, x);
        lemma_text_more(none, "name"@, c.name, second, y);
        let members = seq![("name"@, JsonTerm::Text(c.name))] + seq![
            ("discriminant"@, JsonTerm::Number(n)),
        ];
        lemma_object(indent, first + z, members, x);
        assert(members =~= seq![
            ("name"@, JsonTerm::Text(c.name)),
            ("discriminant"@, JsonTerm::Number(n)),
        ]);
    }
}

/// Parameters or fields as a JSON value.
pub open spec fn param_terms(list: Seq<ParamModel>) -> JsonTerm {
    JsonTerm::List(list.map_values(|p: ParamModel| param_term(p)))
}

/// Errors or enum cases as a JSON value.
pub open spec fn case_terms(list: Seq<CaseModel>) -> JsonTerm {
    JsonTerm::List(list.map_values(|c: CaseModel| case_term(c)))
}

/// A method as a JSON value.
pub open spec fn function_term(f: FunctionModel) -> JsonTerm {
    JsonTerm::Object(
        seq![
            ("name"@, JsonTerm::Text(f.name)),
            ("auth"@, JsonTerm::Text(f.auth)),
            ("inputs"@, param_terms(f.inputs)),
            ("outputs"@, JsonTerm::Text(f.outputs)),
        ],
    )
}

/// A type as a JSON value.
pub open spec fn type_term(t: TypeModel) -> JsonTerm {
    JsonTerm::Object(
        seq![
            ("name"@, JsonTerm::Text(t.name)),
            ("kind"@, JsonTerm::Text(t.kind)),
            ("fields"@, param_terms(t.fields)),
            ("cases"@, case_terms(t.cases)),
        ],
    )
}

/// An event as a JSON value.
pub open spec fn event_term(e: EventModel) -> JsonTerm {
    JsonTerm::Object(
        seq![
            ("name"@, JsonTerm::Text(e.name)),
            ("topics"@, param_terms(e.topics)),
            ("data"@, param_terms(e.data)),
        ],
    )
}

/// An inventory as a JSON value.
pub open spec fn inventory_term(inv: InventoryModel) -> JsonTerm {
    JsonTerm::Object(
        seq![
            ("abi_version"@, JsonTerm::Number(inv.abi_version as nat)),
            (
                "functions"@,
                JsonTerm::List(inv.functions.map_values(|f: FunctionModel| function_term(f))),
            ),
            ("types"@, JsonTerm::List(inv.types.map_values(|t: TypeModel| type_term(t)))),
            ("errors"@, case_terms(inv.errors)),
            ("events"@, JsonTerm::List(inv.events.map_values(|e: EventModel| event_term(e)))),
        ],
    )
}

/// No name or type of the list holds a control character.
pub open spec fn params_printable(list: Seq<ParamModel>) -> bool {
    forall|i: int|
        0 <= i < list.len() ==> printable((#[trigger] list[i]).name) && printable(list[i].ty)
}

/// No name of the list holds a control character.
pub open spec fn cases_printable(list: Seq<CaseModel>) -> bool {
    forall|i: int| 0 <= i < list.len() ==> printable((#[trigger] list[i]).name)
}

/// No text of the method holds a control character, and who authorizes it is written as it is.
pub open spec fn function_printable(f: FunctionModel) -> bool {
    printable(f.name) && verbatim(f.auth) && params_printable(f.inputs) && printable(f.outputs)
}

/// No text of the type holds a control character.
pub open spec fn type_printable(t: TypeModel) -> bool {
    printable(t.name) && printable(t.kind) && params_printable(t.fields) && cases_printable(t.cases)
}

/// No text of the event holds a control character.
pub open spec fn event_printable(e: EventModel) -> bool {
    printable(e.name) && params_printable(e.topics) && params_printable(e.data)
}

/// No text of the inventory holds a control character, and no authorization label holds a quote or
/// a backslash either.
pub open spec fn inventory_printable(inv: InventoryModel) -> bool {
    &&& forall|i: int| 0 <= i < inv.functions.len() ==> function_printable(#[trigger] inv.functions[i])
    &&& forall|i: int| 0 <= i < inv.types.len() ==> type_printable(#[trigger] inv.types[i])
    &&& cases_printable(inv.errors)
    &&& forall|i: int| 0 <= i < inv.events.len() ==> event_printable(#[trigger] inv.events[i])
}

/// The lines of parameters are JSON, each of them.
proof fn lemma_params(list: Seq<ParamModel>)
    requires
        params_printable(list),
    ensures
        forall|i: int|
            0 <= i < list.len() ==> reads_as(
                (|p: ParamModel| param_row(p))(#[trigger] list[i]),
                (|p: ParamModel| param_term(p))(list[i]),
            ),
{
    assert forall|i: int| 0 <= i < list.len() implies reads_as(
        (|p: ParamModel| param_row(p))(#[trigger] list[i]),
        (|p: ParamModel| param_term(p))(list[i]),
    ) by {
        lemma_param(list[i]);
    }
}

/// The lines of errors or enum cases are JSON, each of them.
proof fn lemma_cases(indent: Seq<char>, list: Seq<CaseModel>)
    requires
        all_blank(indent),
        cases_printable(list),
    ensures
        forall|i: int|
            0 <= i < list.len() ==> reads_as(
                (|c: CaseModel| case_row(indent, c))(#[trigger] list[i]),
                (|c: CaseModel| case_term(c))(list[i]),
            ),
{
    assert forall|i: int| 0 <= i < list.len() implies reads_as(
        (|c: CaseModel| case_row(indent, c))(#[trigger] list[i]),
        (|c: CaseModel| case_term(c))(list[i]),
    ) by {
        lemma_case(indent, list[i]);
    }
}

/// The literals around the parts of a method, taken apart.
proof fn lemma_function_literals()
    ensures
        all_blank("    "@),
        all_blank("      "@),
        all_blank("\n    "@),
        all_blank("\n      "@),
        verbatim("name"@),
        verbatim("auth"@),
        verbatim("inputs"@),
        verbatim("outputs"@),
        "    {\n      \"name\": \""@ == "    "@ + seq!['{'] + key_part(
            "\n      "@,
            "name"@,
            seq![' ', '"'],
        ),
        "\",\n      \"auth\": \""@ == seq!['"', ','] + key_part(
            "\n      "@,
            "auth"@,
            seq![' ', '"'],
        ),
        "\",\n      \"inputs\": [\n"@ == seq!['"', ','] + key_part(
            "\n      "@,
            "inputs"@,
            seq![' ', '[', '\n'],
        ),
        "      ],\n      \"outputs\": \""@ == "      "@ + seq![']', ','] + key_part(
            "\n      "@,
            "outputs"@,
            seq![' ', '"'],
        ),
        "\"\n    }"@ == seq!['"'] + "\n    "@ + seq!['}'],
{
    reveal_strlit("    ");
    reveal_strlit("      ");
    reveal_strlit("\n    ");
    reveal_strlit("\n      ");
    reveal_strlit("name");
    reveal_strlit("auth");
    reveal_strlit("inputs");
    reveal_strlit("outputs");
    reveal_strlit("    {\n      \"name\": \"");
    reveal_strlit("\",\n      \"auth\": \"");
    reveal_strlit("\",\n      \"inputs\": [\n");
    reveal_strlit("      ],\n      \"outputs\": \"");
    reveal_strlit("\"\n    }");
}

/// The lines of a method are JSON.
proof fn lemma_function(f: FunctionModel)
    requires
        function_printable(f),
    ensures
        reads_as(function_rows(f), function_term(f)),
{
    let gap = "\n      "@;
    let head = key_part(gap, "name"@, seq![' ', '"']);
    let auth = key_part(gap, "auth"@, seq![' ', '"']);
    let inputs = key_part(gap, "inputs"@, seq![' ', '[', '\n']);
    let outputs = key_part(gap, "outputs"@, seq![' ', '"']);
    let rows = |p: ParamModel| param_row(p);
    let terms = |p: ParamModel| param_term(p);
    lemma_function_literals();
    lemma_verbatim(f.auth);
    lemma_params(f.inputs);
    assert forall|x: Seq<char>| #[trigger]
        read_value(function_rows(f) + x) == Some((function_term(f), x)) by {
        let x3 = escaped(f.outputs) + "\"\n    }"@ + x;
        let x2 = param_block(f.inputs) + "      ],\n      \"outputs\": \""@ + x3;
        let x1 = f.auth + "\",\n      \"inputs\": [\n"@ + x2;
        let x0 = escaped(f.name) + "\",\n      \"auth\": \""@ + x1;
        lemma_function_folded(f, x);
        lemma_open("    "@, head, x0);
        lemma_text_last(gap, "outputs"@, f.outputs, "\n    "@, x);
        lemma_list_more(gap, "inputs"@, f.inputs, rows, terms, "      "@, outputs, x3);
        lemma_text_more(gap, "auth"@, f.auth, inputs, x2);
        lemma_text_more(gap, "name"@, f.name, auth, x1);
        let members = seq![("name"@, JsonTerm::Text(f.name))] + (seq![
            ("auth"@, JsonTerm::Text(f.auth)),
        ] + (seq![("inputs"@, param_terms(f.inputs))] + seq![
            ("outputs"@, JsonTerm::Text(f.outputs)),
        ]));
        lemma_object("    "@, head + x0, members, x);
        assert(members =~= function_term(f)->Object_0);
    }
}

/// The literals around the parts of a type or an event, taken apart.
proof fn lemma_type_literals()
    ensures
        all_blank("    "@),
        all_blank("      "@),
        all_blank("        "@),
        all_blank("\n    "@),
        all_blank("\n      "@),
        verbatim("name"@),
        verbatim("kind"@),
        verbatim("fields"@),
        verbatim("cases"@),
        verbatim("topics"@),
        verbatim("data"@),
        "    {\n      \"name\": \""@ == "    "@ + seq!['{'] + key_part(
            "\n      "@,
            "name"@,
            seq![' ', '"'],
        ),
        "\",\n      \"kind\": \""@ == seq!['"', ','] + key_part(
            "\n      "@,
            "kind"@,
            seq![' ', '"'],
        ),
        "\",\n      \"fields\": [\n"@ == seq!['"', ','] + key_part(
            "\n      "@,
            "fields"@,
            seq![' ', '[', '\n'],
        ),
        "      ],\n      \"cases\": [\n"@ == "      "@ + seq![']', ','] + key_part(
            "\n      "@,
            "cases"@,
            seq![' ', '[', '\n'],
        ),
        "\",\n      \"topics\": [\n"@ == seq!['"', ','] + key_part(
            "\n      "@,
            "topics"@,
            seq![' ', '[', '\n'],
        ),
        "      ],\n      \"data\": [\n"@ == "      "@ + seq![']', ','] + key_part(
            "\n      "@,
            "data"@,
            seq![' ', '[', '\n'],
        ),
        "      ]\n    }"@ == "      "@ + seq![']'] + "\n    "@ + seq!['}'],
{
    reveal_strlit("    ");
    reveal_strlit("      ");
    reveal_strlit("        ");
    reveal_strlit("\n    ");
    reveal_strlit("\n      ");
    reveal_strlit("name");
    reveal_strlit("kind");
    reveal_strlit("fields");
    reveal_strlit("cases");
    reveal_strlit("topics");
    reveal_strlit("data");
    reveal_strlit("    {\n      \"name\": \"");
    reveal_strlit("\",\n      \"kind\": \"");
    reveal_strlit("\",\n      \"fields\": [\n");
    reveal_strlit("      ],\n      \"cases\": [\n");
    reveal_strlit("\",\n      \"topics\": [\n");
    reveal_strlit("      ],\n      \"data\": [\n");
    reveal_strlit("      ]\n    }");
}

/// The lines of a type are JSON.
proof fn lemma_type(t: TypeModel)
    requires
        type_printable(t),
    ensures
        reads_as(type_rows(t), type_term(t)),
{
    let gap = "\n      "@;
    let indent = "        "@;
    let head = key_part(gap, "name"@, seq![' ', '"']);
    let kind = key_part(gap, "kind"@, seq![' ', '"']);
    let fields = key_part(gap, "fields"@, seq![' ', '[', '\n']);
    let cases = key_part(gap, "cases"@, seq![' ', '[', '\n']);
    let rows = |p: ParamModel| param_row(p);
    let terms = |p: ParamModel| param_term(p);
    let case_rows = |c: CaseModel| case_row(indent, c);
    let case_list = |c: CaseModel| case_term(c);
    lemma_type_literals();
    lemma_params(t.fields);
    lemma_cases(indent, t.cases);
    assert forall|x: Seq<char>| #[trigger] read_value(type_rows(t) + x) == Some((type_term(t), x))
        by {
        let x3 = case_block(indent, t.cases) + "      ]\n    }"@ + x;
        let x2 = param_block(t.fields) + "      ],\n      \"cases\": [\n"@ + x3;
        let x1 = escaped(t.kind) + "\",\n      \"fields\": [\n"@ + x2;
        let x0 = escaped(t.name) + "\",\n      \"kind\": \""@ + x1;
        lemma_type_folded(t, x);
        lemma_open("    "@, head, x0);
        lemma_list_last(
            gap,
            "cases"@,
            t.cases,
            case_rows,
            case_list,
            "      "@,
            "\n    "@,
            x,
        );
        lemma_list_more(gap, "fields"@, t.fields, rows, terms, "      "@, cases, x3);
        lemma_text_more(gap, "kind"@, t.kind, fields, x2);
        lemma_text_more(gap, "name"@, t.name, kind, x1);
        let members = seq![("name"@, JsonTerm::Text(t.name))] + (seq![
            ("kind"@, JsonTerm::Text(t.kind)),
        ] + (seq![("fields"@, param_terms(t.fields))] + seq![("cases"@, case_terms(t.cases))]));
        lemma_object("    "@, head + x0, members, x);
        assert(members =~= type_term(t)->Object_0);
    }
}

/// The lines of an event are JSON.
proof fn lemma_event(e: EventModel)
    requires
        event_printable(e),
    ensures
        reads_as(event_rows(e), event_term(e)),
{
    let gap = "\n      "@;
    let head = key_part(gap, "name"@, seq![' ', '"']);
    let topics = key_part(gap, "topics"@, seq![' ', '[', '\n']);
    let data = key_part(gap, "data"@, seq![' ', '[', '\n']);
    let rows = |p: ParamModel| param_row(p);
    let terms = |p: ParamModel| param_term(p);
    lemma_type_literals();
    lemma_params(e.topics);
    lemma_params(e.data);
    assert forall|x: Seq<char>| #[trigger] read_value(event_rows(e) + x) == Some((event_term(e), x))
        by {
        let x2 = param_block(e.data) + "      ]\n    }"@ + x;
        let x1 = param_block(e.topics) + "      ],\n      \"data\": [\n"@ + x2;
        let x0 = escaped(e.name) + "\",\n      \"topics\": [\n"@ + x1;
        lemma_event_folded(e, x);
        lemma_open("    "@, head, x0);
        lemma_list_last(gap, "data"@, e.data, rows, terms, "      "@, "\n    "@, x);
        lemma_list_more(gap, "topics"@, e.topics, rows, terms, "      "@, data, x2);
        lemma_text_more(gap, "name"@, e.name, topics, x1);
        let members = seq![("name"@, JsonTerm::Text(e.name))] + (seq![
            ("topics"@, param_terms(e.topics)),
        ] + seq![("data"@, param_terms(e.data))]);
        lemma_object("    "@, head + x0, members, x);
        assert(members =~= event_term(e)->Object_0);
    }
}

/// The literals around the lists of an inventory, taken apart.
proof fn lemma_inventory_literals()
    ensures
        all_blank("    "@),
        all_blank("  "@),
        all_blank("\n"@),
        all_blank("\n  "@),
        verbatim("abi_version"@),
        verbatim("functions"@),
        verbatim("types"@),
        verbatim("errors"@),
        verbatim("events"@),
        "{\n  \"abi_version\": "@ == seq!['{'] + key_part("\n  "@, "abi_version"@, seq![' ']),
        ",\n  \"functions\": [\n"@ == seq![','] + key_part(
            "\n  "@,
            "functions"@,
            seq![' ', '[', '\n'],
        ),
        "  ],\n  \"types\": [\n"@ == "  "@ + seq![']', ','] + key_part(
            "\n  "@,
            "types"@,
            seq![' ', '[', '\n'],
        ),
        "  ],\n  \"errors\": [\n"@ == "  "@ + seq![']', ','] + key_part(
            "\n  "@,
            "errors"@,
            seq![' ', '[', '\n'],
        ),
        "  ],\n  \"events\": [\n"@ == "  "@ + seq![']', ','] + key_part(
            "\n  "@,
            "events"@,
            seq![' ', '[', '\n'],
        ),
        "  ]\n}\n"@ == "  "@ + seq![']'] + "\n"@ + seq!['}'] + "\n"@,
{
    reveal_strlit("    ");
    reveal_strlit("  ");
    reveal_strlit("\n");
    reveal_strlit("\n  ");
    reveal_strlit("abi_version");
    reveal_strlit("functions");
    reveal_strlit("types");
    reveal_strlit("errors");
    reveal_strlit("events");
    reveal_strlit("{\n  \"abi_version\": ");
    reveal_strlit(",\n  \"functions\": [\n");
    reveal_strlit("  ],\n  \"types\": [\n");
    reveal_strlit("  ],\n  \"errors\": [\n");
    reveal_strlit("  ],\n  \"events\": [\n");
    reveal_strlit("  ]\n}\n");
}

/// The lines of an inventory's lists are JSON, each of them.
proof fn lemma_lists(inv: InventoryModel)
    requires
        inventory_printable(inv),
    ensures
        forall|i: int|
            0 <= i < inv.functions.len() ==> reads_as(
                (|f: FunctionModel| function_rows(f))(#[trigger] inv.functions[i]),
                (|f: FunctionModel| function_term(f))(inv.functions[i]),
            ),
        forall|i: int|
            0 <= i < inv.types.len() ==> reads_as(
                (|t: TypeModel| type_rows(t))(#[trigger] inv.types[i]),
                (|t: TypeModel| type_term(t))(inv.types[i]),
            ),
        forall|i: int|
            0 <= i < inv.events.len() ==> reads_as(
                (|e: EventModel| event_rows(e))(#[trigger] inv.events[i]),
                (|e: EventModel| event_term(e))(inv.events[i]),
            ),
{
    assert forall|i: int| 0 <= i < inv.functions.len() implies reads_as(
        (|f: FunctionModel| function_rows(f))(#[trigger] inv.functions[i]),
        (|f: FunctionModel| function_term(f))(inv.functions[i]),
    ) by {
        lemma_function(inv.functions[i]);
    }
    assert forall|i: int| 0 <= i < inv.types.len() implies reads_as(
        (|t: TypeModel| type_rows(t))(#[trigger] inv.types[i]),
        (|t: TypeModel| type_term(t))(inv.types[i]),
    ) by {
        lemma_type(inv.types[i]);
    }
    assert forall|i: int| 0 <= i < inv.events.len() implies reads_as(
        (|e: EventModel| event_rows(e))(#[trigger] inv.events[i]),
        (|e: EventModel| event_term(e))(inv.events[i]),
    ) by {
        lemma_event(inv.events[i]);
    }
}

/// The head of a list of an inventory.
spec fn list_head(key: Seq<char>) -> Seq<char> {
    key_part("\n  "@, key, seq![' ', '[', '\n'])
}

/// The member with the events.
spec fn events_member(inv: InventoryModel) -> Seq<(Seq<char>, JsonTerm)> {
    seq![("events"@, JsonTerm::List(inv.events.map_values(|e: EventModel| event_term(e))))]
}

/// The members from the errors on.
spec fn errors_members(inv: InventoryModel) -> Seq<(Seq<char>, JsonTerm)> {
    seq![("errors"@, case_terms(inv.errors))] + events_member(inv)
}

/// The members from the types on.
spec fn types_members(inv: InventoryModel) -> Seq<(Seq<char>, JsonTerm)> {
    seq![("types"@, JsonTerm::List(inv.types.map_values(|t: TypeModel| type_term(t))))]
        + errors_members(inv)
}

/// The members from the methods on.
spec fn functions_members(inv: InventoryModel) -> Seq<(Seq<char>, JsonTerm)> {
    seq![
        (
            "functions"@,
            JsonTerm::List(inv.functions.map_values(|f: FunctionModel| function_term(f))),
        ),
    ] + types_members(inv)
}

/// The errors and events of an inventory are read.
proof fn lemma_from_errors(inv: InventoryModel)
    requires
        inventory_printable(inv),
    ensures
        read_members(list_head("errors"@) + after_errors(inv)) == Some((errors_members(inv), "\n"@)),
{
    let gap = "\n  "@;
    let indent = "    "@;
    let none = Seq::<char>::empty();
    let c_rows = |c: CaseModel| case_row(indent, c);
    let c_terms = |c: CaseModel| case_term(c);
    let e_rows = |e: EventModel| event_rows(e);
    let e_terms = |e: EventModel| event_term(e);
    lemma_inventory_literals();
    lemma_lists(inv);
    lemma_cases(indent, inv.errors);
    let body = block(inv.events.map_values(e_rows));
    let close = "  "@ + seq![']'] + "\n"@ + seq!['}'];
    let tail = body + "  ]\n}\n"@ + none;
    assert(tail == body + close + "\n"@) by {
        assert(body + (close + "\n"@) + none =~= body + close + "\n"@);
    }
    lemma_list_last(gap, "events"@, inv.events, e_rows, e_terms, "  "@, "\n"@, "\n"@);
    lemma_list_more(
        gap,
        "errors"@,
        inv.errors,
        c_rows,
        c_terms,
        "  "@,
        list_head("events"@),
        tail,
    );
}

/// The types, errors and events of an inventory are read.
proof fn lemma_from_types(inv: InventoryModel)
    requires
        inventory_printable(inv),
    ensures
        read_members(list_head("types"@) + after_types(inv)) == Some((types_members(inv), "\n"@)),
{
    let rows = |t: TypeModel| type_rows(t);
    let terms = |t: TypeModel| type_term(t);
    lemma_inventory_literals();
    lemma_lists(inv);
    lemma_from_errors(inv);
    lemma_list_more(
        "\n  "@,
        "types"@,
        inv.types,
        rows,
        terms,
        "  "@,
        list_head("errors"@),
        after_errors(inv),
    );
}

/// The methods, types, errors and events of an inventory are read.
proof fn lemma_from_functions(inv: InventoryModel)
    requires
        inventory_printable(inv),
    ensures
        read_members(list_head("functions"@) + after_functions(inv)) == Some(
            (functions_members(inv), "\n"@),
        ),
{
    let rows = |f: FunctionModel| function_rows(f);
    let terms = |f: FunctionModel| function_term(f);
    lemma_inventory_literals();
    lemma_lists(inv);
    lemma_from_types(inv);
    lemma_list_more(
        "\n  "@,
        "functions"@,
        inv.functions,
        rows,
        terms,
        "  "@,
        list_head("types"@),
        after_types(inv),
    );
}

/// The members of an inventory are those of its JSON value.
proof fn lemma_all_members(inv: InventoryModel)
    ensures
        JsonTerm::Object(
            seq![("abi_version"@, JsonTerm::Number(inv.abi_version as nat))] + functions_members(inv),
        ) == inventory_term(inv),
{
    let members = seq![("abi_version"@, JsonTerm::Number(inv.abi_version as nat))]
        + functions_members(inv);
    assert(members =~= inventory_term(inv)->Object_0);
}

/// The text of an inventory, taken apart as its folding gives it, is read.
proof fn lemma_whole(inv: InventoryModel)
    requires
        inventory_printable(inv),
    ensures
        read_value(
            "{\n  \"abi_version\": "@ + (decimal(inv.abi_version as nat)
                + ",\n  \"functions\": [\n"@ + after_functions(inv)),
        ) == Some((inventory_term(inv), "\n"@)),
{
    let none = Seq::<char>::empty();
    let n = inv.abi_version as nat;
    let after = after_functions(inv);
    let head = key_part("\n  "@, "abi_version"@, seq![' ']);
    let x = decimal(n) + ",\n  \"functions\": [\n"@ + after;
    lemma_inventory_literals();
    lemma_from_functions(inv);
    lemma_number_more("\n  "@, "abi_version"@, n, list_head("functions"@), after);
    lemma_all_members(inv);
    let members = seq![("abi_version"@, JsonTerm::Number(n))] + functions_members(inv);
    assert(read_members(head + x) == Some((members, "\n"@)));
    lemma_object(none, head + x, members, "\n"@);
    lemma_open(none, head, x);
    assert(none + seq!['{'] =~= seq!['{']);
}

/// The rendered inventory is one JSON object, with the members `abi_version`, `functions`, `types`,
/// `errors` and `events`, that holds every field of the inventory with all lists in their order.
pub proof fn inventory_text_is_json(inv: InventoryModel)
    requires
        inventory_printable(inv),
    ensures
        read_document(inventory_text(inv)) == Some(inventory_term(inv)),
{
    let none = Seq::<char>::empty();
    lemma_inventory_text(inv);
    lemma_whole(inv);
    assert(skip_blank("\n"@).len() == 0) by {
        lemma_inventory_literals();
        lemma_skip_blank("\n"@, none);
        assert("\n"@ + none =~= "\n"@);
    }
}

} // verus!
