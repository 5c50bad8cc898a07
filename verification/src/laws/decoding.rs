//! What is read from the entries of a contract specification, and who authorizes what.
use crate::abi::decode::{
    all_of, case_rule, errors_of, event_key, event_of, event_rule, function_key, function_of,
    function_rule, inventory_of, inventory_of_bytes, named_type, param_rule, part_texts, picked,
    type_key, type_of, type_rule, type_text,
};
use crate::abi::inventory::{
    auth_label, label_in, lemma_label_at, CaseModel, EventModel, FunctionModel, ParamModel,
    TypeModel,
};
use crate::abi::spec_entry::{
    decoded_entry, CaseShape, EntryShape, EventParamShape, ParamShape, TypeShape,
};
use crate::encoding::utf8_text;
use crate::sorting::{lemma_precedes_irreflexive, precedes, put_in, sorted, Symbol};
use crate::text::{decimal, joined};
use vstd::prelude::*;
use vstd::utf8::{encode_utf8, encode_utf8_decode_utf8, encode_utf8_valid_utf8, valid_utf8};

verus! {

/// The text of a name is the one whose UTF-8 form the bytes are. Bytes that are the UTF-8 form of
/// nothing have no text.
pub proof fn names_are_utf8(text: Seq<char>, bytes: Seq<u8>)
    ensures
        utf8_text(encode_utf8(text)) == Some(text),
        !valid_utf8(bytes) ==> utf8_text(bytes) is None,
{
    encode_utf8_valid_utf8(text);
    encode_utf8_decode_utf8(text);
}

/// The types without parameters are written by their names.
pub proof fn plain_types_are_written_by_name()
    ensures
        ({
            let plain = |code: int| type_text(TypeShape::Of(code as i32, Seq::empty()));
            &&& plain(0) == Some("Val"@)
            &&& plain(1) == Some("bool"@)
            &&& plain(2) == Some("()"@)
            &&& plain(3) == Some("Error"@)
            &&& plain(4) == Some("u32"@)
            &&& plain(5) == Some("i32"@)
            &&& plain(6) == Some("u64"@)
            &&& plain(7) == Some("i64"@)
            &&& plain(8) == Some("Timepoint"@)
            &&& plain(9) == Some("Duration"@)
            &&& plain(10) == Some("u128"@)
            &&& plain(11) == Some("i128"@)
            &&& plain(12) == Some("U256"@)
            &&& plain(13) == Some("I256"@)
            &&& plain(14) == Some("Bytes"@)
            &&& plain(16) == Some("String"@)
            &&& plain(17) == Some("Symbol"@)
            &&& plain(19) == Some("Address"@)
            &&& plain(20) == Some("MuxedAddress"@)
        }),
        forall|code: i32|
            !(0 <= code <= 14 || code == 16 || code == 17 || code == 19 || code == 20 || code == 1005)
                ==> #[trigger] type_text(TypeShape::Of(code, Seq::empty())) is None,
{
    assert(part_texts(Seq::empty()) == Some(Seq::<Seq<char>>::empty()));
}

/// A list of types is written type by type, and cannot be written if one of them cannot.
pub proof fn type_lists_are_written_one_by_one(parts: Seq<TypeShape>)
    ensures
        part_texts(parts) is Some <==> forall|i: int|
            0 <= i < parts.len() ==> type_text(#[trigger] parts[i]) is Some,
        part_texts(parts) matches Some(list) ==> list.len() == parts.len() && forall|i: int|
            0 <= i < parts.len() ==> type_text(#[trigger] parts[i]) == Some(list[i]),
    decreases parts.len(),
{
    if parts.len() > 0 {
        let front = parts.drop_last();
        type_lists_are_written_one_by_one(front);
        assert(forall|i: int| 0 <= i < front.len() ==> #[trigger] front[i] == parts[i]);
        assert(parts[parts.len() - 1] == parts.last());
        if part_texts(parts) is None && forall|i: int|
            0 <= i < parts.len() ==> type_text(#[trigger] parts[i]) is Some {
            assert forall|i: int| 0 <= i < front.len() implies type_text(
                #[trigger] front[i],
            ) is Some by {
                assert(type_text(parts[i]) is Some);
            }
        }
        if part_texts(parts) is Some {
            let list = part_texts(parts).unwrap();
            let fore = part_texts(front).unwrap();
            assert forall|i: int| 0 <= i < parts.len() implies type_text(#[trigger] parts[i]) == Some(
                list[i],
            ) by {
                if i < front.len() {
                    assert(type_text(front[i]) == Some(fore[i]));
                    assert(list[i] == fore[i]);
                }
            }
        }
    }
}

/// Types with parameters are written as in Rust, each parameter written in its place.
pub proof fn applied_types_are_written_as_in_rust(
    a: TypeShape,
    b: TypeShape,
    x: Seq<char>,
    y: Seq<char>,
    n: u32,
    name: Seq<char>,
)
    requires
        type_text(a) == Some(x),
        type_text(b) == Some(y),
    ensures
        type_text(TypeShape::Of(1000, seq![a])) == Some("Option<"@ + x + ">"@),
        type_text(TypeShape::Of(1001, seq![a, b])) == Some("Result<"@ + x + ", "@ + y + ">"@),
        type_text(TypeShape::Of(1002, seq![a])) == Some("Vec<"@ + x + ">"@),
        type_text(TypeShape::Of(1004, seq![a, b])) == Some("Map<"@ + x + ", "@ + y + ">"@),
        type_text(TypeShape::Of(1005, seq![a, b])) == Some("("@ + x + ", "@ + y + ")"@),
        type_text(TypeShape::Of(1005, seq![a])) == Some("("@ + x + ")"@),
        type_text(TypeShape::BytesN(n)) == Some("BytesN<"@ + decimal(n as nat) + ">"@),
        type_text(TypeShape::Udt(encode_utf8(name))) == Some(name),
{
    names_are_utf8(name, Seq::empty());
    let none = Seq::<TypeShape>::empty();
    assert(part_texts(none) == Some(Seq::<Seq<char>>::empty()));
    assert(seq![a].drop_last() =~= none);
    assert(part_texts(seq![a]).unwrap() =~= seq![x]);
    assert(part_texts(seq![a]) == Some(seq![x]));
    assert(seq![a, b].drop_last() =~= seq![a]);
    assert(part_texts(seq![a, b]).unwrap() =~= seq![x, y]);
    assert(part_texts(seq![a, b]) == Some(seq![x, y]));
    reveal_with_fuel(joined, 3);
    assert(seq![x, y].drop_last() =~= seq![x]);
    assert(seq![x].drop_last() =~= Seq::<Seq<char>>::empty());
    assert(joined(seq![x], ", "@) =~= x);
    assert(joined(seq![x, y], ", "@) =~= x + ", "@ + y);
    assert("("@ + (x + ", "@ + y) + ")"@ =~= "("@ + x + ", "@ + y + ")"@);
}

/// A tuple of any number of types is written in parentheses, with commas between. Other types take
/// the number of parameters that is theirs and no other, and cannot be written if one of these
/// cannot.
pub proof fn types_take_their_number_of_parameters(code: i32, parts: Seq<TypeShape>)
    ensures
        code == 1005 && part_texts(parts) is Some ==> type_text(TypeShape::Of(code, parts)) == Some(
            "("@ + joined(part_texts(parts).unwrap(), ", "@) + ")"@,
        ),
        part_texts(parts) is None ==> type_text(TypeShape::Of(code, parts)) is None,
        (code == 1000 || code == 1002) && parts.len() != 1 ==> type_text(TypeShape::Of(code, parts)) is None,
        (code == 1001 || code == 1004) && parts.len() != 2 ==> type_text(TypeShape::Of(code, parts)) is None,
        !(1000 <= code <= 1002) && code != 1004 && code != 1005 && parts.len() > 0 ==> type_text(
            TypeShape::Of(code, parts),
        ) is None,
{
    type_lists_are_written_one_by_one(parts);
}

/// A list is read item by item, in order, and not at all if one of its items is not what it stands
/// for.
pub proof fn lists_are_read_item_by_item<A, B>(list: Seq<A>, f: spec_fn(A) -> Option<B>, out: Seq<B>)
    ensures
        all_of(list, f) == Some(out) <==> out.len() == list.len() && forall|i: int|
            0 <= i < list.len() ==> f(#[trigger] list[i]) == Some(out[i]),
{
    if out.len() == list.len() && forall|i: int|
        0 <= i < list.len() ==> f(#[trigger] list[i]) == Some(out[i]) {
        assert(list.map_values(|a: A| f(a).unwrap()) =~= out);
    }
}

/// A named value is read as its name and its type, and not at all if one of them cannot be.
pub proof fn named_values_are_read(text: Seq<char>, ty: TypeShape, written: Seq<char>, bytes: Seq<u8>)
    ensures
        type_text(ty) == Some(written) ==> {
            &&& named_type(encode_utf8(text), ty) == Some(ParamModel { name: text, ty: written })
            &&& param_rule()((ParamShape { name: encode_utf8(text), ty })) == Some(
                ParamModel { name: text, ty: written },
            )
        },
        type_text(ty) is None || !valid_utf8(bytes) ==> named_type(bytes, ty) is None && param_rule()(
            (ParamShape { name: bytes, ty }),
        ) is None,
{
    names_are_utf8(text, bytes);
}

/// A case is read as its name and its number.
pub proof fn cases_are_read(text: Seq<char>, value: u32, bytes: Seq<u8>)
    ensures
        case_rule()((CaseShape { name: encode_utf8(text), value })) == Some(
            CaseModel { name: text, discriminant: value },
        ),
        !valid_utf8(bytes) ==> case_rule()((CaseShape { name: bytes, value })) is None,
{
    names_are_utf8(text, bytes);
}

/// A method is read with its name, its inputs in their order, its return type, which is the unit
/// type where none is given, and the authorization of the table. A method that the table does not
/// list is not read.
pub proof fn methods_are_read(
    text: Seq<char>,
    inputs: Seq<ParamShape>,
    read: Seq<ParamModel>,
    outputs: Seq<TypeShape>,
    written: Seq<char>,
)
    requires
        all_of(inputs, param_rule()) == Some(read),
        outputs.len() > 0 ==> type_text(outputs[0]) == Some(written),
        outputs.len() == 0 ==> written == "()"@,
    ensures
        ({
            let made = function_of(
                EntryShape::Function { name: encode_utf8(text), inputs, outputs },
            );
            &&& auth_label(text) is None ==> made is None
            &&& auth_label(text) is Some ==> made == Some(
                FunctionModel {
                    name: text,
                    auth: auth_label(text).unwrap(),
                    inputs: read,
                    outputs: written,
                },
            )
        }),
{
    names_are_utf8(text, Seq::empty());
}

/// A method is not read if its name, an input or its return type is not.
pub proof fn unreadable_methods_are_refused(
    name: Seq<u8>,
    inputs: Seq<ParamShape>,
    outputs: Seq<TypeShape>,
)
    ensures
        !valid_utf8(name) || all_of(inputs, param_rule()) is None || (outputs.len() > 0 && type_text(
            outputs[0],
        ) is None) ==> function_of(EntryShape::Function { name, inputs, outputs }) is None,
{
}

/// A struct is read with its fields in their order, an enum with its cases in theirs, and neither
/// with the other's.
pub proof fn types_are_read(
    text: Seq<char>,
    fields: Seq<ParamShape>,
    read: Seq<ParamModel>,
    cases: Seq<CaseShape>,
    numbered: Seq<CaseModel>,
)
    requires
        all_of(fields, param_rule()) == Some(read),
        all_of(cases, case_rule()) == Some(numbered),
    ensures
        type_of(EntryShape::Struct { name: encode_utf8(text), fields }) == Some(
            TypeModel { name: text, kind: "struct"@, fields: read, cases: Seq::empty() },
        ),
        type_of(EntryShape::Enum { name: encode_utf8(text), cases }) == Some(
            TypeModel { name: text, kind: "enum"@, fields: Seq::empty(), cases: numbered },
        ),
        errors_of(EntryShape::ErrorEnum { cases }) == Some(numbered),
{
    names_are_utf8(text, Seq::empty());
}

/// A type or a list of errors is not read if a name or a type in it is not.
pub proof fn unreadable_types_are_refused(
    name: Seq<u8>,
    fields: Seq<ParamShape>,
    cases: Seq<CaseShape>,
)
    ensures
        !valid_utf8(name) || all_of(fields, param_rule()) is None ==> type_of(
            EntryShape::Struct { name, fields },
        ) is None,
        !valid_utf8(name) || all_of(cases, case_rule()) is None ==> type_of(
            EntryShape::Enum { name, cases },
        ) is None,
        all_of(cases, case_rule()) is None ==> errors_of(EntryShape::ErrorEnum { cases }) is None,
{
}

/// An entry is read as what it is and as nothing else.
pub proof fn entries_are_of_one_kind(e: EntryShape)
    ensures
        function_of(e) is Some ==> e is Function,
        type_of(e) is Some ==> e is Struct || e is Enum,
        errors_of(e) is Some ==> e is ErrorEnum,
        event_of(e) is Some ==> e is Event,
{
}

/// The parameters of an event are parted into topics and payload: each goes where it is marked to
/// go, none is lost, and both keep their order.
pub proof fn event_parameters_are_parted(
    a: Seq<EventParamShape>,
    p: EventParamShape,
    b: Seq<EventParamShape>,
    topics: bool,
)
    ensures
        picked(Seq::empty(), topics) == Some(Seq::<ParamModel>::empty()),
        match (picked(a, topics), named_type(p.name, p.ty), picked(b, topics)) {
            (Some(x), Some(m), Some(y)) => picked(a + seq![p] + b, topics) == Some(
                if p.is_topic == topics {
                    x + seq![m] + y
                } else {
                    x + y
                },
            ),
            _ => picked(a + seq![p] + b, topics) is None,
        },
    decreases b.len(),
{
    let all = a + seq![p] + b;
    if b.len() == 0 {
        assert(all =~= a.push(p));
        assert(a.push(p).drop_last() =~= a);
        match (picked(a, topics), named_type(p.name, p.ty)) {
            (Some(x), Some(m)) => {
                assert(x.push(m) =~= x + seq![m] + Seq::<ParamModel>::empty());
                assert(x =~= x + Seq::<ParamModel>::empty());
            },
            _ => {},
        }
    } else {
        let front = b.drop_last();
        event_parameters_are_parted(a, p, front, topics);
        assert(all.drop_last() =~= a + seq![p] + front);
        assert(all.last() == b.last());
        match (
            picked(a, topics),
            named_type(p.name, p.ty),
            picked(front, topics),
            named_type(b.last().name, b.last().ty),
        ) {
            (Some(x), Some(m), Some(y), Some(z)) => {
                assert((x + seq![m] + y).push(z) =~= x + seq![m] + y.push(z));
                assert((x + y).push(z) =~= x + y.push(z));
            },
            _ => {},
        }
    }
}

/// An event is read with its name, its topics and its payload, and not at all if one of them is
/// not.
pub proof fn events_are_read(text: Seq<char>, name: Seq<u8>, params: Seq<EventParamShape>)
    ensures
        match (picked(params, true), picked(params, false)) {
            (Some(topics), Some(data)) => event_of(
                EntryShape::Event { name: encode_utf8(text), params },
            ) == Some(EventModel { name: text, topics, data }),
            _ => event_of(EntryShape::Event { name, params }) is None,
        },
        !valid_utf8(name) ==> event_of(EntryShape::Event { name, params }) is None,
{
    names_are_utf8(text, name);
}

/// An inventory has the version that was given, the errors in the order of their entry, and of
/// each other list all that was read. There is none if anything could not be read.
pub proof fn inventories_hold_all_that_was_read(
    version: u32,
    methods: Seq<EntryShape>,
    type_entries: Seq<EntryShape>,
    error_entry: EntryShape,
    event_entries: Seq<EntryShape>,
)
    ensures
        ({
            let f = all_of(methods, function_rule());
            let t = all_of(type_entries, type_rule());
            let e = all_of(event_entries, event_rule());
            let made = inventory_of(version, methods, type_entries, error_entry, event_entries);
            &&& made is Some <==> f is Some && t is Some && errors_of(error_entry) is Some && e is Some
            &&& made matches Some(inv) ==> {
                &&& inv.abi_version == version
                &&& Some(inv.errors) == errors_of(error_entry)
                &&& forall|n: Seq<char>|
                    inv.functions.filter(#[trigger] called(function_key(), n)) == f.unwrap().filter(
                        called(function_key(), n),
                    )
                &&& forall|n: Seq<char>|
                    inv.types.filter(#[trigger] called(type_key(), n)) == t.unwrap().filter(
                        called(type_key(), n),
                    )
                &&& forall|n: Seq<char>|
                    inv.events.filter(#[trigger] called(event_key(), n)) == e.unwrap().filter(
                        called(event_key(), n),
                    )
            }
        }),
        forall|f: FunctionModel| #[trigger] function_key()(f) == f.name,
        forall|t: TypeModel| #[trigger] type_key()(t) == t.name,
        forall|e: EventModel| #[trigger] event_key()(e) == e.name,
        forall|e: EntryShape| #[trigger] function_rule()(e) == function_of(e),
        forall|e: EntryShape| #[trigger] type_rule()(e) == type_of(e),
        forall|e: EntryShape| #[trigger] event_rule()(e) == event_of(e),
{
    let f = all_of(methods, function_rule());
    let t = all_of(type_entries, type_rule());
    let e = all_of(event_entries, event_rule());
    let made = inventory_of(version, methods, type_entries, error_entry, event_entries);
    if made is Some {
        let inv = made.unwrap();
        assert forall|n: Seq<char>|
            inv.functions.filter(#[trigger] called(function_key(), n)) == f.unwrap().filter(
                called(function_key(), n),
            ) by {
            sorting_keeps_the_order_of_equals(f.unwrap(), function_key(), n);
        }
        assert forall|n: Seq<char>|
            inv.types.filter(#[trigger] called(type_key(), n)) == t.unwrap().filter(
                called(type_key(), n),
            ) by {
            sorting_keeps_the_order_of_equals(t.unwrap(), type_key(), n);
        }
        assert forall|n: Seq<char>|
            inv.events.filter(#[trigger] called(event_key(), n)) == e.unwrap().filter(
                called(event_key(), n),
            ) by {
            sorting_keeps_the_order_of_equals(e.unwrap(), event_key(), n);
        }
    }
}

/// The items whose key is `n`.
pub open spec fn called<M, T: Symbol>(key: spec_fn(M) -> Seq<T>, n: Seq<T>) -> spec_fn(M) -> bool {
    |m: M| key(m) == n
}

/// A list and one item more, filtered.
proof fn lemma_filter_push<M>(s: Seq<M>, x: M, p: spec_fn(M) -> bool)
    ensures
        s.push(x).filter(p) == (if p(x) {
            s.filter(p).push(x)
        } else {
            s.filter(p)
        }),
{
    reveal(Seq::filter);
    assert(s.push(x).drop_last() =~= s);
}

/// Putting an item in keeps the items of each key in their order, with the new one last of its own.
proof fn lemma_put_in_filter<M, T: Symbol>(
    s: Seq<M>,
    key: spec_fn(M) -> Seq<T>,
    x: M,
    n: Seq<T>,
)
    ensures
        put_in(s, key, x).filter(called(key, n)) == s.push(x).filter(called(key, n)),
    decreases s.len(),
{
    let p = called(key, n);
    lemma_filter_push(s, x, p);
    if s.len() > 0 && precedes(key(x), key(s.last())) {
        let front = s.drop_last();
        lemma_put_in_filter(front, key, x, n);
        lemma_filter_push(front, x, p);
        lemma_filter_push(put_in(front, key, x), s.last(), p);
        lemma_filter_push(front, s.last(), p);
        assert(front.push(s.last()) =~= s);
        lemma_precedes_irreflexive(key(x));
        assert(!(p(x) && p(s.last())));
    }
}

/// Sorting leaves the items of one key in the order in which they stand, and loses none.
pub proof fn sorting_keeps_the_order_of_equals<M, T: Symbol>(
    s: Seq<M>,
    key: spec_fn(M) -> Seq<T>,
    n: Seq<T>,
)
    ensures
        sorted(s, key).filter(called(key, n)) == s.filter(called(key, n)),
    decreases s.len(),
{
    if s.len() > 0 {
        let front = s.drop_last();
        let p = called(key, n);
        sorting_keeps_the_order_of_equals(front, key, n);
        lemma_put_in_filter(sorted(front, key), key, s.last(), n);
        lemma_filter_push(sorted(front, key), s.last(), p);
        lemma_filter_push(front, s.last(), p);
        assert(front.push(s.last()) =~= s);
    }
}

/// Bytes are read as the entries that they decode to, each in its place. Where one of them decodes
/// to nothing there is no inventory.
pub proof fn inventories_are_read_from_bytes(
    version: u32,
    methods: Seq<Seq<u8>>,
    type_specs: Seq<Seq<u8>>,
    error_spec: Seq<u8>,
    event_specs: Seq<Seq<u8>>,
    f: Seq<EntryShape>,
    t: Seq<EntryShape>,
    e: EntryShape,
    v: Seq<EntryShape>,
)
    ensures
        f.len() == methods.len() && (forall|i: int|
            0 <= i < f.len() ==> decoded_entry(#[trigger] methods[i]) == Some(f[i])) && t.len()
            == type_specs.len() && (forall|i: int|
            0 <= i < t.len() ==> decoded_entry(#[trigger] type_specs[i]) == Some(t[i]))
            && decoded_entry(error_spec) == Some(e) && v.len() == event_specs.len() && (forall|i: int|
            0 <= i < v.len() ==> decoded_entry(#[trigger] event_specs[i]) == Some(v[i]))
            ==> inventory_of_bytes(version, methods, type_specs, error_spec, event_specs)
            == inventory_of(version, f, t, e, v),
        (exists|i: int| 0 <= i < methods.len() && decoded_entry(#[trigger] methods[i]) is None) || (
        exists|i: int| 0 <= i < type_specs.len() && decoded_entry(#[trigger] type_specs[i]) is None)
            || decoded_entry(error_spec) is None || (exists|i: int|
            0 <= i < event_specs.len() && decoded_entry(#[trigger] event_specs[i]) is None)
            ==> inventory_of_bytes(version, methods, type_specs, error_spec, event_specs) is None,
{
    let rule = crate::abi::decode::entry_rule();
    lists_are_read_item_by_item(methods, rule, f);
    lists_are_read_item_by_item(type_specs, rule, t);
    lists_are_read_item_by_item(event_specs, rule, v);
    lemma_all_read(methods);
    lemma_all_read(type_specs);
    lemma_all_read(event_specs);
}

/// A list of bytes is read exactly if each of its items decodes.
proof fn lemma_all_read(list: Seq<Seq<u8>>)
    ensures
        all_of(list, crate::abi::decode::entry_rule()) is Some <==> forall|i: int|
            0 <= i < list.len() ==> decoded_entry(#[trigger] list[i]) is Some,
{
    let rule = crate::abi::decode::entry_rule();
    assert(forall|b: Seq<u8>| #[trigger] rule(b) == decoded_entry(b));
    if forall|i: int| 0 <= i < list.len() ==> decoded_entry(#[trigger] list[i]) is Some {
        assert forall|i: int| 0 <= i < list.len() implies rule(#[trigger] list[i]) is Some by {
            assert(decoded_entry(list[i]) is Some);
        }
    }
    if forall|i: int| 0 <= i < list.len() ==> rule(#[trigger] list[i]) is Some {
        assert forall|i: int| 0 <= i < list.len() implies decoded_entry(
            #[trigger] list[i],
        ) is Some by {
            assert(rule(list[i]) is Some);
        }
    }
}

/// The first entry for a name counts, whatever stands behind it, and a name without an entry has no
/// label.
pub proof fn labels_are_those_of_the_first_entry(
    entries: Seq<(&'static str, &'static str)>,
    name: Seq<char>,
    at: int,
)
    requires
        0 <= at <= entries.len(),
        forall|j: int| 0 <= j < at ==> (#[trigger] entries[j]).0@ != name,
    ensures
        at == entries.len() ==> label_in(entries, name) is None,
        at < entries.len() && entries[at].0@ == name ==> label_in(entries, name) == Some(
            entries[at].1@,
        ),
    decreases at,
{
    if at < entries.len() && entries[at].0@ == name {
        lemma_label_at(entries, name, at);
    } else if at == entries.len() && at > 0 {
        assert(entries[0].0@ != name);
        let rest = entries.skip(1);
        assert forall|j: int| 0 <= j < at - 1 implies (#[trigger] rest[j]).0@ != name by {
            assert(entries[j + 1].0@ != name);
        }
        labels_are_those_of_the_first_entry(rest, name, at - 1);
    }
}

} // verus!
