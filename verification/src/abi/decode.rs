//! From the entries of a contract specification to the inventory.
//!
//! The inventory is made from the XDR that the contract already embeds. Documentation is left
//! out, so that a change of comments does not change it. Who authorizes a method does not stand
//! in the specification and comes from the table of authorizations.
use crate::abi::inventory::{
    auth_label, cases, event_names, events, find_auth, function_names, functions, params,
    type_names, types, CaseModel, ErrorCase, EventAbi,
    EventModel, FunctionAbi, FunctionModel, Inventory, InventoryModel, ParamAbi, ParamModel,
    TypeAbi, TypeModel,
};
use crate::abi::spec_entry::{
    case_shapes, decoded_entry, event_param_shapes, param_shapes, parse_spec, CaseShape,
    EntryShape, EventParamShape, ParamShape, SpecCase, SpecEntry, SpecParam, SpecType, TypeShape,
};
use crate::encoding::{text_from_utf8, utf8_text};
use crate::sorting::{
    in_order, key_fn, keys_of, lemma_sorted, lemma_sorted_map, sort_by_name, sorted,
};
use crate::text::{decimal, decimal_text, join, joined, texts};
use vstd::prelude::*;

verus! {

/// The XDR number of an optional value.
pub const TYPE_OPTION: i32 = 1000;

/// The XDR number of a result.
pub const TYPE_RESULT: i32 = 1001;

/// The XDR number of a vector.
pub const TYPE_VEC: i32 = 1002;

/// The XDR number of a map.
pub const TYPE_MAP: i32 = 1004;

/// The XDR number of a tuple.
pub const TYPE_TUPLE: i32 = 1005;

/// What `f` gives for the items of the list, where it gives something for each of them.
pub open spec fn all_of<A, B>(list: Seq<A>, f: spec_fn(A) -> Option<B>) -> Option<Seq<B>> {
    if forall|i: int| 0 <= i < list.len() ==> f(#[trigger] list[i]) is Some {
        Some(list.map_values(|a: A| f(a).unwrap()))
    } else {
        None
    }
}

/// The name of a type that takes no arguments, by its XDR number.
pub open spec fn flat_name(code: i32) -> Option<Seq<char>> {
    match code {
        0 => Some("Val"@),
        1 => Some("bool"@),
        2 => Some("()"@),
        3 => Some("Error"@),
        4 => Some("u32"@),
        5 => Some("i32"@),
        6 => Some("u64"@),
        7 => Some("i64"@),
        8 => Some("Timepoint"@),
        9 => Some("Duration"@),
        10 => Some("u128"@),
        11 => Some("i128"@),
        12 => Some("U256"@),
        13 => Some("I256"@),
        14 => Some("Bytes"@),
        16 => Some("String"@),
        17 => Some("Symbol"@),
        19 => Some("Address"@),
        20 => Some("MuxedAddress"@),
        _ => None,
    }
}

/// How the type with this XDR number is written, applied to types that are written as `parts`.
pub open spec fn applied(code: i32, parts: Seq<Seq<char>>) -> Option<Seq<char>> {
    if code == TYPE_TUPLE {
        Some("("@ + joined(parts, ", "@) + ")"@)
    } else if code == TYPE_OPTION && parts.len() == 1 {
        Some("Option<"@ + parts[0] + ">"@)
    } else if code == TYPE_RESULT && parts.len() == 2 {
        Some("Result<"@ + parts[0] + ", "@ + parts[1] + ">"@)
    } else if code == TYPE_VEC && parts.len() == 1 {
        Some("Vec<"@ + parts[0] + ">"@)
    } else if code == TYPE_MAP && parts.len() == 2 {
        Some("Map<"@ + parts[0] + ", "@ + parts[1] + ">"@)
    } else if parts.len() == 0 {
        flat_name(code)
    } else {
        None
    }
}

/// How a type is written: nothing, where a name in it is not UTF-8 or where it is applied to a
/// number of types that its XDR number does not take.
pub open spec fn type_text(t: TypeShape) -> Option<Seq<char>>
    decreases t,
{
    match t {
        TypeShape::Of(code, parts) => match part_texts(parts) {
            Some(list) => applied(code, list),
            None => None,
        },
        TypeShape::BytesN(n) => Some("BytesN<"@ + decimal(n as nat) + ">"@),
        TypeShape::Udt(name) => utf8_text(name),
    }
}

/// How each type of a list is written.
pub open spec fn part_texts(parts: Seq<TypeShape>) -> Option<Seq<Seq<char>>>
    decreases parts,
{
    if parts.len() == 0 {
        Some(Seq::empty())
    } else {
        match (part_texts(parts.drop_last()), type_text(parts.last())) {
            (Some(list), Some(text)) => Some(list.push(text)),
            _ => None,
        }
    }
}

/// A name and how its type is written.
pub open spec fn named_type(name: Seq<u8>, ty: TypeShape) -> Option<ParamModel> {
    match (utf8_text(name), type_text(ty)) {
        (Some(name), Some(ty)) => Some(ParamModel { name, ty }),
        _ => None,
    }
}

/// A parameter of the inventory.
pub open spec fn param_rule() -> spec_fn(ParamShape) -> Option<ParamModel> {
    |p: ParamShape| named_type(p.name, p.ty)
}

/// A case of the inventory.
pub open spec fn case_rule() -> spec_fn(CaseShape) -> Option<CaseModel> {
    |c: CaseShape|
        match utf8_text(c.name) {
            Some(name) => Some(CaseModel { name, discriminant: c.value }),
            None => None,
        }
}

/// How the first of the return types is written, and the unit type where there is none.
pub open spec fn return_text(outputs: Seq<TypeShape>) -> Option<Seq<char>> {
    if outputs.len() == 0 {
        Some("()"@)
    } else {
        type_text(outputs[0])
    }
}

/// The method that an entry describes: nothing, where the entry is of another kind, where a name
/// in it is not UTF-8, or where the table of authorizations does not list the method.
pub open spec fn function_of(e: EntryShape) -> Option<FunctionModel> {
    match e {
        EntryShape::Function { name, inputs, outputs } => match (
            utf8_text(name),
            all_of(inputs, param_rule()),
            return_text(outputs),
        ) {
            (Some(name), Some(inputs), Some(outputs)) => match auth_label(name) {
                Some(auth) => Some(FunctionModel { name, auth, inputs, outputs }),
                None => None,
            },
            _ => None,
        },
        _ => None,
    }
}

/// The type that an entry describes: nothing, where the entry is neither a struct nor an enum, or
/// where a name in it is not UTF-8.
pub open spec fn type_of(e: EntryShape) -> Option<TypeModel> {
    match e {
        EntryShape::Struct { name, fields } => match (
            utf8_text(name),
            all_of(fields, param_rule()),
        ) {
            (Some(name), Some(fields)) => Some(
                TypeModel { name, kind: "struct"@, fields, cases: Seq::empty() },
            ),
            _ => None,
        },
        EntryShape::Enum { name, cases } => match (utf8_text(name), all_of(cases, case_rule())) {
            (Some(name), Some(cases)) => Some(
                TypeModel { name, kind: "enum"@, fields: Seq::empty(), cases },
            ),
            _ => None,
        },
        _ => None,
    }
}

/// The errors that an entry describes: nothing, where the entry is not an error enum, or where a
/// name in it is not UTF-8.
pub open spec fn errors_of(e: EntryShape) -> Option<Seq<CaseModel>> {
    match e {
        EntryShape::ErrorEnum { cases } => all_of(cases, case_rule()),
        _ => None,
    }
}

/// The topics of an event, or the fields of its payload.
pub open spec fn picked(list: Seq<EventParamShape>, topics: bool) -> Option<Seq<ParamModel>>
    decreases list.len(),
{
    if list.len() == 0 {
        Some(Seq::empty())
    } else {
        match (
            picked(list.drop_last(), topics),
            named_type(list.last().name, list.last().ty),
        ) {
            (Some(front), Some(p)) => Some(
                if list.last().is_topic == topics {
                    front.push(p)
                } else {
                    front
                },
            ),
            _ => None,
        }
    }
}

/// The event that an entry describes: nothing, where the entry is of another kind, or where a
/// name in it is not UTF-8.
pub open spec fn event_of(e: EntryShape) -> Option<EventModel> {
    match e {
        EntryShape::Event { name, params } => match (
            utf8_text(name),
            picked(params, true),
            picked(params, false),
        ) {
            (Some(name), Some(topics), Some(data)) => Some(EventModel { name, topics, data }),
            _ => None,
        },
        _ => None,
    }
}

/// The method that an entry describes.
pub open spec fn function_rule() -> spec_fn(EntryShape) -> Option<FunctionModel> {
    |e: EntryShape| function_of(e)
}

/// The type that an entry describes.
pub open spec fn type_rule() -> spec_fn(EntryShape) -> Option<TypeModel> {
    |e: EntryShape| type_of(e)
}

/// The event that an entry describes.
pub open spec fn event_rule() -> spec_fn(EntryShape) -> Option<EventModel> {
    |e: EntryShape| event_of(e)
}

/// Methods by name.
pub open spec fn function_key() -> spec_fn(FunctionModel) -> Seq<char> {
    |f: FunctionModel| f.name
}

/// Types by name.
pub open spec fn type_key() -> spec_fn(TypeModel) -> Seq<char> {
    |t: TypeModel| t.name
}

/// Events by name.
pub open spec fn event_key() -> spec_fn(EventModel) -> Seq<char> {
    |e: EventModel| e.name
}

/// The inventory that the entries describe: methods, types and events in the order of their
/// names, errors in the order of their entry. Nothing, where one of the entries is not what it
/// stands for.
pub open spec fn inventory_of(
    abi_version: u32,
    methods: Seq<EntryShape>,
    type_entries: Seq<EntryShape>,
    error_entry: EntryShape,
    event_entries: Seq<EntryShape>,
) -> Option<InventoryModel> {
    match (
        all_of(methods, function_rule()),
        all_of(type_entries, type_rule()),
        errors_of(error_entry),
        all_of(event_entries, event_rule()),
    ) {
        (Some(f), Some(t), Some(errors), Some(e)) => Some(
            InventoryModel {
                abi_version,
                functions: sorted(f, function_key()),
                types: sorted(t, type_key()),
                errors,
                events: sorted(e, event_key()),
            },
        ),
        _ => None,
    }
}

/// The entry that bytes decode to.
pub open spec fn entry_rule() -> spec_fn(Seq<u8>) -> Option<EntryShape> {
    |bytes: Seq<u8>| decoded_entry(bytes)
}

/// The values of a list of entries.
pub open spec fn entry_shapes(list: Seq<SpecEntry>) -> Seq<EntryShape> {
    list.map_values(|e: SpecEntry| e@)
}

/// The contents of a list of byte strings.
pub open spec fn byte_strings(list: Seq<Vec<u8>>) -> Seq<Seq<u8>> {
    list.map_values(|b: Vec<u8>| b@)
}

/// The inventory that the embedded specification describes, entry by entry.
pub open spec fn inventory_of_bytes(
    abi_version: u32,
    methods: Seq<Seq<u8>>,
    type_specs: Seq<Seq<u8>>,
    error_spec: Seq<u8>,
    event_specs: Seq<Seq<u8>>,
) -> Option<InventoryModel> {
    match (
        all_of(methods, entry_rule()),
        all_of(type_specs, entry_rule()),
        decoded_entry(error_spec),
        all_of(event_specs, entry_rule()),
    ) {
        (Some(f), Some(t), Some(e), Some(v)) => inventory_of(abi_version, f, t, e, v),
        _ => None,
    }
}

/// The methods, types and events of an inventory stand in the order of their names, and none is
/// lost or added in ordering them.
pub proof fn inventory_is_in_order(
    abi_version: u32,
    methods: Seq<EntryShape>,
    type_entries: Seq<EntryShape>,
    error_entry: EntryShape,
    event_entries: Seq<EntryShape>,
)
    ensures
        inventory_of(abi_version, methods, type_entries, error_entry, event_entries) matches Some(
            inv,
        ) ==> {
            &&& in_order(function_names(inv.functions))
            &&& in_order(type_names(inv.types))
            &&& in_order(event_names(inv.events))
            &&& inv.functions.to_multiset() == all_of(
                methods,
                function_rule(),
            ).unwrap().to_multiset()
            &&& inv.types.to_multiset() == all_of(type_entries, type_rule()).unwrap().to_multiset()
            &&& inv.events.to_multiset() == all_of(
                event_entries,
                event_rule(),
            ).unwrap().to_multiset()
        },
{
    let made = inventory_of(abi_version, methods, type_entries, error_entry, event_entries);
    if made is Some {
        let inv = made.unwrap();
        lemma_sorted(all_of(methods, function_rule()).unwrap(), function_key());
        lemma_sorted(all_of(type_entries, type_rule()).unwrap(), type_key());
        lemma_sorted(all_of(event_entries, event_rule()).unwrap(), event_key());
        assert(function_names(inv.functions) =~= keys_of(inv.functions, function_key()));
        assert(type_names(inv.types) =~= keys_of(inv.types, type_key()));
        assert(event_names(inv.events) =~= keys_of(inv.events, event_key()));
    }
}

/// Each method of an inventory is authorized by whom the table of authorizations names.
pub proof fn inventory_methods_have_their_authorization(
    abi_version: u32,
    methods: Seq<EntryShape>,
    type_entries: Seq<EntryShape>,
    error_entry: EntryShape,
    event_entries: Seq<EntryShape>,
    i: int,
)
    ensures
        inventory_of(abi_version, methods, type_entries, error_entry, event_entries) matches Some(
            inv,
        ) ==> 0 <= i < inv.functions.len() ==> auth_label(inv.functions[i].name) == Some(
            inv.functions[i].auth,
        ),
{
    let made = inventory_of(abi_version, methods, type_entries, error_entry, event_entries);
    if made is Some && 0 <= i < made.unwrap().functions.len() {
        broadcast use vstd::seq_lib::group_to_multiset_ensures;

        let list = all_of(methods, function_rule()).unwrap();
        let sorted_list = made.unwrap().functions;
        lemma_sorted(list, function_key());
        assert(sorted_list.to_multiset().count(sorted_list[i]) > 0);
        assert(list.contains(sorted_list[i]));
        let j = choose|j: int| 0 <= j < list.len() && list[j] == sorted_list[i];
        assert(function_rule()(methods[j]) is Some);
    }
}

/// The text of a name, where it is UTF-8.
pub fn spec_ident(name: &Vec<u8>) -> (r: Option<String>)
    ensures
        match r {
            Some(s) => utf8_text(name@) == Some(s@),
            None => utf8_text(name@) is None,
        },
{
    let copy = name.clone();
    assert(copy@ =~= name@);
    text_from_utf8(copy).ok()
}

/// The name of a type that takes no arguments, by its XDR number.
fn flat_type_name(code: i32) -> (r: Option<&'static str>)
    ensures
        match r {
            Some(s) => flat_name(code) == Some(s@),
            None => flat_name(code) is None,
        },
{
    match code {
        0 => Some("Val"),
        1 => Some("bool"),
        2 => Some("()"),
        3 => Some("Error"),
        4 => Some("u32"),
        5 => Some("i32"),
        6 => Some("u64"),
        7 => Some("i64"),
        8 => Some("Timepoint"),
        9 => Some("Duration"),
        10 => Some("u128"),
        11 => Some("i128"),
        12 => Some("U256"),
        13 => Some("I256"),
        14 => Some("Bytes"),
        16 => Some("String"),
        17 => Some("Symbol"),
        19 => Some("Address"),
        20 => Some("MuxedAddress"),
        _ => None,
    }
}

/// A text between two others.
fn between(before: &str, middle: &str, after: &str) -> (r: String)
    ensures
        r@ == before@ + middle@ + after@,
{
    let mut r = String::new();
    r.append(before);
    r.append(middle);
    r.append(after);
    assert(r@ =~= before@ + middle@ + after@);
    r
}

/// How the type with this XDR number is written, applied to types that are written as `parts`.
fn apply_type(code: i32, parts: &[String]) -> (r: Option<String>)
    ensures
        match r {
            Some(s) => applied(code, texts(parts@)) == Some(s@),
            None => applied(code, texts(parts@)) is None,
        },
{
    if code == TYPE_TUPLE {
        Some(between("(", &join(parts, ", "), ")"))
    } else if code == TYPE_OPTION && parts.len() == 1 {
        Some(between("Option<", &parts[0], ">"))
    } else if code == TYPE_RESULT && parts.len() == 2 {
        let inner = between(&parts[0], ", ", &parts[1]);
        let text = between("Result<", &inner, ">");
        assert(text@ =~= "Result<"@ + parts@[0]@ + ", "@ + parts@[1]@ + ">"@);
        Some(text)
    } else if code == TYPE_VEC && parts.len() == 1 {
        Some(between("Vec<", &parts[0], ">"))
    } else if code == TYPE_MAP && parts.len() == 2 {
        let inner = between(&parts[0], ", ", &parts[1]);
        let text = between("Map<", &inner, ">");
        assert(text@ =~= "Map<"@ + parts@[0]@ + ", "@ + parts@[1]@ + ">"@);
        Some(text)
    } else if parts.len() == 0 {
        match flat_type_name(code) {
            Some(name) => Some(name.to_string()),
            None => None,
        }
    } else {
        None
    }
}

/// Where one type of a list cannot be written, the list cannot.
proof fn lemma_part_missing(parts: Seq<TypeShape>, i: int)
    requires
        0 <= i < parts.len(),
        type_text(parts[i]) is None,
    ensures
        part_texts(parts) is None,
    decreases parts.len(),
{
    if i < parts.len() - 1 {
        lemma_part_missing(parts.drop_last(), i);
    }
}

/// How a type is written, as in Rust.
pub fn format_type(t: &SpecType) -> (r: Option<String>)
    ensures
        match r {
            Some(s) => type_text(t.shape()) == Some(s@),
            None => type_text(t.shape()) is None,
        },
    decreases t,
{
    match t {
        SpecType::Of(code, parts) => {
            let ghost list = t.shape()->Of_1;
            let mut written: Vec<String> = Vec::new();
            for i in 0..parts.len()
                invariant
                    list == t.shape()->Of_1,
                    *t == SpecType::Of(*code, *parts),
                    list.len() == parts@.len(),
                    part_texts(list.take(i as int)) == Some(texts(written@)),
            {
                let ghost so_far = texts(written@);
                assert(list[i as int] == parts@[i as int].shape());
                assert(list.take(i + 1).drop_last() == list.take(i as int));
                match format_type(&parts[i]) {
                    Some(s) => {
                        written.push(s);
                        assert(texts(written@) =~= so_far.push(s@));
                    },
                    None => {
                        proof {
                            lemma_part_missing(list, i as int);
                        }
                        return None;
                    },
                }
            }
            assert(list.take(parts@.len() as int) == list);
            apply_type(*code, &written)
        },
        SpecType::BytesN(n) => Some(between("BytesN<", &decimal_text(*n as u128), ">")),
        SpecType::Udt(name) => spec_ident(name),
    }
}

/// A name and how its type is written.
fn read_param(name: &Vec<u8>, ty: &SpecType) -> (r: Option<ParamAbi>)
    ensures
        match r {
            Some(p) => named_type(name@, ty.shape()) == Some(p@),
            None => named_type(name@, ty.shape()) is None,
        },
{
    match (spec_ident(name), format_type(ty)) {
        (Some(name), Some(ty)) => Some(ParamAbi { name, ty }),
        _ => None,
    }
}

/// The parameters of the inventory for those of an entry.
fn read_params(list: &[SpecParam]) -> (r: Option<Vec<ParamAbi>>)
    ensures
        match r {
            Some(v) => all_of(param_shapes(list@), param_rule()) == Some(params(v@)),
            None => all_of(param_shapes(list@), param_rule()) is None,
        },
{
    let ghost all = param_shapes(list@);
    let mut r: Vec<ParamAbi> = Vec::new();
    for i in 0..list.len()
        invariant
            all == param_shapes(list@),
            r@.len() == i,
            forall|j: int|
                0 <= j < i ==> param_rule()(#[trigger] all[j]) == Some(r@[j]@),
    {
        assert(all[i as int].name == list@[i as int].name@);
        match read_param(&list[i].name, &list[i].ty) {
            Some(p) => {
                r.push(p);
            },
            None => {
                assert(param_rule()(all[i as int]) is None);
                return None;
            },
        }
    }
    assert(params(r@) =~= all.map_values(|p: ParamShape| param_rule()(p).unwrap()));
    Some(r)
}

/// The cases of the inventory for those of an entry.
fn read_cases(list: &[SpecCase]) -> (r: Option<Vec<ErrorCase>>)
    ensures
        match r {
            Some(v) => all_of(case_shapes(list@), case_rule()) == Some(cases(v@)),
            None => all_of(case_shapes(list@), case_rule()) is None,
        },
{
    let ghost all = case_shapes(list@);
    let mut r: Vec<ErrorCase> = Vec::new();
    for i in 0..list.len()
        invariant
            all == case_shapes(list@),
            r@.len() == i,
            forall|j: int| 0 <= j < i ==> case_rule()(#[trigger] all[j]) == Some(r@[j]@),
    {
        assert(all[i as int].name == list@[i as int].name@);
        match spec_ident(&list[i].name) {
            Some(name) => {
                r.push(ErrorCase { name, discriminant: list[i].value });
            },
            None => {
                assert(case_rule()(all[i as int]) is None);
                return None;
            },
        }
    }
    assert(cases(r@) =~= all.map_values(|c: CaseShape| case_rule()(c).unwrap()));
    Some(r)
}

/// The method that an entry describes.
pub fn function_from_spec(entry: &SpecEntry) -> (r: Option<FunctionAbi>)
    ensures
        match r {
            Some(f) => function_of(entry@) == Some(f@),
            None => function_of(entry@) is None,
        },
{
    match entry {
        SpecEntry::Function { name, inputs, outputs } => {
            let returned = if outputs.len() == 0 {
                Some("()".to_string())
            } else {
                format_type(&outputs[0])
            };
            match (spec_ident(name), read_params(inputs), returned) {
                (Some(name), Some(inputs), Some(outputs)) => match find_auth(&name) {
                    Some(auth) => Some(FunctionAbi { name, auth, inputs, outputs }),
                    None => None,
                },
                _ => None,
            }
        },
        _ => None,
    }
}

/// The type that an entry describes.
pub fn type_from_spec(entry: &SpecEntry) -> (r: Option<TypeAbi>)
    ensures
        match r {
            Some(t) => type_of(entry@) == Some(t@),
            None => type_of(entry@) is None,
        },
{
    match entry {
        SpecEntry::Struct { name, fields } => match (spec_ident(name), read_params(fields)) {
            (Some(name), Some(fields)) => {
                let t = TypeAbi { name, kind: "struct".to_string(), fields, cases: Vec::new() };
                assert(t@.cases =~= Seq::empty());
                Some(t)
            },
            _ => None,
        },
        SpecEntry::Enum { name, cases } => match (spec_ident(name), read_cases(cases)) {
            (Some(name), Some(cases)) => {
                let t = TypeAbi { name, kind: "enum".to_string(), fields: Vec::new(), cases };
                assert(t@.fields =~= Seq::empty());
                Some(t)
            },
            _ => None,
        },
        _ => None,
    }
}

/// The errors that an entry describes.
pub fn errors_from_spec(entry: &SpecEntry) -> (r: Option<Vec<ErrorCase>>)
    ensures
        match r {
            Some(v) => errors_of(entry@) == Some(cases(v@)),
            None => errors_of(entry@) is None,
        },
{
    match entry {
        SpecEntry::ErrorEnum { cases } => read_cases(cases),
        _ => None,
    }
}

/// Where one parameter of a list cannot be written, the list cannot.
proof fn lemma_picked_missing(list: Seq<EventParamShape>, topics: bool, i: int)
    requires
        0 <= i < list.len(),
        named_type(list[i].name, list[i].ty) is None,
    ensures
        picked(list, topics) is None,
    decreases list.len(),
{
    if i < list.len() - 1 {
        lemma_picked_missing(list.drop_last(), topics, i);
    }
}

/// The event that an entry describes.
pub fn event_from_spec(entry: &SpecEntry) -> (r: Option<EventAbi>)
    ensures
        match r {
            Some(e) => event_of(entry@) == Some(e@),
            None => event_of(entry@) is None,
        },
{
    match entry {
        SpecEntry::Event { name, params: list } => {
            let ghost all = event_param_shapes(list@);
            let mut topics: Vec<ParamAbi> = Vec::new();
            let mut data: Vec<ParamAbi> = Vec::new();
            assert(params(topics@) =~= Seq::empty());
            for i in 0..list.len()
                invariant
                    all == event_param_shapes(list@),
                    entry@ == (EntryShape::Event { name: name@, params: all }),
                    picked(all.take(i as int), true) == Some(params(topics@)),
                    picked(all.take(i as int), false) == Some(params(data@)),
            {
                let ghost topics_so_far = params(topics@);
                let ghost data_so_far = params(data@);
                assert(all.take(i + 1).drop_last() == all.take(i as int));
                assert(all.take(i + 1).last() == all[i as int]);
                match read_param(&list[i].name, &list[i].ty) {
                    Some(p) => {
                        if list[i].is_topic {
                            topics.push(p);
                            assert(params(topics@) =~= topics_so_far.push(p@));
                        } else {
                            data.push(p);
                            assert(params(data@) =~= data_so_far.push(p@));
                        }
                    },
                    None => {
                        proof {
                            lemma_picked_missing(all, true, i as int);
                        }
                        return None;
                    },
                }
            }
            assert(all.take(list@.len() as int) == all);
            match spec_ident(name) {
                Some(name) => Some(EventAbi { name, topics, data }),
                None => None,
            }
        },
        _ => None,
    }
}

/// The inventory that the entries describe.
pub fn inventory_from_entries(
    abi_version: u32,
    methods: &[SpecEntry],
    type_entries: &[SpecEntry],
    error_entry: &SpecEntry,
    event_entries: &[SpecEntry],
) -> (r: Option<Inventory>)
    ensures
        match r {
            Some(inv) => inventory_of(
                abi_version,
                entry_shapes(methods@),
                entry_shapes(type_entries@),
                error_entry@,
                entry_shapes(event_entries@),
            ) == Some(inv@),
            None => inventory_of(
                abi_version,
                entry_shapes(methods@),
                entry_shapes(type_entries@),
                error_entry@,
                entry_shapes(event_entries@),
            ) is None,
        },
{
    let ghost all_methods = entry_shapes(methods@);
    let ghost all_types = entry_shapes(type_entries@);
    let ghost all_events = entry_shapes(event_entries@);
    let mut f: Vec<FunctionAbi> = Vec::new();
    for i in 0..methods.len()
        invariant
            all_methods == entry_shapes(methods@),
            f@.len() == i,
            forall|j: int|
                0 <= j < i ==> function_rule()(#[trigger] all_methods[j]) == Some(f@[j]@),
    {
        assert(all_methods[i as int] == methods@[i as int]@);
        match function_from_spec(&methods[i]) {
            Some(x) => {
                f.push(x);
            },
            None => {
                assert(function_rule()(all_methods[i as int]) is None);
                return None;
            },
        }
    }
    let mut t: Vec<TypeAbi> = Vec::new();
    for i in 0..type_entries.len()
        invariant
            all_types == entry_shapes(type_entries@),
            t@.len() == i,
            forall|j: int| 0 <= j < i ==> type_rule()(#[trigger] all_types[j]) == Some(t@[j]@),
    {
        assert(all_types[i as int] == type_entries@[i as int]@);
        match type_from_spec(&type_entries[i]) {
            Some(x) => {
                t.push(x);
            },
            None => {
                assert(type_rule()(all_types[i as int]) is None);
                return None;
            },
        }
    }
    let mut v: Vec<EventAbi> = Vec::new();
    for i in 0..event_entries.len()
        invariant
            all_events == entry_shapes(event_entries@),
            v@.len() == i,
            forall|j: int| 0 <= j < i ==> event_rule()(#[trigger] all_events[j]) == Some(v@[j]@),
    {
        assert(all_events[i as int] == event_entries@[i as int]@);
        match event_from_spec(&event_entries[i]) {
            Some(x) => {
                v.push(x);
            },
            None => {
                assert(event_rule()(all_events[i as int]) is None);
                return None;
            },
        }
    }
    proof {
        assert(functions(f@) =~= all_methods.map_values(
            |e: EntryShape| function_rule()(e).unwrap(),
        ));
        assert(types(t@) =~= all_types.map_values(|e: EntryShape| type_rule()(e).unwrap()));
        assert(events(v@) =~= all_events.map_values(|e: EntryShape| event_rule()(e).unwrap()));
        lemma_sorted_map(
            f@,
            key_fn::<FunctionAbi, char>(),
            |x: FunctionAbi| x@,
            function_key(),
        );
        lemma_sorted_map(t@, key_fn::<TypeAbi, char>(), |x: TypeAbi| x@, type_key());
        lemma_sorted_map(v@, key_fn::<EventAbi, char>(), |x: EventAbi| x@, event_key());
    }
    match errors_from_spec(error_entry) {
        Some(errors) => {
            let inv = Inventory {
                abi_version,
                functions: sort_by_name::<FunctionAbi, char>(f),
                types: sort_by_name::<TypeAbi, char>(t),
                errors,
                events: sort_by_name::<EventAbi, char>(v),
            };
            assert(inv@.functions == sorted(functions(f@), function_key()));
            assert(inv@.types == sorted(types(t@), type_key()));
            assert(inv@.events == sorted(events(v@), event_key()));
            Some(inv)
        },
        None => None,
    }
}

/// The entries that byte strings decode to.
fn parse_all(list: &[Vec<u8>]) -> (r: Option<Vec<SpecEntry>>)
    ensures
        match r {
            Some(v) => all_of(byte_strings(list@), entry_rule()) == Some(entry_shapes(v@)),
            None => all_of(byte_strings(list@), entry_rule()) is None,
        },
{
    let ghost all = byte_strings(list@);
    let mut r: Vec<SpecEntry> = Vec::new();
    for i in 0..list.len()
        invariant
            all == byte_strings(list@),
            r@.len() == i,
            forall|j: int| 0 <= j < i ==> entry_rule()(#[trigger] all[j]) == Some(r@[j]@),
    {
        assert(all[i as int] == list@[i as int]@);
        match parse_spec(&list[i]) {
            Some(e) => {
                r.push(e);
            },
            None => {
                assert(entry_rule()(all[i as int]) is None);
                return None;
            },
        }
    }
    assert(entry_shapes(r@) =~= all.map_values(|b: Seq<u8>| entry_rule()(b).unwrap()));
    Some(r)
}

/// The inventory that the embedded specification describes: the XDR of each method, each type,
/// the errors and each event.
pub fn current_inventory(
    abi_version: u32,
    methods: &[Vec<u8>],
    type_specs: &[Vec<u8>],
    error_spec: &[u8],
    event_specs: &[Vec<u8>],
) -> (r: Option<Inventory>)
    ensures
        match r {
            Some(inv) => inventory_of_bytes(
                abi_version,
                byte_strings(methods@),
                byte_strings(type_specs@),
                error_spec@,
                byte_strings(event_specs@),
            ) == Some(inv@),
            None => inventory_of_bytes(
                abi_version,
                byte_strings(methods@),
                byte_strings(type_specs@),
                error_spec@,
                byte_strings(event_specs@),
            ) is None,
        },
{
    match (
        parse_all(methods),
        parse_all(type_specs),
        parse_spec(error_spec),
        parse_all(event_specs),
    ) {
        (Some(f), Some(t), Some(e), Some(v)) => inventory_from_entries(
            abi_version,
            &f,
            &t,
            &e,
            &v,
        ),
        _ => None,
    }
}

} // verus!
