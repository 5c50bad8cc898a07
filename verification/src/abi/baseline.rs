//! The interface of record: version one, as it was frozen.
use crate::abi::inventory::{
    auth_entries, auth_label, cases, events, fn_abi, function_names, functions, lemma_label_at, params, types, CaseModel, ErrorCase, EventAbi,
    EventModel, FunctionAbi, FunctionModel, Inventory, InventoryModel, ParamAbi, ParamModel,
    TypeAbi, TypeModel,
};
use crate::sorting::{ascending, lemma_precedes_at, lemma_steps_ascend, precedes};
use vstd::prelude::*;

verus! {

/// Parameters, from their names and types.
pub open spec fn param_list(list: Seq<(&'static str, &'static str)>) -> Seq<ParamModel> {
    list.map_values(|p: (&'static str, &'static str)| ParamModel { name: p.0@, ty: p.1@ })
}

/// Errors or enum cases, from their names and numbers.
pub open spec fn case_list(list: Seq<(&'static str, u32)>) -> Seq<CaseModel> {
    list.map_values(|c: (&'static str, u32)| CaseModel { name: c.0@, discriminant: c.1 })
}

/// A method, from its name, who authorizes it, its inputs and its return type.
pub open spec fn method(
    name: &'static str,
    auth: &'static str,
    inputs: Seq<(&'static str, &'static str)>,
    outputs: &'static str,
) -> FunctionModel {
    FunctionModel { name: name@, auth: auth@, inputs: param_list(inputs), outputs: outputs@ }
}

/// An event, from its name, its topics and its payload.
pub open spec fn event(
    name: &'static str,
    topics: Seq<(&'static str, &'static str)>,
    data: Seq<(&'static str, &'static str)>,
) -> EventModel {
    EventModel { name: name@, topics: param_list(topics), data: param_list(data) }
}

/// The methods of version one, in the order of their names.
pub open spec fn v1_methods() -> Seq<FunctionModel> {
    seq![
        method(
            "batch_extend_ttl",
            "none",
            seq![("stream_ids", "Vec<u64>")],
            "Result<u32, Error>",
        ),
        method(
            "batch_withdraw",
            "recipient",
            seq![("recipient", "Address"), ("stream_ids", "Vec<u64>")],
            "Result<i128, Error>",
        ),
        method(
            "cancel",
            "sender",
            seq![("stream_id", "u64")],
            "Result<(), Error>",
        ),
        method(
            "create_stream",
            "sender",
            seq![
                ("sender", "Address"),
                ("recipient", "Address"),
                ("token", "Address"),
                ("deposit", "i128"),
                ("start_time", "u64"),
                ("end_time", "u64"),
                ("cliff_time", "u64"),
                ("cancellable", "bool"),
                ("pausable", "bool"),
                ("transferable", "bool"),
            ],
            "Result<u64, Error>",
        ),
        method(
            "extend_stream_ttl",
            "none",
            seq![("stream_id", "u64")],
            "Result<u32, Error>",
        ),
        method(
            "get_stream",
            "none",
            seq![("stream_id", "u64")],
            "Result<Stream, Error>",
        ),
        method(
            "pause",
            "sender",
            seq![("stream_id", "u64")],
            "Result<(), Error>",
        ),
        method(
            "refundable_of",
            "none",
            seq![("stream_id", "u64")],
            "Result<i128, Error>",
        ),
        method(
            "resume",
            "sender",
            seq![("stream_id", "u64")],
            "Result<(), Error>",
        ),
        method(
            "stream_count",
            "none",
            seq![],
            "u64",
        ),
        method(
            "stream_exists",
            "none",
            seq![("stream_id", "u64")],
            "bool",
        ),
        method(
            "top_up",
            "sender",
            seq![("stream_id", "u64"), ("amount", "i128")],
            "Result<(), Error>",
        ),
        method(
            "transfer_recipient",
            "recipient",
            seq![("stream_id", "u64"), ("new_recipient", "Address")],
            "Result<(), Error>",
        ),
        method(
            "vested_of",
            "none",
            seq![("stream_id", "u64")],
            "Result<i128, Error>",
        ),
        method(
            "withdraw",
            "recipient",
            seq![("stream_id", "u64"), ("amount", "Option<i128>")],
            "Result<i128, Error>",
        ),
        method(
            "withdrawable_of",
            "none",
            seq![("stream_id", "u64")],
            "Result<i128, Error>",
        ),
    ]
}

/// The fields of a stream in version one.
pub open spec fn v1_stream_fields() -> Seq<(&'static str, &'static str)> {
    seq![
        ("cancellable", "bool"),
        ("cliff_time", "u64"),
        ("deposited", "i128"),
        ("end_time", "u64"),
        ("pausable", "bool"),
        ("paused_at", "Option<u64>"),
        ("paused_total", "u64"),
        ("recipient", "Address"),
        ("sender", "Address"),
        ("start_time", "u64"),
        ("status", "StreamStatus"),
        ("token", "Address"),
        ("transferable", "bool"),
        ("withdrawn", "i128"),
    ]
}

/// The states of a stream in version one.
pub open spec fn v1_statuses() -> Seq<(&'static str, u32)> {
    seq![
        ("Active", 0),
        ("Paused", 1),
        ("Cancelled", 2),
        ("Depleted", 3),
    ]
}

/// The types of version one.
pub open spec fn v1_types() -> Seq<TypeModel> {
    seq![
        TypeModel {
            name: "Stream"@,
            kind: "struct"@,
            fields: param_list(v1_stream_fields()),
            cases: Seq::empty(),
        },
        TypeModel {
            name: "StreamStatus"@,
            kind: "enum"@,
            fields: Seq::empty(),
            cases: case_list(v1_statuses()),
        },
    ]
}

/// The errors of version one.
pub open spec fn v1_errors() -> Seq<(&'static str, u32)> {
    seq![
        ("StreamNotFound", 1),
        ("InvalidTimeRange", 2),
        ("InvalidCliff", 3),
        ("InvalidDeposit", 4),
        ("DepositRateTooLow", 5),
        ("SelfStream", 6),
        ("Unauthorized", 7),
        ("NotCancellable", 8),
        ("NotPausable", 9),
        ("NotTransferable", 10),
        ("StreamNotActive", 11),
        ("StreamNotPaused", 12),
        ("StreamAlreadyPaused", 13),
        ("StreamTerminated", 14),
        ("StreamMatured", 15),
        ("InsufficientWithdrawable", 16),
        ("NothingToWithdraw", 17),
        ("InvalidAmount", 18),
        ("BatchTooLarge", 19),
        ("EmptyBatch", 20),
        ("DuplicateStreamId", 21),
        ("Overflow", 22),
        ("TopUpTooSmall", 23),
    ]
}

/// The events of version one.
pub open spec fn v1_events() -> Seq<EventModel> {
    seq![
        event(
            "Cancelled",
            seq![("stream_id", "u64"), ("sender", "Address"), ("recipient", "Address")],
            seq![
                ("refunded", "i128"),
                ("vested", "i128"),
                ("withdrawn", "i128"),
                ("end_time", "u64"),
            ],
        ),
        event(
            "Paused",
            seq![("stream_id", "u64"), ("sender", "Address")],
            seq![("paused_at", "u64"), ("paused_total", "u64")],
        ),
        event(
            "RecipientTransferred",
            seq![
                ("stream_id", "u64"),
                ("old_recipient", "Address"),
                ("new_recipient", "Address"),
            ],
            seq![],
        ),
        event(
            "Resumed",
            seq![("stream_id", "u64"), ("sender", "Address")],
            seq![("paused_duration", "u64"), ("paused_total", "u64")],
        ),
        event(
            "StreamCreated",
            seq![("stream_id", "u64"), ("sender", "Address"), ("recipient", "Address")],
            seq![
                ("token", "Address"),
                ("deposited", "i128"),
                ("start_time", "u64"),
                ("end_time", "u64"),
                ("cliff_time", "u64"),
                ("cancellable", "bool"),
                ("pausable", "bool"),
                ("transferable", "bool"),
            ],
        ),
        event(
            "ToppedUp",
            seq![("stream_id", "u64"), ("sender", "Address")],
            seq![("amount", "i128"), ("deposited", "i128"), ("end_time", "u64")],
        ),
        event(
            "TtlExtended",
            seq![("stream_id", "u64")],
            seq![("extended_to_ledgers", "u32")],
        ),
        event(
            "Withdrawn",
            seq![("stream_id", "u64"), ("recipient", "Address")],
            seq![
                ("amount", "i128"),
                ("withdrawn", "i128"),
                ("deposited", "i128"),
                ("status", "StreamStatus"),
            ],
        ),
    ]
}

/// Version one.
pub open spec fn v1() -> InventoryModel {
    InventoryModel {
        abi_version: 1,
        functions: v1_methods(),
        types: v1_types(),
        errors: case_list(v1_errors()),
        events: v1_events(),
    }
}

/// The methods of version one stand in ascending order of their names, and no name twice.
pub proof fn v1_methods_are_ascending()
    ensures
        ascending(function_names(v1().functions)),
{
    let keys = function_names(v1_methods());
    reveal_strlit("batch_extend_ttl");
    reveal_strlit("batch_withdraw");
    reveal_strlit("cancel");
    reveal_strlit("create_stream");
    reveal_strlit("extend_stream_ttl");
    reveal_strlit("get_stream");
    reveal_strlit("pause");
    reveal_strlit("refundable_of");
    reveal_strlit("resume");
    reveal_strlit("stream_count");
    reveal_strlit("stream_exists");
    reveal_strlit("top_up");
    reveal_strlit("transfer_recipient");
    reveal_strlit("vested_of");
    reveal_strlit("withdraw");
    reveal_strlit("withdrawable_of");
    lemma_precedes_at(keys[0], keys[1], 6);
    lemma_precedes_at(keys[1], keys[2], 0);
    lemma_precedes_at(keys[2], keys[3], 1);
    lemma_precedes_at(keys[3], keys[4], 0);
    lemma_precedes_at(keys[4], keys[5], 0);
    lemma_precedes_at(keys[5], keys[6], 0);
    lemma_precedes_at(keys[6], keys[7], 0);
    lemma_precedes_at(keys[7], keys[8], 2);
    lemma_precedes_at(keys[8], keys[9], 0);
    lemma_precedes_at(keys[9], keys[10], 7);
    lemma_precedes_at(keys[10], keys[11], 0);
    lemma_precedes_at(keys[11], keys[12], 1);
    lemma_precedes_at(keys[12], keys[13], 0);
    lemma_precedes_at(keys[13], keys[14], 0);
    lemma_precedes_at(keys[14], keys[15], 8);
    assert forall|i: int| 0 <= i < keys.len() - 1 implies precedes(#[trigger] keys[i], keys[i + 1]) by {
        assert(keys.len() == 16);
    }
    lemma_steps_ascend(keys);
}

/// Each method of version one is authorized by whom the table of authorizations names.
pub proof fn v1_methods_have_their_authorization(i: int)
    requires
        0 <= i < v1().functions.len(),
    ensures
        auth_label(v1().functions[i].name) == Some(v1().functions[i].auth),
{
    let table = auth_entries();
    reveal_strlit("create_stream");
    reveal_strlit("top_up");
    reveal_strlit("cancel");
    reveal_strlit("pause");
    reveal_strlit("resume");
    reveal_strlit("withdraw");
    reveal_strlit("batch_withdraw");
    reveal_strlit("transfer_recipient");
    reveal_strlit("grant_delegate");
    reveal_strlit("revoke_delegate");
    reveal_strlit("delegate_withdraw");
    reveal_strlit("delegate_cancel");
    reveal_strlit("delegate_pause");
    reveal_strlit("delegate_resume");
    reveal_strlit("delegate_top_up");
    reveal_strlit("delegate_transfer_recipient");
    reveal_strlit("get_stream");
    reveal_strlit("withdrawable_of");
    reveal_strlit("vested_of");
    reveal_strlit("refundable_of");
    reveal_strlit("stream_count");
    reveal_strlit("stream_exists");
    reveal_strlit("extend_stream_ttl");
    reveal_strlit("batch_extend_ttl");
    let places = seq![23int, 6, 2, 0, 22, 16, 3, 19, 4, 20, 21, 1, 7, 18, 5, 17];
    let at = places[i];
    let name = v1().functions[i].name;
    assert forall|j: int| 0 <= j < at implies (#[trigger] table[j]).0@ != name by {
        let other = table[j].0@;
        assert(other.len() != name.len() || other[0] != name[0]);
    }
    lemma_label_at(table, name, at);
}

/// The errors of version one are numbered from one on, in their order.
pub proof fn v1_errors_are_numbered_in_order(i: int)
    requires
        0 <= i < v1().errors.len(),
    ensures
        v1().errors[i].discriminant == i + 1,
{
}

/// Parameters, from their names and types.
fn make_params(list: Vec<(&'static str, &'static str)>) -> (r: Vec<ParamAbi>)
    ensures
        params(r@) == param_list(list@),
{
    let mut r: Vec<ParamAbi> = Vec::new();
    for i in 0..list.len()
        invariant
            r@.len() == i,
            forall|j: int| 0 <= j < i ==> (#[trigger] r@[j])@ == param_list(list@)[j],
    {
        r.push(ParamAbi { name: list[i].0.to_string(), ty: list[i].1.to_string() });
    }
    assert(params(r@) =~= param_list(list@));
    r
}

/// Errors or enum cases, from their names and numbers.
fn make_cases(list: Vec<(&'static str, u32)>) -> (r: Vec<ErrorCase>)
    ensures
        cases(r@) == case_list(list@),
{
    let mut r: Vec<ErrorCase> = Vec::new();
    for i in 0..list.len()
        invariant
            r@.len() == i,
            forall|j: int| 0 <= j < i ==> (#[trigger] r@[j])@ == case_list(list@)[j],
    {
        r.push(ErrorCase { name: list[i].0.to_string(), discriminant: list[i].1 });
    }
    assert(cases(r@) =~= case_list(list@));
    r
}

/// A method, from its name, who authorizes it, its inputs and its return type.
fn make_method(
    name: &'static str,
    auth: &'static str,
    inputs: Vec<(&'static str, &'static str)>,
    outputs: &'static str,
) -> (r: FunctionAbi)
    ensures
        r@ == method(name, auth, inputs@, outputs),
{
    fn_abi(name, auth, make_params(inputs), outputs)
}

/// An event, from its name, its topics and its payload.
fn make_event(
    name: &'static str,
    topics: Vec<(&'static str, &'static str)>,
    data: Vec<(&'static str, &'static str)>,
) -> (r: EventAbi)
    ensures
        r@ == event(name, topics@, data@),
{
    EventAbi { name: name.to_string(), topics: make_params(topics), data: make_params(data) }
}

/// The methods of version one, in the order of their names.
fn make_v1_methods() -> (r: Vec<FunctionAbi>)
    ensures
        functions(r@) == v1_methods(),
{
    let r = vec![
        make_method(
            "batch_extend_ttl",
            "none",
            vec![("stream_ids", "Vec<u64>")],
            "Result<u32, Error>",
        ),
        make_method(
            "batch_withdraw",
            "recipient",
            vec![("recipient", "Address"), ("stream_ids", "Vec<u64>")],
            "Result<i128, Error>",
        ),
        make_method(
            "cancel",
            "sender",
            vec![("stream_id", "u64")],
            "Result<(), Error>",
        ),
        make_method(
            "create_stream",
            "sender",
            vec![
                ("sender", "Address"),
                ("recipient", "Address"),
                ("token", "Address"),
                ("deposit", "i128"),
                ("start_time", "u64"),
                ("end_time", "u64"),
                ("cliff_time", "u64"),
                ("cancellable", "bool"),
                ("pausable", "bool"),
                ("transferable", "bool"),
            ],
            "Result<u64, Error>",
        ),
        make_method(
            "extend_stream_ttl",
            "none",
            vec![("stream_id", "u64")],
            "Result<u32, Error>",
        ),
        make_method(
            "get_stream",
            "none",
            vec![("stream_id", "u64")],
            "Result<Stream, Error>",
        ),
        make_method(
            "pause",
            "sender",
            vec![("stream_id", "u64")],
            "Result<(), Error>",
        ),
        make_method(
            "refundable_of",
            "none",
            vec![("stream_id", "u64")],
            "Result<i128, Error>",
        ),
        make_method(
            "resume",
            "sender",
            vec![("stream_id", "u64")],
            "Result<(), Error>",
        ),
        make_method(
            "stream_count",
            "none",
            vec![],
            "u64",
        ),
        make_method(
            "stream_exists",
            "none",
            vec![("stream_id", "u64")],
            "bool",
        ),
        make_method(
            "top_up",
            "sender",
            vec![("stream_id", "u64"), ("amount", "i128")],
            "Result<(), Error>",
        ),
        make_method(
            "transfer_recipient",
            "recipient",
            vec![("stream_id", "u64"), ("new_recipient", "Address")],
            "Result<(), Error>",
        ),
        make_method(
            "vested_of",
            "none",
            vec![("stream_id", "u64")],
            "Result<i128, Error>",
        ),
        make_method(
            "withdraw",
            "recipient",
            vec![("stream_id", "u64"), ("amount", "Option<i128>")],
            "Result<i128, Error>",
        ),
        make_method(
            "withdrawable_of",
            "none",
            vec![("stream_id", "u64")],
            "Result<i128, Error>",
        ),
    ];
    assert(functions(r@) =~~= v1_methods());
    r
}

/// The types of version one.
fn make_v1_types() -> (r: Vec<TypeAbi>)
    ensures
        types(r@) == v1_types(),
{
    let fields = vec![
        ("cancellable", "bool"),
        ("cliff_time", "u64"),
        ("deposited", "i128"),
        ("end_time", "u64"),
        ("pausable", "bool"),
        ("paused_at", "Option<u64>"),
        ("paused_total", "u64"),
        ("recipient", "Address"),
        ("sender", "Address"),
        ("start_time", "u64"),
        ("status", "StreamStatus"),
        ("token", "Address"),
        ("transferable", "bool"),
        ("withdrawn", "i128"),
    ];
    let statuses = vec![
        ("Active", 0),
        ("Paused", 1),
        ("Cancelled", 2),
        ("Depleted", 3),
    ];
    let r = vec![
        TypeAbi {
            name: "Stream".to_string(),
            kind: "struct".to_string(),
            fields: make_params(fields),
            cases: Vec::new(),
        },
        TypeAbi {
            name: "StreamStatus".to_string(),
            kind: "enum".to_string(),
            fields: Vec::new(),
            cases: make_cases(statuses),
        },
    ];
    assert(fields@ =~= v1_stream_fields());
    assert(statuses@ =~= v1_statuses());
    assert(types(r@) =~~= v1_types());
    r
}

/// The errors of version one.
fn make_v1_errors() -> (r: Vec<ErrorCase>)
    ensures
        cases(r@) == case_list(v1_errors()),
{
    let list = vec![
        ("StreamNotFound", 1),
        ("InvalidTimeRange", 2),
        ("InvalidCliff", 3),
        ("InvalidDeposit", 4),
        ("DepositRateTooLow", 5),
        ("SelfStream", 6),
        ("Unauthorized", 7),
        ("NotCancellable", 8),
        ("NotPausable", 9),
        ("NotTransferable", 10),
        ("StreamNotActive", 11),
        ("StreamNotPaused", 12),
        ("StreamAlreadyPaused", 13),
        ("StreamTerminated", 14),
        ("StreamMatured", 15),
        ("InsufficientWithdrawable", 16),
        ("NothingToWithdraw", 17),
        ("InvalidAmount", 18),
        ("BatchTooLarge", 19),
        ("EmptyBatch", 20),
        ("DuplicateStreamId", 21),
        ("Overflow", 22),
        ("TopUpTooSmall", 23),
    ];
    assert(list@ =~= v1_errors());
    make_cases(list)
}

/// The events of version one.
fn make_v1_events() -> (r: Vec<EventAbi>)
    ensures
        events(r@) == v1_events(),
{
    let r = vec![
        make_event(
            "Cancelled",
            vec![("stream_id", "u64"), ("sender", "Address"), ("recipient", "Address")],
            vec![
                ("refunded", "i128"),
                ("vested", "i128"),
                ("withdrawn", "i128"),
                ("end_time", "u64"),
            ],
        ),
        make_event(
            "Paused",
            vec![("stream_id", "u64"), ("sender", "Address")],
            vec![("paused_at", "u64"), ("paused_total", "u64")],
        ),
        make_event(
            "RecipientTransferred",
            vec![
                ("stream_id", "u64"),
                ("old_recipient", "Address"),
                ("new_recipient", "Address"),
            ],
            vec![],
        ),
        make_event(
            "Resumed",
            vec![("stream_id", "u64"), ("sender", "Address")],
            vec![("paused_duration", "u64"), ("paused_total", "u64")],
        ),
        make_event(
            "StreamCreated",
            vec![("stream_id", "u64"), ("sender", "Address"), ("recipient", "Address")],
            vec![
                ("token", "Address"),
                ("deposited", "i128"),
                ("start_time", "u64"),
                ("end_time", "u64"),
                ("cliff_time", "u64"),
                ("cancellable", "bool"),
                ("pausable", "bool"),
                ("transferable", "bool"),
            ],
        ),
        make_event(
            "ToppedUp",
            vec![("stream_id", "u64"), ("sender", "Address")],
            vec![("amount", "i128"), ("deposited", "i128"), ("end_time", "u64")],
        ),
        make_event(
            "TtlExtended",
            vec![("stream_id", "u64")],
            vec![("extended_to_ledgers", "u32")],
        ),
        make_event(
            "Withdrawn",
            vec![("stream_id", "u64"), ("recipient", "Address")],
            vec![
                ("amount", "i128"),
                ("withdrawn", "i128"),
                ("deposited", "i128"),
                ("status", "StreamStatus"),
            ],
        ),
    ];
    assert(events(r@) =~~= v1_events());
    r
}

/// Version one. It changes only with a new version.
pub fn frozen_v1() -> (r: Inventory)
    ensures
        r@ == v1(),
{
    Inventory {
        abi_version: 1,
        functions: make_v1_methods(),
        types: make_v1_types(),
        errors: make_v1_errors(),
        events: make_v1_events(),
    }
}

} // verus!
