//! The interface of record, item by item, and who authorizes its methods.
use crate::abi::baseline::v1;
use crate::abi::inventory::{
    auth_entries, auth_label, CaseModel, EventModel, FunctionModel, ParamModel,
};
use crate::laws::decoding::labels_are_those_of_the_first_entry;
use vstd::prelude::*;

verus! {

/// The parameters have these names and types, in this order.
pub open spec fn declared(list: Seq<ParamModel>, pairs: Seq<(&'static str, &'static str)>) -> bool {
    list.len() == pairs.len() && forall|i: int|
        0 <= i < list.len() ==> (#[trigger] list[i]).name == pairs[i].0@ && list[i].ty == pairs[i].1@
}

/// The cases have these names and are numbered from `first` on.
pub open spec fn numbered(list: Seq<CaseModel>, names: Seq<&'static str>, first: int) -> bool {
    list.len() == names.len() && forall|i: int|
        0 <= i < list.len() ==> (#[trigger] list[i]).name == names[i]@ && list[i].discriminant == first
            + i
}

/// The method has this name, takes these parameters and returns a value of this type.
pub open spec fn takes(
    f: FunctionModel,
    name: &'static str,
    inputs: Seq<(&'static str, &'static str)>,
    outputs: &'static str,
) -> bool {
    f.name == name@ && declared(f.inputs, inputs) && f.outputs == outputs@
}

/// The event has this name, these topics and this payload.
pub open spec fn carries(
    e: EventModel,
    name: &'static str,
    topics: Seq<(&'static str, &'static str)>,
    data: Seq<(&'static str, &'static str)>,
) -> bool {
    e.name == name@ && declared(e.topics, topics) && declared(e.data, data)
}

/// The methods of version one, with what they take and return.
pub proof fn methods_of_record()
    ensures
        v1().abi_version == 1,
        v1().functions.len() == 16,
        takes(v1().functions[0], "batch_extend_ttl", seq![("stream_ids", "Vec<u64>")], "Result<u32, Error>"),
        takes(v1().functions[1], "batch_withdraw", seq![("recipient", "Address"), ("stream_ids", "Vec<u64>")], "Result<i128, Error>"),
        takes(v1().functions[2], "cancel", seq![("stream_id", "u64")], "Result<(), Error>"),
        takes(v1().functions[3], "create_stream", seq![("sender", "Address"), ("recipient", "Address"), ("token", "Address"), ("deposit", "i128"), ("start_time", "u64"), ("end_time", "u64"), ("cliff_time", "u64"), ("cancellable", "bool"), ("pausable", "bool"), ("transferable", "bool")], "Result<u64, Error>"),
        takes(v1().functions[4], "extend_stream_ttl", seq![("stream_id", "u64")], "Result<u32, Error>"),
        takes(v1().functions[5], "get_stream", seq![("stream_id", "u64")], "Result<Stream, Error>"),
        takes(v1().functions[6], "pause", seq![("stream_id", "u64")], "Result<(), Error>"),
        takes(v1().functions[7], "refundable_of", seq![("stream_id", "u64")], "Result<i128, Error>"),
        takes(v1().functions[8], "resume", seq![("stream_id", "u64")], "Result<(), Error>"),
        takes(v1().functions[9], "stream_count", seq![], "u64"),
        takes(v1().functions[10], "stream_exists", seq![("stream_id", "u64")], "bool"),
        takes(v1().functions[11], "top_up", seq![("stream_id", "u64"), ("amount", "i128")], "Result<(), Error>"),
        takes(v1().functions[12], "transfer_recipient", seq![("stream_id", "u64"), ("new_recipient", "Address")], "Result<(), Error>"),
        takes(v1().functions[13], "vested_of", seq![("stream_id", "u64")], "Result<i128, Error>"),
        takes(v1().functions[14], "withdraw", seq![("stream_id", "u64"), ("amount", "Option<i128>")], "Result<i128, Error>"),
        takes(v1().functions[15], "withdrawable_of", seq![("stream_id", "u64")], "Result<i128, Error>"),
{
}

/// The events of version one, with their topics and payloads.
pub proof fn events_of_record()
    ensures
        v1().events.len() == 8,
        carries(v1().events[0], "Cancelled", seq![("stream_id", "u64"), ("sender", "Address"), ("recipient", "Address")], seq![("refunded", "i128"), ("vested", "i128"), ("withdrawn", "i128"), ("end_time", "u64")]),
        carries(v1().events[1], "Paused", seq![("stream_id", "u64"), ("sender", "Address")], seq![("paused_at", "u64"), ("paused_total", "u64")]),
        carries(v1().events[2], "RecipientTransferred", seq![("stream_id", "u64"), ("old_recipient", "Address"), ("new_recipient", "Address")], seq![]),
        carries(v1().events[3], "Resumed", seq![("stream_id", "u64"), ("sender", "Address")], seq![("paused_duration", "u64"), ("paused_total", "u64")]),
        carries(v1().events[4], "StreamCreated", seq![("stream_id", "u64"), ("sender", "Address"), ("recipient", "Address")], seq![("token", "Address"), ("deposited", "i128"), ("start_time", "u64"), ("end_time", "u64"), ("cliff_time", "u64"), ("cancellable", "bool"), ("pausable", "bool"), ("transferable", "bool")]),
        carries(v1().events[5], "ToppedUp", seq![("stream_id", "u64"), ("sender", "Address")], seq![("amount", "i128"), ("deposited", "i128"), ("end_time", "u64")]),
        carries(v1().events[6], "TtlExtended", seq![("stream_id", "u64")], seq![("extended_to_ledgers", "u32")]),
        carries(v1().events[7], "Withdrawn", seq![("stream_id", "u64"), ("recipient", "Address")], seq![("amount", "i128"), ("withdrawn", "i128"), ("deposited", "i128"), ("status", "StreamStatus")]),
{
}

/// The types of version one: the stream with its fields, and its states, numbered from zero.
pub proof fn types_of_record()
    ensures
        v1().types.len() == 2,
        v1().types[0].name == "Stream"@ && v1().types[0].kind == "struct"@,
        declared(v1().types[0].fields, seq![("cancellable", "bool"), ("cliff_time", "u64"), ("deposited", "i128"), ("end_time", "u64"), ("pausable", "bool"), ("paused_at", "Option<u64>"), ("paused_total", "u64"), ("recipient", "Address"), ("sender", "Address"), ("start_time", "u64"), ("status", "StreamStatus"), ("token", "Address"), ("transferable", "bool"), ("withdrawn", "i128")]),
        v1().types[0].cases.len() == 0,
        v1().types[1].name == "StreamStatus"@ && v1().types[1].kind == "enum"@,
        v1().types[1].fields.len() == 0,
        numbered(v1().types[1].cases, seq!["Active", "Paused", "Cancelled", "Depleted"], 0),
{
}

/// The errors of version one, numbered from one on.
pub proof fn errors_of_record()
    ensures
        numbered(v1().errors, seq!["StreamNotFound", "InvalidTimeRange", "InvalidCliff", "InvalidDeposit", "DepositRateTooLow", "SelfStream", "Unauthorized", "NotCancellable", "NotPausable", "NotTransferable", "StreamNotActive", "StreamNotPaused", "StreamAlreadyPaused", "StreamTerminated", "StreamMatured", "InsufficientWithdrawable", "NothingToWithdraw", "InvalidAmount", "BatchTooLarge", "EmptyBatch", "DuplicateStreamId", "Overflow", "TopUpTooSmall"], 1),
{
}

/// The methods that the sender, the recipient, the grantor of a delegation and the delegate
/// authorize, and those that anyone may call.
pub open spec fn authorized_by(who: &'static str) -> Seq<&'static str> {
    if who@ == "sender"@ {
        seq!["create_stream", "top_up", "cancel", "pause", "resume"]
    } else if who@ == "recipient"@ {
        seq!["withdraw", "batch_withdraw", "transfer_recipient"]
    } else if who@ == "grantor"@ {
        seq!["grant_delegate", "revoke_delegate"]
    } else if who@ == "delegate"@ {
        seq!["delegate_withdraw", "delegate_cancel", "delegate_pause", "delegate_resume", "delegate_top_up", "delegate_transfer_recipient"]
    } else if who@ == "none"@ {
        seq!["get_stream", "withdrawable_of", "vested_of", "refundable_of", "stream_count", "stream_exists", "extend_stream_ttl", "batch_extend_ttl"]
    } else {
        seq![]
    }
}

/// A method is authorized by who is named in the table, and a name that is not in it by nobody.
pub proof fn methods_are_authorized_by(name: Seq<char>)
    ensures
        forall|who: &'static str, i: int|
            0 <= i < authorized_by(who).len() && name == (#[trigger] authorized_by(who)[i])@
                ==> auth_label(name) == Some(who@),
        (forall|j: int| 0 <= j < auth_entries().len() ==> (#[trigger] auth_entries()[j]).0@ != name)
            ==> auth_label(name) is None,
        auth_entries().len() == 24,
{
    let table = auth_entries();
    reveal_strlit("create_stream");
    reveal_strlit("top_up");
    reveal_strlit("cancel");
    reveal_strlit("pause");
    reveal_strlit("resume");
    reveal_strlit("withdraw");
    reveal_strlit("batch_withdraw");
    reveal_strlit("transfer_recipient");
    reveal_strlit("grant_delegate");
    reveal_strlit("revoke_delegate");
    reveal_strlit("delegate_withdraw");
    reveal_strlit("delegate_cancel");
    reveal_strlit("delegate_pause");
    reveal_strlit("delegate_resume");
    reveal_strlit("delegate_top_up");
    reveal_strlit("delegate_transfer_recipient");
    reveal_strlit("get_stream");
    reveal_strlit("withdrawable_of");
    reveal_strlit("vested_of");
    reveal_strlit("refundable_of");
    reveal_strlit("stream_count");
    reveal_strlit("stream_exists");
    reveal_strlit("extend_stream_ttl");
    reveal_strlit("batch_extend_ttl");
    reveal_strlit("sender");
    reveal_strlit("recipient");
    reveal_strlit("grantor");
    reveal_strlit("delegate");
    reveal_strlit("none");
    if forall|j: int| 0 <= j < table.len() ==> (#[trigger] table[j]).0@ != name {
        labels_are_those_of_the_first_entry(table, name, table.len() as int);
    }
    assert forall|who: &'static str, i: int|
        0 <= i < authorized_by(who).len() && name == (#[trigger] authorized_by(who)[i])@ implies auth_label(
        name,
    ) == Some(who@) by {
        let at = i + if who@ == "sender"@ {
            0int
        } else if who@ == "recipient"@ {
            5int
        } else if who@ == "grantor"@ {
            8int
        } else if who@ == "delegate"@ {
            10int
        } else {
            16
        };
        assert(table[at].0@ == name && table[at].1@ == who@);
        assert forall|j: int| 0 <= j < at implies (#[trigger] table[j]).0@ != name by {
            let other = table[j].0@;
            assert(other.len() != name.len() || other[0] != name[0] || other[9] != name[9]);
        }
        labels_are_those_of_the_first_entry(table, name, at);
    }
}

} // verus!
