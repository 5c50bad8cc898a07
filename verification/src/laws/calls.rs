//! What a generated call asks for, of whom, and how it is judged.
use crate::authority::{
    address_of, args_of, authorizer_of, method_of, step_fault, target_of, ArgModel, AuthAction,
    CallerRole, PartiesModel, SnapshotModel, StepFault,
};
use crate::stream::StreamModel;
use vstd::prelude::*;

verus! {

/// A transfer names the stream, and as its new recipient whichever of the two recipients does not
/// have the claim. Where the two differ, that is never the one who has it already.
pub proof fn transfer_goes_to_who_lacks_the_claim(
    parties: PartiesModel,
    id: u64,
    stream: StreamModel,
    caller: Seq<char>,
    one: i128,
)
    requires
        parties.recipient != parties.other,
    ensures
        ({
            let args = args_of(AuthAction::TransferRecipient, parties, id, stream, caller, one);
            &&& args.len() == 2
            &&& args[0] == ArgModel::Id(id)
            &&& args[1] is Address
            &&& args[1]->Address_0 != stream.recipient
            &&& stream.recipient == parties.other ==> args[1]->Address_0 == parties.recipient
            &&& stream.recipient != parties.other ==> args[1]->Address_0 == parties.other
        }),
{
}

/// Two transfers in a row, the second on the stream as the first left it, bring the claim back to
/// where it was, if it was with one of the two recipients.
pub proof fn transferring_twice_returns_the_claim(
    parties: PartiesModel,
    id: u64,
    stream: StreamModel,
    caller: Seq<char>,
    one: i128,
)
    requires
        parties.recipient != parties.other,
        stream.recipient == parties.recipient || stream.recipient == parties.other,
    ensures
        ({
            let first = args_of(
                AuthAction::TransferRecipient,
                parties,
                id,
                stream,
                caller,
                one,
            )[1]->Address_0;
            let moved = StreamModel { recipient: first, ..stream };
            args_of(
                AuthAction::TransferRecipient,
                parties,
                id,
                moved,
                caller,
                one,
            )[1]->Address_0 == stream.recipient
        }),
{
}

/// What is asked for, and what a call goes by as the target, are the same party.
pub proof fn transfer_arguments_name_the_target(
    parties: PartiesModel,
    id: u64,
    stream: StreamModel,
    caller: Seq<char>,
    one: i128,
)
    ensures
        args_of(AuthAction::TransferRecipient, parties, id, stream, caller, one) == seq![
            ArgModel::Id(id),
            ArgModel::Address(target_of(AuthAction::TransferRecipient, parties, stream)),
        ],
        forall|action: AuthAction|
            action != AuthAction::TransferRecipient ==> #[trigger] target_of(
                action,
                parties,
                stream,
            ) == parties.other,
{
}

/// Every call is about the one stream. A withdrawal asks for all there is, a batch is made by the
/// caller for that stream alone, and a top-up is of ten whole tokens.
pub proof fn calls_are_about_the_stream(
    action: AuthAction,
    parties: PartiesModel,
    id: u64,
    stream: StreamModel,
    caller: Seq<char>,
    one: i128,
)
    requires
        i128::MIN <= 10 * one <= i128::MAX,
    ensures
        ({
            let args = args_of(action, parties, id, stream, caller, one);
            &&& action != AuthAction::BatchWithdraw ==> args.len() > 0 && args[0] == ArgModel::Id(id)
            &&& action == AuthAction::Withdraw ==> args.len() == 2 && args[1]
                == ArgModel::OptionalAmount(None)
            &&& action == AuthAction::BatchWithdraw ==> args.len() == 2 && args[0]
                == ArgModel::Address(caller) && (args[1] matches ArgModel::Ids(ids) && ids
                =~= seq![id])
            &&& action == AuthAction::TopUp ==> args.len() == 2 && (args[1] matches ArgModel::Amount(
                amount,
            ) && amount == 10 * one)
            &&& action == AuthAction::Pause || action == AuthAction::Resume || action
                == AuthAction::Cancel ==> args.len() == 1
        }),
{
}

/// Who calls does not change what is asked for, but in a batch; nor does anything of the stream,
/// but in a transfer, and there only who its recipient is.
pub proof fn arguments_depend_on_little(
    action: AuthAction,
    parties: PartiesModel,
    id: u64,
    stream: StreamModel,
    other: StreamModel,
    caller: Seq<char>,
    another: Seq<char>,
    one: i128,
)
    ensures
        action != AuthAction::BatchWithdraw ==> args_of(action, parties, id, stream, caller, one)
            == args_of(action, parties, id, stream, another, one),
        action != AuthAction::TransferRecipient || stream.recipient == other.recipient ==> args_of(
            action,
            parties,
            id,
            stream,
            caller,
            one,
        ) == args_of(action, parties, id, other, caller, one),
{
}

/// Each part is played by the party of that name.
pub proof fn parts_are_played_by_their_parties(parties: PartiesModel)
    ensures
        address_of(CallerRole::Sender, parties) == parties.sender,
        address_of(CallerRole::InitialRecipient, parties) == parties.recipient,
        address_of(CallerRole::AlternateRecipient, parties) == parties.other,
        address_of(CallerRole::Unrelated, parties) == parties.unrelated,
{
}

/// Withdrawals need whoever the stream names as recipient. All else, transfers too, needs the
/// sender, whoever the recipient is.
pub proof fn claims_are_the_recipients_and_control_is_the_senders(
    action: AuthAction,
    stream: StreamModel,
)
    ensures
        action == AuthAction::Withdraw || action == AuthAction::BatchWithdraw ==> authorizer_of(
            action,
            stream,
        ) == stream.recipient,
        action != AuthAction::Withdraw && action != AuthAction::BatchWithdraw ==> authorizer_of(
            action,
            stream,
        ) == stream.sender,
{
}

/// Calls go to the method of their name.
pub proof fn calls_go_to_their_method()
    ensures
        method_of(AuthAction::Withdraw) == "withdraw"@,
        method_of(AuthAction::BatchWithdraw) == "batch_withdraw"@,
        method_of(AuthAction::TransferRecipient) == "transfer_recipient"@,
        method_of(AuthAction::Pause) == "pause"@,
        method_of(AuthAction::Resume) == "resume"@,
        method_of(AuthAction::Cancel) == "cancel"@,
        method_of(AuthAction::TopUp) == "top_up"@,
{
}

/// A step is in order exactly if it was accepted, made by the one whose authorization is expected,
/// and demanded that authorization; or if it was refused, left every balance and the stream as they
/// were, and emitted nothing.
pub proof fn steps_are_in_order_exactly_if(
    accepted: bool,
    caller: Seq<char>,
    expected: Seq<char>,
    required: Seq<char>,
    before: SnapshotModel,
    after: SnapshotModel,
    events: nat,
)
    ensures
        step_fault(accepted, caller, expected, required, before, after, events) is None <==> {
            ||| accepted && caller == expected && required == expected
            ||| !accepted && after == before && events == 0
        },
        accepted && caller != expected ==> step_fault(
            accepted,
            caller,
            expected,
            required,
            before,
            after,
            events,
        ) == Some(StepFault::AcceptedUnauthorized),
        accepted && caller == expected && required != expected ==> step_fault(
            accepted,
            caller,
            expected,
            required,
            before,
            after,
            events,
        ) == Some(StepFault::WrongAuthorizer),
        !accepted && after != before ==> step_fault(
            accepted,
            caller,
            expected,
            required,
            before,
            after,
            events,
        ) == Some(StepFault::RefusedButChanged),
        !accepted && after == before && events > 0 ==> step_fault(
            accepted,
            caller,
            expected,
            required,
            before,
            after,
            events,
        ) == Some(StepFault::RefusedButEmitted),
{
}

} // verus!
