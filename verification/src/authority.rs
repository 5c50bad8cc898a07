//! Who may do what to a stream, and what a call that was refused may not touch.
use crate::abi::inventory::{auth_entries, auth_label, lemma_label_at};
use crate::stream::{StreamModel, StreamState};
use crate::text::same_text;
use vstd::prelude::*;

verus! {

/// A caller, by the part it plays.
#[derive(Clone, Copy, Debug, PartialEq, Eq, Structural)]
pub enum CallerRole {
    Sender,
    InitialRecipient,
    AlternateRecipient,
    Unrelated,
}

/// A call that needs authorization.
#[derive(Clone, Copy, Debug, PartialEq, Eq, Structural)]
pub enum AuthAction {
    Withdraw,
    BatchWithdraw,
    TransferRecipient,
    Pause,
    Resume,
    Cancel,
    TopUp,
}

/// The addresses of those who take part, in their text form.
#[derive(Clone, Debug, PartialEq, Eq)]
pub struct Parties {
    pub sender: String,
    pub recipient: String,
    pub other: String,
    pub unrelated: String,
}

/// The mathematical value of a `Parties`.
#[verifier::ext_equal]
pub struct PartiesModel {
    pub sender: Seq<char>,
    pub recipient: Seq<char>,
    pub other: Seq<char>,
    pub unrelated: Seq<char>,
}

impl View for Parties {
    type V = PartiesModel;

    open spec fn view(&self) -> PartiesModel {
        PartiesModel {
            sender: self.sender@,
            recipient: self.recipient@,
            other: self.other@,
            unrelated: self.unrelated@,
        }
    }
}

/// An argument of a call.
#[derive(Clone, Debug, PartialEq, Eq)]
pub enum CallArg {
    Id(u64),
    Ids(Vec<u64>),
    Amount(i128),
    OptionalAmount(Option<i128>),
    Address(String),
}

/// The mathematical value of a `CallArg`.
#[verifier::ext_equal]
pub enum ArgModel {
    Id(u64),
    Ids(Seq<u64>),
    Amount(i128),
    OptionalAmount(Option<i128>),
    Address(Seq<char>),
}

impl View for CallArg {
    type V = ArgModel;

    open spec fn view(&self) -> ArgModel {
        match self {
            CallArg::Id(id) => ArgModel::Id(*id),
            CallArg::Ids(ids) => ArgModel::Ids(ids@),
            CallArg::Amount(amount) => ArgModel::Amount(*amount),
            CallArg::OptionalAmount(amount) => ArgModel::OptionalAmount(*amount),
            CallArg::Address(address) => ArgModel::Address(address@),
        }
    }
}

/// The values of a list of arguments.
pub open spec fn arg_models(args: Seq<CallArg>) -> Seq<ArgModel> {
    args.map_values(|a: CallArg| a@)
}

/// The address of a caller.
pub open spec fn address_of(role: CallerRole, parties: PartiesModel) -> Seq<char> {
    match role {
        CallerRole::Sender => parties.sender,
        CallerRole::InitialRecipient => parties.recipient,
        CallerRole::AlternateRecipient => parties.other,
        CallerRole::Unrelated => parties.unrelated,
    }
}

/// Whose authorization a call needs. After a transfer the recipient is the one that the stream
/// names now.
pub open spec fn authorizer_of(action: AuthAction, stream: StreamModel) -> Seq<char> {
    match action {
        AuthAction::Withdraw | AuthAction::BatchWithdraw => stream.recipient,
        AuthAction::TransferRecipient => stream.sender,
        AuthAction::Pause | AuthAction::Resume | AuthAction::Cancel | AuthAction::TopUp => {
            stream.sender
        },
    }
}

/// To whom a claim is transferred: to whoever of the two recipients does not have it.
pub open spec fn target_of(
    action: AuthAction,
    parties: PartiesModel,
    stream: StreamModel,
) -> Seq<char> {
    if action != AuthAction::TransferRecipient {
        parties.other
    } else if stream.recipient == parties.other {
        parties.recipient
    } else {
        parties.other
    }
}

/// The method that a call goes to.
pub open spec fn method_of(action: AuthAction) -> Seq<char> {
    match action {
        AuthAction::Withdraw => "withdraw"@,
        AuthAction::BatchWithdraw => "batch_withdraw"@,
        AuthAction::TransferRecipient => "transfer_recipient"@,
        AuthAction::Pause => "pause"@,
        AuthAction::Resume => "resume"@,
        AuthAction::Cancel => "cancel"@,
        AuthAction::TopUp => "top_up"@,
    }
}

/// The arguments of a call. A top-up is of ten whole tokens.
pub open spec fn args_of(
    action: AuthAction,
    parties: PartiesModel,
    stream_id: u64,
    stream: StreamModel,
    caller: Seq<char>,
    one: i128,
) -> Seq<ArgModel> {
    match action {
        AuthAction::Withdraw => seq![ArgModel::Id(stream_id), ArgModel::OptionalAmount(None)],
        AuthAction::BatchWithdraw => seq![
            ArgModel::Address(caller),
            ArgModel::Ids(seq![stream_id]),
        ],
        AuthAction::TransferRecipient => seq![
            ArgModel::Id(stream_id),
            ArgModel::Address(target_of(action, parties, stream)),
        ],
        AuthAction::Pause | AuthAction::Resume | AuthAction::Cancel => seq![
            ArgModel::Id(stream_id),
        ],
        AuthAction::TopUp => seq![
            ArgModel::Id(stream_id),
            ArgModel::Amount((10 * one) as i128),
        ],
    }
}

impl CallerRole {
    /// The caller with this number.
    pub fn numbered(n: u8) -> (r: CallerRole)
        ensures
            r == (if n == 0 {
                CallerRole::Sender
            } else if n == 1 {
                CallerRole::InitialRecipient
            } else if n == 2 {
                CallerRole::AlternateRecipient
            } else {
                CallerRole::Unrelated
            }),
    {
        match n {
            0 => CallerRole::Sender,
            1 => CallerRole::InitialRecipient,
            2 => CallerRole::AlternateRecipient,
            _ => CallerRole::Unrelated,
        }
    }

    /// The address of the caller.
    pub fn address(self, parties: &Parties) -> (r: String)
        ensures
            r@ == address_of(self, parties@),
    {
        match self {
            CallerRole::Sender => parties.sender.clone(),
            CallerRole::InitialRecipient => parties.recipient.clone(),
            CallerRole::AlternateRecipient => parties.other.clone(),
            CallerRole::Unrelated => parties.unrelated.clone(),
        }
    }
}

impl AuthAction {
    /// The call with this number.
    pub fn numbered(n: u8) -> (r: AuthAction)
        ensures
            r == (if n == 0 {
                AuthAction::Withdraw
            } else if n == 1 {
                AuthAction::BatchWithdraw
            } else if n == 2 {
                AuthAction::TransferRecipient
            } else if n == 3 {
                AuthAction::Pause
            } else if n == 4 {
                AuthAction::Resume
            } else if n == 5 {
                AuthAction::Cancel
            } else {
                AuthAction::TopUp
            }),
    {
        match n {
            0 => AuthAction::Withdraw,
            1 => AuthAction::BatchWithdraw,
            2 => AuthAction::TransferRecipient,
            3 => AuthAction::Pause,
            4 => AuthAction::Resume,
            5 => AuthAction::Cancel,
            _ => AuthAction::TopUp,
        }
    }

    /// Whose authorization the call needs.
    pub fn expected_authorizer(self, stream: &StreamState) -> (r: String)
        ensures
            r@ == authorizer_of(self, stream@),
    {
        match self {
            AuthAction::Withdraw | AuthAction::BatchWithdraw => stream.recipient.clone(),
            AuthAction::TransferRecipient => stream.sender.clone(),
            AuthAction::Pause | AuthAction::Resume | AuthAction::Cancel | AuthAction::TopUp => {
                stream.sender.clone()
            },
        }
    }

    /// To whom a claim is transferred.
    pub fn transfer_target(self, parties: &Parties, stream: &StreamState) -> (r: String)
        ensures
            r@ == target_of(self, parties@, stream@),
    {
        if self != AuthAction::TransferRecipient {
            return parties.other.clone();
        }
        if same_text(&stream.recipient, &parties.other) {
            parties.recipient.clone()
        } else {
            parties.other.clone()
        }
    }

    /// The method that the call goes to.
    pub fn fn_name(self) -> (r: &'static str)
        ensures
            r@ == method_of(self),
    {
        match self {
            AuthAction::Withdraw => "withdraw",
            AuthAction::BatchWithdraw => "batch_withdraw",
            AuthAction::TransferRecipient => "transfer_recipient",
            AuthAction::Pause => "pause",
            AuthAction::Resume => "resume",
            AuthAction::Cancel => "cancel",
            AuthAction::TopUp => "top_up",
        }
    }

    /// The arguments of the call.
    pub fn args(
        self,
        parties: &Parties,
        stream_id: u64,
        stream: &StreamState,
        caller: &str,
        one: i128,
    ) -> (r: Vec<CallArg>)
        requires
            i128::MIN <= 10 * one <= i128::MAX,
        ensures
            arg_models(r@) == args_of(self, parties@, stream_id, stream@, caller@, one),
    {
        let r = match self {
            AuthAction::Withdraw => vec![CallArg::Id(stream_id), CallArg::OptionalAmount(None)],
            AuthAction::BatchWithdraw => vec![
                CallArg::Address(caller.to_string()),
                CallArg::Ids(vec![stream_id]),
            ],
            AuthAction::TransferRecipient => vec![
                CallArg::Id(stream_id),
                CallArg::Address(self.transfer_target(parties, stream)),
            ],
            AuthAction::Pause | AuthAction::Resume | AuthAction::Cancel => vec![
                CallArg::Id(stream_id),
            ],
            AuthAction::TopUp => vec![CallArg::Id(stream_id), CallArg::Amount(10 * one)],
        };
        assert(arg_models(r@) =~~= args_of(self, parties@, stream_id, stream@, caller@, one));
        r
    }
}

/// The state that a refused call may not touch.
#[derive(Clone, Debug, PartialEq, Eq)]
pub struct AuthSnapshot {
    pub stream: StreamState,
    pub sender_balance: i128,
    pub initial_recipient_balance: i128,
    pub alternate_recipient_balance: i128,
    pub unrelated_balance: i128,
    pub pool: i128,
    pub stream_count: u64,
}

/// The mathematical value of an `AuthSnapshot`.
#[verifier::ext_equal]
pub struct SnapshotModel {
    pub stream: StreamModel,
    pub sender_balance: i128,
    pub initial_recipient_balance: i128,
    pub alternate_recipient_balance: i128,
    pub unrelated_balance: i128,
    pub pool: i128,
    pub stream_count: u64,
}

impl View for AuthSnapshot {
    type V = SnapshotModel;

    open spec fn view(&self) -> SnapshotModel {
        SnapshotModel {
            stream: self.stream@,
            sender_balance: self.sender_balance,
            initial_recipient_balance: self.initial_recipient_balance,
            alternate_recipient_balance: self.alternate_recipient_balance,
            unrelated_balance: self.unrelated_balance,
            pool: self.pool,
            stream_count: self.stream_count,
        }
    }
}

impl AuthSnapshot {
    /// Whether two snapshots are the same.
    pub fn same(&self, other: &AuthSnapshot) -> (r: bool)
        ensures
            r == (self@ == other@),
    {
        self.stream.same(&other.stream) && self.sender_balance == other.sender_balance
            && self.initial_recipient_balance == other.initial_recipient_balance
            && self.alternate_recipient_balance == other.alternate_recipient_balance
            && self.unrelated_balance == other.unrelated_balance && self.pool == other.pool
            && self.stream_count == other.stream_count
    }
}

/// How a step can break the rules of authorization.
#[derive(Clone, Copy, Debug, PartialEq, Eq, Structural)]
pub enum StepFault {
    /// A call by someone other than the one who may make it was accepted.
    AcceptedUnauthorized,
    /// The call was accepted, but demanded the authorization of someone else.
    WrongAuthorizer,
    /// The call was refused, but changed state or balances.
    RefusedButChanged,
    /// The call was refused, but emitted events.
    RefusedButEmitted,
}

/// How a step breaks the rules of authorization, if it does.
pub open spec fn step_fault(
    accepted: bool,
    caller: Seq<char>,
    expected: Seq<char>,
    required: Seq<char>,
    before: SnapshotModel,
    after: SnapshotModel,
    events: nat,
) -> Option<StepFault> {
    if accepted {
        if caller != expected {
            Some(StepFault::AcceptedUnauthorized)
        } else if required != expected {
            Some(StepFault::WrongAuthorizer)
        } else {
            None
        }
    } else if after != before {
        Some(StepFault::RefusedButChanged)
    } else if events > 0 {
        Some(StepFault::RefusedButEmitted)
    } else {
        None
    }
}

/// Checks a step against the rules of authorization: what is accepted came from whoever may make
/// the call and demanded their authorization; what is refused left no trace.
pub fn check_step(
    accepted: bool,
    caller: &str,
    expected: &str,
    required: &str,
    before: &AuthSnapshot,
    after: &AuthSnapshot,
    events: usize,
) -> (r: Option<StepFault>)
    ensures
        r == step_fault(accepted, caller@, expected@, required@, before@, after@, events as nat),
{
    if accepted {
        if !same_text(caller, expected) {
            Some(StepFault::AcceptedUnauthorized)
        } else if !same_text(required, expected) {
            Some(StepFault::WrongAuthorizer)
        } else {
            None
        }
    } else if !after.same(before) {
        Some(StepFault::RefusedButChanged)
    } else if events > 0 {
        Some(StepFault::RefusedButEmitted)
    } else {
        None
    }
}

/// A claim is always transferred to someone who does not have it, where the two recipients are
/// not the same.
pub proof fn transfer_moves_the_claim(parties: PartiesModel, stream: StreamModel)
    requires
        parties.recipient != parties.other,
    ensures
        target_of(AuthAction::TransferRecipient, parties, stream) != stream.recipient,
{
}

/// After a transfer, it is the new recipient whose authorization a withdrawal needs.
pub proof fn authority_follows_the_recipient(stream: StreamModel, new_recipient: Seq<char>)
    ensures
        authorizer_of(
            AuthAction::Withdraw,
            (StreamModel { recipient: new_recipient, ..stream }),
        ) == new_recipient,
        authorizer_of(
            AuthAction::BatchWithdraw,
            (StreamModel { recipient: new_recipient, ..stream }),
        ) == new_recipient,
{
}

/// The party that a label of the table of authorizations names.
pub open spec fn labelled(label: Seq<char>, stream: StreamModel) -> Seq<char> {
    if label == "recipient"@ {
        stream.recipient
    } else {
        stream.sender
    }
}

/// Whose authorization a call needs is what the table of authorizations says of its method. The
/// one exception is the transfer of a claim, which only the sender can authorize while the table
/// still names the recipient.
pub proof fn authorizer_is_the_labelled_party(action: AuthAction, stream: StreamModel)
    requires
        action != AuthAction::TransferRecipient,
    ensures
        auth_label(method_of(action)) matches Some(label) && (label == "sender"@ || label
            == "recipient"@) && authorizer_of(action, stream) == labelled(label, stream),
{
    let table = auth_entries();
    reveal_strlit("create_stream");
    reveal_strlit("top_up");
    reveal_strlit("cancel");
    reveal_strlit("pause");
    reveal_strlit("resume");
    reveal_strlit("withdraw");
    reveal_strlit("batch_withdraw");
    reveal_strlit("sender");
    reveal_strlit("recipient");
    let at: int = match action {
        AuthAction::TopUp => 1,
        AuthAction::Cancel => 2,
        AuthAction::Pause => 3,
        AuthAction::Resume => 4,
        AuthAction::Withdraw => 5,
        _ => 6,
    };
    let name = method_of(action);
    assert forall|j: int| 0 <= j < at implies (#[trigger] table[j]).0@ != name by {
        let other = table[j].0@;
        assert(other.len() != name.len() || other[0] != name[0]);
    }
    lemma_label_at(table, name, at);
    assert("sender"@.len() != "recipient"@.len());
}

} // verus!
