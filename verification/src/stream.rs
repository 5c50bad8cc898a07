//! A payment stream, as the contract stores it.
use crate::text::same_text;
use vstd::prelude::*;

verus! {

/// The state of a stream.
#[derive(Clone, Copy, Debug, PartialEq, Eq, Structural)]
pub enum StreamStatus {
    Active,
    Paused,
    Cancelled,
    Depleted,
}

/// A payment stream. Addresses stand here in their text form.
#[derive(Clone, Debug, PartialEq, Eq)]
pub struct StreamState {
    pub sender: String,
    pub recipient: String,
    pub token: String,
    pub deposited: i128,
    pub withdrawn: i128,
    pub start_time: u64,
    pub end_time: u64,
    pub cliff_time: u64,
    pub cancellable: bool,
    pub pausable: bool,
    pub transferable: bool,
    pub status: StreamStatus,
    pub paused_at: Option<u64>,
    pub paused_total: u64,
}

/// The mathematical value of a `StreamState`.
#[verifier::ext_equal]
pub struct StreamModel {
    pub sender: Seq<char>,
    pub recipient: Seq<char>,
    pub token: Seq<char>,
    pub deposited: i128,
    pub withdrawn: i128,
    pub start_time: u64,
    pub end_time: u64,
    pub cliff_time: u64,
    pub cancellable: bool,
    pub pausable: bool,
    pub transferable: bool,
    pub status: StreamStatus,
    pub paused_at: Option<u64>,
    pub paused_total: u64,
}

impl View for StreamState {
    type V = StreamModel;

    open spec fn view(&self) -> StreamModel {
        StreamModel {
            sender: self.sender@,
            recipient: self.recipient@,
            token: self.token@,
            deposited: self.deposited,
            withdrawn: self.withdrawn,
            start_time: self.start_time,
            end_time: self.end_time,
            cliff_time: self.cliff_time,
            cancellable: self.cancellable,
            pausable: self.pausable,
            transferable: self.transferable,
            status: self.status,
            paused_at: self.paused_at,
            paused_total: self.paused_total,
        }
    }
}

/// Whether two optional times are the same.
fn same_time(a: Option<u64>, b: Option<u64>) -> (r: bool)
    ensures
        r == (a == b),
{
    match (a, b) {
        (Some(x), Some(y)) => x == y,
        (None, None) => true,
        _ => false,
    }
}

impl StreamState {
    /// Whether two streams agree in everything but the recipient.
    fn same_but_recipient(&self, other: &StreamState) -> (r: bool)
        ensures
            r == (self@ == (StreamModel { recipient: self@.recipient, ..other@ })),
    {
        same_text(&self.sender, &other.sender) && same_text(&self.token, &other.token)
            && self.deposited == other.deposited && self.withdrawn == other.withdrawn
            && self.start_time == other.start_time && self.end_time == other.end_time
            && self.cliff_time == other.cliff_time && self.cancellable == other.cancellable
            && self.pausable == other.pausable && self.transferable == other.transferable
            && self.status == other.status && same_time(self.paused_at, other.paused_at)
            && self.paused_total == other.paused_total
    }

    /// Whether two streams are the same.
    pub fn same(&self, other: &StreamState) -> (r: bool)
        ensures
            r == (self@ == other@),
    {
        self.same_but_recipient(other) && same_text(&self.recipient, &other.recipient)
    }
}

/// Whether a transfer changed the recipient to the new one, and nothing else.
pub fn only_recipient_changed(
    before: &StreamState,
    after: &StreamState,
    new_recipient: &str,
) -> (r: bool)
    ensures
        r == (after@ == (StreamModel { recipient: new_recipient@, ..before@ })),
{
    after.same_but_recipient(before) && same_text(&after.recipient, new_recipient)
}

/// What the contract says of the claim on a stream.
#[derive(Clone, Copy, Debug, PartialEq, Eq, Structural)]
pub struct Claim {
    pub deposited: i128,
    pub withdrawn: i128,
    pub vested: i128,
    pub withdrawable: i128,
    pub refundable: i128,
}

impl Claim {
    /// What is vested and what is refundable make up the deposit, and what is vested and not
    /// withdrawn is withdrawable.
    pub open spec fn adds_up(self) -> bool {
        self.vested + self.refundable == self.deposited && self.vested - self.withdrawn
            == self.withdrawable
    }
}

/// Whether the claim is the expected one and adds up.
pub fn claim_holds(actual: Claim, expected: Claim) -> (r: bool)
    requires
        i128::MIN <= expected.vested + expected.refundable <= i128::MAX,
        i128::MIN <= expected.vested - expected.withdrawn <= i128::MAX,
    ensures
        r == (actual == expected && expected.adds_up()),
{
    actual == expected && expected.vested + expected.refundable == expected.deposited
        && expected.vested - expected.withdrawn == expected.withdrawable
}

} // verus!
