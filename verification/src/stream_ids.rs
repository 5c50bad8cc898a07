//! The ids of streams: unique, strictly increasing, never reused.
use crate::text::{decimal, decimal_text, join, joined, texts, two};
use vstd::prelude::*;

verus! {

/// The ids that were handed out, in order.
#[derive(Clone, Debug, PartialEq, Eq)]
pub struct IdLedger {
    pub seen: Vec<u64>,
}

/// Each id is greater than all before it.
pub open spec fn strictly_increasing(ids: Seq<u64>) -> bool {
    forall|i: int, j: int|
        #![trigger ids[i], ids[j]]
        0 <= i < j < ids.len() ==> ids[i] < ids[j]
}

/// A list of ids, in square brackets.
pub open spec fn id_list(ids: Seq<u64>) -> Seq<char> {
    "["@ + joined(ids.map_values(|id: u64| decimal(id as nat)), ", "@) + "]"@
}

/// What is wrong with handing out `id` after `seen`.
pub open spec fn id_problem(seen: Seq<u64>, id: u64) -> Option<Seq<char>> {
    if seen.contains(id) {
        Some(
            "id "@ + decimal(id as nat) + " was handed out twice; already have "@ + id_list(seen),
        )
    } else if seen.len() > 0 && id <= seen.last() {
        Some(
            "id "@ + decimal(id as nat)
                + " is not strictly greater than the previously issued id "@ + decimal(
                seen.last() as nat,
            ),
        )
    } else {
        None
    }
}

/// What is wrong with the ids from `from` on, held against the ids that exist.
pub open spec fn existence_problem(from: int, count: int, exists_at: Seq<bool>) -> Option<
    Seq<char>,
>
    decreases count - from,
{
    if from >= count {
        None
    } else if !exists_at[from] {
        Some("id "@ + decimal(from as nat) + " should exist"@)
    } else {
        existence_problem(from + 1, count, exists_at)
    }
}

/// What is wrong with the ids, held against what the contract says: how many streams there are,
/// and which of them exist.
pub open spec fn ledger_problem(seen: Seq<u64>, count: u64, exists_at: Seq<bool>) -> Option<
    Seq<char>,
> {
    if seen.len() != count {
        Some("stream_count() disagrees with the number of successful creates"@)
    } else if exists|i: int| 0 <= i < seen.len() && #[trigger] seen[i] != i {
        Some("ids must run 0..stream_count() with no gaps"@)
    } else {
        existence_problem(0, count as int, exists_at)
    }
}

/// A list of ids, in square brackets.
fn id_list_text(ids: &[u64]) -> (r: String)
    ensures
        r@ == id_list(ids@),
{
    let mut rows: Vec<String> = Vec::new();
    for i in 0..ids.len()
        invariant
            rows@.len() == i,
            forall|j: int| 0 <= j < i ==> (#[trigger] rows@[j])@ == decimal(ids@[j] as nat),
    {
        rows.push(decimal_text(ids[i] as u128));
    }
    assert(texts(rows@) =~= ids@.map_values(|id: u64| decimal(id as nat)));
    let mut r = two("[", &join(&rows, ", "));
    r.append("]");
    r
}

impl IdLedger {
    /// A ledger without ids.
    pub fn new() -> (r: IdLedger)
        ensures
            r.seen@ == Seq::<u64>::empty(),
    {
        IdLedger { seen: Vec::new() }
    }

    /// Records an id that was just handed out. One that was handed out before, or that is not
    /// greater than the last, is refused and not recorded.
    pub fn record(&mut self, id: u64) -> (r: Result<(), String>)
        ensures
            match r {
                Ok(()) => id_problem(old(self).seen@, id) is None && final(self).seen@ == old(
                    self,
                ).seen@.push(id),
                Err(text) => id_problem(old(self).seen@, id) == Some(text@) && final(self).seen@
                    == old(self).seen@,
            },
    {
        let ghost all = self.seen@;
        let len: usize = self.seen.len();
        for i in 0..len
            invariant
                all == self.seen@,
                len == all.len(),
                all == old(self).seen@,
                forall|j: int| 0 <= j < i ==> all[j] != id,
        {
            if self.seen[i] == id {
                assert(all.contains(id)) by {
                    assert(all[i as int] == id);
                }
                let mut text = two("id ", &decimal_text(id as u128));
                text.append(" was handed out twice; already have ");
                text.append(&id_list_text(&self.seen));
                return Err(text);
            }
        }
        assert(!all.contains(id));
        if len > 0 {
            let last: u64 = self.seen[len - 1];
            if id <= last {
                let mut text = two("id ", &decimal_text(id as u128));
                text.append(" is not strictly greater than the previously issued id ");
                text.append(&decimal_text(last as u128));
                return Err(text);
            }
        }
        self.seen.push(id);
        Ok(())
    }

    /// Checks the ledger against the contract: there are as many streams as ids, the ids run from
    /// zero without a gap, and each of them exists.
    pub fn matches_contract(&self, count: u64, exists_at: &[bool]) -> (r: Result<(), String>)
        requires
            exists_at@.len() >= count,
        ensures
            match r {
                Ok(()) => ledger_problem(self.seen@, count, exists_at@) is None,
                Err(text) => ledger_problem(self.seen@, count, exists_at@) == Some(text@),
            },
    {
        if self.seen.len() as u64 != count {
            return Err(
                "stream_count() disagrees with the number of successful creates".to_string(),
            );
        }
        for i in 0..self.seen.len()
            invariant
                self.seen@.len() == count,
                forall|j: int| 0 <= j < i ==> #[trigger] self.seen@[j] == j,
        {
            if self.seen[i] != i as u64 {
                assert(self.seen@[i as int] != i);
                return Err("ids must run 0..stream_count() with no gaps".to_string());
            }
        }
        for id in 0..count
            invariant
                self.seen@.len() == count,
                forall|j: int| 0 <= j < count ==> #[trigger] self.seen@[j] == j,
                exists_at@.len() >= count,
                existence_problem(0, count as int, exists_at@) == existence_problem(
                    id as int,
                    count as int,
                    exists_at@,
                ),
        {
            if !exists_at[id as usize] {
                let mut text = two("id ", &decimal_text(id as u128));
                text.append(" should exist");
                return Err(text);
            }
        }
        Ok(())
    }
}

/// Whatever is recorded, the ids of a ledger stay strictly increasing, so no id is handed out
/// twice.
pub proof fn recorded_ids_increase(seen: Seq<u64>, id: u64)
    requires
        strictly_increasing(seen),
        id_problem(seen, id) is None,
    ensures
        strictly_increasing(seen.push(id)),
        !seen.contains(id),
{
    let all = seen.push(id);
    assert forall|i: int, j: int|
        #![trigger all[i], all[j]]
        0 <= i < j < all.len() implies all[i] < all[j] by {
        if j == seen.len() && i < seen.len() - 1 {
            assert(seen[i] < seen[seen.len() - 1]);
        }
    }
}

/// What no problem is found with is all in place: every id from zero on, and each exists.
pub proof fn matching_ledger_is_gapless(seen: Seq<u64>, count: u64, exists_at: Seq<bool>, i: int)
    requires
        ledger_problem(seen, count, exists_at) is None,
        0 <= i < count,
    ensures
        seen[i] == i,
        exists_at[i],
{
    lemma_exists_from(0, count as int, exists_at, i);
}

/// Where no id is missing, each exists.
proof fn lemma_exists_from(from: int, count: int, exists_at: Seq<bool>, i: int)
    requires
        existence_problem(from, count, exists_at) is None,
        from <= i < count,
    ensures
        exists_at[i],
    decreases count - from,
{
    if from < i {
        lemma_exists_from(from + 1, count, exists_at, i);
    }
}

/// What a stream is created with.
#[derive(Clone, Debug, PartialEq, Eq)]
pub struct CreateRequest {
    pub sender: String,
    pub recipient: String,
    pub token: String,
    pub deposit: i128,
    pub start: u64,
    pub end: u64,
    pub cliff: u64,
    pub cancellable: bool,
    pub pausable: bool,
    pub transferable: bool,
}

/// The mathematical value of a `CreateRequest`.
#[verifier::ext_equal]
pub struct RequestModel {
    pub sender: Seq<char>,
    pub recipient: Seq<char>,
    pub token: Seq<char>,
    pub deposit: int,
    pub start: int,
    pub end: int,
    pub cliff: int,
    pub cancellable: bool,
    pub pausable: bool,
    pub transferable: bool,
}

impl View for CreateRequest {
    type V = RequestModel;

    open spec fn view(&self) -> RequestModel {
        RequestModel {
            sender: self.sender@,
            recipient: self.recipient@,
            token: self.token@,
            deposit: self.deposit as int,
            start: self.start as int,
            end: self.end as int,
            cliff: self.cliff as int,
            cancellable: self.cancellable,
            pausable: self.pausable,
            transferable: self.transferable,
        }
    }
}

/// A request for a stream over `duration` seconds from `start` on, without a cliff and with all
/// capabilities.
pub open spec fn simple_request(
    sender: Seq<char>,
    recipient: Seq<char>,
    token: Seq<char>,
    deposit: int,
    start: int,
    duration: int,
) -> RequestModel {
    RequestModel {
        sender,
        recipient,
        token,
        deposit,
        start,
        end: start + duration,
        cliff: start,
        cancellable: true,
        pausable: true,
        transferable: true,
    }
}

/// A request that is refused before any id is taken: sender and recipient are the same.
pub fn self_stream_request(
    sender: &str,
    token: &str,
    deposit: i128,
    start: u64,
    day: u64,
) -> (r: CreateRequest)
    requires
        start + day <= u64::MAX,
    ensures
        r@ == simple_request(sender@, sender@, token@, deposit as int, start as int, day as int),
{
    CreateRequest {
        sender: sender.to_string(),
        recipient: sender.to_string(),
        token: token.to_string(),
        deposit,
        start,
        end: start + day,
        cliff: start,
        cancellable: true,
        pausable: true,
        transferable: true,
    }
}

/// A request that is in order but for the deposit, which the sender cannot pay: one more than the
/// balance.
pub fn unaffordable_request(
    sender: &str,
    recipient: &str,
    token: &str,
    balance: i128,
    start: u64,
    day: u64,
) -> (r: CreateRequest)
    requires
        balance < i128::MAX,
        start + day <= u64::MAX,
    ensures
        r@ == simple_request(
            sender@,
            recipient@,
            token@,
            balance + 1,
            start as int,
            day as int,
        ),
{
    CreateRequest {
        sender: sender.to_string(),
        recipient: recipient.to_string(),
        token: token.to_string(),
        deposit: balance + 1,
        start,
        end: start + day,
        cliff: start,
        cancellable: true,
        pausable: true,
        transferable: true,
    }
}

} // verus!
