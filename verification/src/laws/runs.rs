//! How runs of the contract are driven and judged.
use crate::lifecycle::{
    chosen_opening, chosen_operation, conservation_problem, next_move, next_state, output,
    output_below, owed, Action, Opening, Operation, vested_kept, Sequence, Units,
};
use crate::stream::{Claim, StreamModel};
use crate::stream_ids::{
    existence_problem, id_problem, ledger_problem, simple_request, strictly_increasing,
};
use crate::text::{decimal, joined, signed_decimal};
use crate::token_stubs::{once_allowed, topic_count};
use vstd::prelude::*;

verus! {

/// The generator is linear: the state after two states together is the states after each,
/// together. Zero stays zero.
pub proof fn generator_is_linear(x: u64, y: u64)
    ensures
        next_state(x ^ y) == next_state(x) ^ next_state(y),
        next_state(0) == 0,
{
    assert(({
        let a = (x ^ y) ^ ((x ^ y) >> 12);
        let b = a ^ (a << 25);
        b ^ (b >> 27)
    }) == ({
        let a = x ^ (x >> 12);
        let b = a ^ (a << 25);
        b ^ (b >> 27)
    }) ^ ({
        let a = y ^ (y >> 12);
        let b = a ^ (a << 25);
        b ^ (b >> 27)
    })) by (bit_vector);
    assert(({
        let a = 0u64 ^ (0u64 >> 12);
        let b = a ^ (a << 25);
        b ^ (b >> 27)
    }) == 0) by (bit_vector);
}

/// The three shifts of a step are by twelve to the right, by twenty-five to the left and by
/// twenty-seven to the right: undoing the last two gives the state with the first applied.
pub proof fn generator_shifts_are_these(x: u64)
    ensures
        exists|a: u64, b: u64|
            #![trigger a ^ (a << 25u64), b ^ (b >> 27u64)]
            a == x ^ (x >> 12) && b == a ^ (a << 25) && next_state(x) == b ^ (b >> 27),
{
    let a = x ^ (x >> 12);
    let b = a ^ (a << 25);
    assert(next_state(x) == b ^ (b >> 27));
}

/// The number that is drawn is the low half of the state times the factor, and one below a bound is
/// its remainder.
pub proof fn draws_come_from_the_state(x: u64, n: u64)
    ensures
        output(x) as int == (next_state(x) as int * 0x2545_F491_4F6C_DD1D) % (0x1_0000_0000_0000_0000),
        n > 0 ==> output_below(x, n) as int == output(x) as int % (n as int) && output_below(x, n) < n,
{
    let wide = next_state(x) as int * 0x2545_F491_4F6C_DD1D;
    assert(0 <= wide % 0x1_0000_0000_0000_0000 < 0x1_0000_0000_0000_0000);
}

/// Of ten draws, four withdraw, and one each pauses, resumes, cancels, tops up, transfers and
/// extends. What is withdrawn is all or up to a hundred tokens, what is topped up is up to five.
pub proof fn operations_are_chosen_by_draw(x: u64, units: Units)
    requires
        units.fit(),
    ensures
        ({
            let draw = output(x) % 10;
            let y = next_state(x);
            let op = chosen_operation(x, units);
            &&& draw < 4 <==> op is Withdraw
            &&& draw == 4 <==> op is Pause
            &&& draw == 5 <==> op is Resume
            &&& draw == 6 <==> op is Cancel
            &&& draw == 7 <==> op is TopUp
            &&& draw == 8 <==> op is Transfer
            &&& draw == 9 <==> op is ExtendTtl
            &&& draw < 4 ==> (output(y) % 2 == 0 <==> op == Operation::Withdraw(None))
            &&& draw < 4 && output(y) % 2 == 1 ==> op == Operation::Withdraw(
                Some(((1 + output(next_state(y)) % 100) * units.one) as i128),
            )
            &&& draw == 7 ==> op == Operation::TopUp(((1 + output(y) % 5) * units.one) as i128)
            &&& draw == 8 ==> op == (Operation::Transfer { to_other: output(y) % 2 == 0 })
        }),
{
}

/// The stream that a sequence opens starts within ten days and runs for one to six, with no cliff
/// and a token for each second.
pub proof fn openings_are_chosen_by_draw(x: u64, now: u64, units: Units)
    requires
        units.fit(),
        now + 20 * units.day <= u64::MAX,
    ensures
        ({
            let o = chosen_opening(x, now, units);
            let wait = output(x) as int % (10 * units.day);
            let length = units.day + output(next_state(x)) as int % (5 * units.day);
            &&& o.start == now + wait
            &&& o.end == now + wait + length
            &&& o.cliff == o.start
            &&& o.deposit == length * units.one
        }),
{
    let ten = (10 * units.day) as u64;
    let five = (5 * units.day) as u64;
    assert(ten == 10 * units.day && five == 5 * units.day);
    draws_come_from_the_state(x, ten);
    draws_come_from_the_state(next_state(x), five);
    let length = units.day + output(next_state(x)) as int % (5 * units.day);
    assert(0 <= length * units.one <= i128::MAX) by (nonlinear_arith)
        requires
            0 <= length <= 6_000_000_000,
            0 < units.one <= 1_000_000_000_000_000_000,
    ;
}

/// A sequence opens a stream, then operates and lets time pass in turn, once for each step, until
/// all steps are done or there is no stream.
pub proof fn sequences_take_turns(s: Sequence, now: u64, count: u64, units: Units)
    requires
        units.fit(),
    ensures
        ({
            let (action, next) = next_move(s, now, count, units);
            &&& next.steps == s.steps
            &&& s.phase is Opening ==> action is Create && next.phase is Operating && next.step == s.step
            &&& s.phase is Operating && s.step < s.steps && count > 0 ==> action is Operate
                && next.phase is Advancing && next.step == s.step + 1
            &&& s.phase is Operating && (s.step >= s.steps || count == 0) ==> action is Finish
                && next.phase is Finished && next.step == s.step
            &&& s.phase is Advancing ==> action is Advance && next.phase is Operating && next.step
                == s.step
            &&& s.phase is Finished ==> action is Finish && next == s
        }),
{
}

/// What a sequence does is drawn from its generator, one draw after the other, none used twice.
pub proof fn sequences_use_each_draw_once(s: Sequence, now: u64, count: u64, units: Units)
    requires
        units.fit(),
        count > 0,
    ensures
        ({
            let x = s.rng.0;
            let (action, next) = next_move(s, now, count, units);
            &&& s.phase is Opening ==> next.rng.0 == next_state(next_state(x))
            &&& s.phase is Operating && s.step < s.steps ==> action == Action::Operate(
                (output(x) % count) as u64,
                chosen_operation(next_state(x), units),
            )
            &&& s.phase is Advancing ==> action == Action::Advance(
                (1 + output(x) as int % (20 * units.day)) as u64,
            ) && next.rng.0 == next_state(x)
            &&& s.phase is Operating && s.step < s.steps ==> {
                let kind = output(next_state(x)) % 10;
                let y = next_state(next_state(x));
                next.rng.0 == (if kind < 4 && output(y) % 2 == 1 {
                    next_state(next_state(y))
                } else if kind < 4 || kind == 7 || kind == 8 {
                    next_state(y)
                } else {
                    y
                })
            }
        }),
{
    let twenty = (20 * units.day) as u64;
    assert(twenty == 20 * units.day);
    draws_come_from_the_state(s.rng.0, twenty);
}

/// What is owed is what was deposited and not withdrawn, over the streams in the token, and over
/// those alone. It does not matter in which order they stand.
pub proof fn debts_add_up(a: Seq<StreamModel>, s: StreamModel, b: Seq<StreamModel>, token: Seq<char>)
    ensures
        owed(Seq::empty(), token) == 0,
        owed(a + seq![s] + b, token) == owed(a, token) + owed(b, token) + (if s.token == token {
            s.deposited - s.withdrawn
        } else {
            0
        }),
    decreases b.len(),
{
    let all = a + seq![s] + b;
    if b.len() == 0 {
        assert(all =~= a.push(s));
        assert(a.push(s).drop_last() =~= a);
    } else {
        debts_add_up(a, s, b.drop_last(), token);
        assert(all.drop_last() =~= a + seq![s] + b.drop_last());
        assert(all.last() == b.last());
    }
}

/// The vesting of a stream is kept exactly if the stream is still there and no less is vested: equal
/// amounts are kept.
pub proof fn vesting_may_only_grow(before: Seq<i128>, after: Seq<i128>, i: int)
    requires
        0 <= i < before.len(),
    ensures
        vested_kept(before, after, i) <==> !(after.len() <= i || after[i] < before[i]),
        vested_kept(before, before, i),
{
}

/// What is said of a pool that does not hold what is owed names seed, step and both amounts.
pub proof fn shortfalls_are_told(seed: u64, step: u32, pool: int, total: int)
    ensures
        conservation_problem(seed, step, pool, total) == "seed "@ + decimal(seed as nat) + ", step "@
            + decimal(step as nat) + ": liability conservation violated: pool "@ + signed_decimal(pool)
            + " != total liability "@ + signed_decimal(total),
{
}

/// An id may follow the ids before it exactly if it is greater than each of them.
pub proof fn ids_must_grow(seen: Seq<u64>, id: u64)
    requires
        strictly_increasing(seen),
    ensures
        id_problem(seen, id) is None <==> forall|i: int| 0 <= i < seen.len() ==> #[trigger] seen[i] < id,
        strictly_increasing(seen) <==> forall|i: int, j: int|
            #![trigger seen[i], seen[j]]
            0 <= i < j < seen.len() ==> seen[i] < seen[j],
{
    if id_problem(seen, id) is None {
        assert forall|i: int| 0 <= i < seen.len() implies #[trigger] seen[i] < id by {
            if i < seen.len() - 1 {
                assert(seen[i] < seen[seen.len() - 1]);
            }
        }
    } else if forall|i: int| 0 <= i < seen.len() ==> #[trigger] seen[i] < id {
        if seen.contains(id) {
            let i = choose|i: int| 0 <= i < seen.len() && seen[i] == id;
            assert(seen[i] < id);
        }
        if seen.len() > 0 {
            assert(seen[seen.len() - 1] < id);
        }
    }
}

/// What is wrong with an id is told: that it was handed out before, with all ids so far, or that it
/// is not greater than the last.
pub proof fn bad_ids_are_told(seen: Seq<u64>, id: u64)
    ensures
        seen.contains(id) ==> id_problem(seen, id) == Some(
            "id "@ + decimal(id as nat) + " was handed out twice; already have "@ + ("["@ + joined(
                seen.map_values(|n: u64| decimal(n as nat)),
                ", "@,
            ) + "]"@),
        ),
        !seen.contains(id) && seen.len() > 0 && id <= seen[seen.len() - 1] ==> id_problem(seen, id)
            == Some(
            "id "@ + decimal(id as nat)
                + " is not strictly greater than the previously issued id "@ + decimal(
                seen[seen.len() - 1] as nat,
            ),
        ),
        !seen.contains(id) && (seen.len() == 0 || seen[seen.len() - 1] < id) ==> id_problem(
            seen,
            id,
        ) is None,
{
    assert(seen.map_values(|n: u64| decimal(n as nat)) =~= seen.map_values(
        |id: u64| decimal(id as nat),
    ));
}

/// A ledger is in order exactly if its ids are all the numbers below the count, in order, and each
/// of these streams exists.
pub proof fn ledgers_are_in_order_exactly_if(seen: Seq<u64>, count: u64, exists_at: Seq<bool>)
    requires
        exists_at.len() >= count,
    ensures
        ledger_problem(seen, count, exists_at) is None <==> {
            &&& seen.len() == count
            &&& forall|i: int| 0 <= i < count ==> #[trigger] seen[i] == i
            &&& forall|i: int| 0 <= i < count ==> #[trigger] exists_at[i]
        },
        seen.len() != count ==> ledger_problem(seen, count, exists_at) == Some(
            "stream_count() disagrees with the number of successful creates"@,
        ),
        seen.len() == count && (exists|i: int| 0 <= i < count && #[trigger] seen[i] != i)
            ==> ledger_problem(seen, count, exists_at) == Some(
            "ids must run 0..stream_count() with no gaps"@,
        ),
{
    lemma_existence(0, count as int, exists_at);
}

/// Existence is found wanting exactly where a stream does not exist.
proof fn lemma_existence(from: int, count: int, exists_at: Seq<bool>)
    requires
        0 <= from,
        count <= exists_at.len(),
    ensures
        existence_problem(from, count, exists_at) is None <==> forall|i: int|
            from <= i < count ==> #[trigger] exists_at[i],
    decreases count - from,
{
    if from < count {
        lemma_existence(from + 1, count, exists_at);
        if exists_at[from] && existence_problem(from + 1, count, exists_at) is None {
            assert forall|i: int| from <= i < count implies #[trigger] exists_at[i] by {
                if i > from {
                    assert(exists_at[i]);
                }
            }
        }
    }
}

/// The first id that should exist and does not is named.
pub proof fn first_gap_is_named(from: int, count: int, exists_at: Seq<bool>, at: int)
    requires
        0 <= from <= at < count,
        count <= exists_at.len(),
        forall|i: int| from <= i < at ==> #[trigger] exists_at[i],
        !exists_at[at],
    ensures
        existence_problem(from, count, exists_at) == Some("id "@ + decimal(at as nat) + " should exist"@),
    decreases at - from,
{
    if from < at {
        assert(exists_at[from]);
        first_gap_is_named(from + 1, count, exists_at, at);
    }
}

/// A plain request runs from its start for its duration, has no cliff, and all capabilities; the
/// parties, the token and the deposit are as given.
pub proof fn plain_requests_are_plain(
    sender: Seq<char>,
    recipient: Seq<char>,
    token: Seq<char>,
    deposit: int,
    start: int,
    duration: int,
)
    ensures
        ({
            let r = simple_request(sender, recipient, token, deposit, start, duration);
            &&& r.sender == sender && r.recipient == recipient && r.token == token
            &&& r.deposit == deposit && r.start == start && r.end - r.start == duration
            &&& r.cliff == start
            &&& r.cancellable && r.pausable && r.transferable
        }),
{
}

/// A claim adds up exactly if vested and refundable make the deposit, and withdrawn and
/// withdrawable make what is vested.
pub proof fn claims_add_up_exactly_if(c: Claim)
    ensures
        c.adds_up() <==> c.deposited == c.vested + c.refundable && c.vested == c.withdrawn
            + c.withdrawable,
{
}

/// The token that allows one real transfer lets every transfer of nothing through and remembers
/// what it knew. Of the real ones, of any sign, it lets through the first.
pub proof fn one_transfer_is_let_through(used: bool, amount: i128)
    ensures
        amount == 0 ==> once_allowed(used, amount) == Some(used),
        amount != 0 && !used ==> once_allowed(used, amount) == Some(true),
        amount != 0 && used ==> once_allowed(used, amount) is None,
{
}

/// Each event with exactly that first topic counts once, and no other counts.
pub proof fn topics_are_counted_one_by_one(
    a: Seq<Option<Seq<char>>>,
    e: Option<Seq<char>>,
    b: Seq<Option<Seq<char>>>,
    topic: Seq<char>,
)
    ensures
        topic_count(Seq::empty(), topic) == 0,
        topic_count(a + seq![e] + b, topic) == topic_count(a, topic) + topic_count(b, topic) + (if e
            == Some(topic) {
            1nat
        } else {
            0
        }),
    decreases b.len(),
{
    let all = a + seq![e] + b;
    if b.len() == 0 {
        assert(all =~= a.push(e));
        assert(a.push(e).drop_last() =~= a);
    } else {
        topics_are_counted_one_by_one(a, e, b.drop_last(), topic);
        assert(all.drop_last() =~= a + seq![e] + b.drop_last());
        assert(all.last() == b.last());
    }
}

} // verus!
