//! Generated sequences of stream operations, and the conservation of liabilities under them.
//!
//! From a seed comes a bounded sequence of operations, the same each time: withdraw, pause,
//! resume, cancel, top up, transfer, extend. After every operation the pool must hold exactly what
//! the contract still owes.
use crate::stream::{StreamModel, StreamState};
use crate::text::{
    decimal, decimal_text, parse_u64, parsed_u64, same_text, signed_decimal, signed_decimal_text,
    two,
};
use vstd::prelude::*;

verus! {

/// The factor that the output of the generator is multiplied with.
pub const MULTIPLIER: u64 = 0x2545_F491_4F6C_DD1D;

/// A xorshift64* generator of pseudo-random numbers: the same seed gives the same numbers.
#[derive(Clone, Copy, Debug, PartialEq, Eq)]
pub struct Rng(pub u64);

/// The state after the state `x`.
pub open spec fn next_state(x: u64) -> u64 {
    let a = x ^ (x >> 12);
    let b = a ^ (a << 25);
    b ^ (b >> 27)
}

/// The number that the generator gives in the state `x`.
pub open spec fn output(x: u64) -> u64 {
    ((next_state(x) * MULTIPLIER) % 0x1_0000_0000_0000_0000) as u64
}

/// The number below `n` that the generator gives in the state `x`.
pub open spec fn output_below(x: u64, n: u64) -> u64 {
    output(x) % n
}

impl Rng {
    /// The next number.
    pub fn next(&mut self) -> (r: u64)
        ensures
            final(self).0 == next_state(old(self).0),
            r == output(old(self).0),
    {
        let mut x: u64 = self.0;
        x = x ^ (x >> 12);
        x = x ^ (x << 25);
        x = x ^ (x >> 27);
        self.0 = x;
        x.wrapping_mul(MULTIPLIER)
    }

    /// The next number, brought below `n`.
    pub fn below(&mut self, n: u64) -> (r: u64)
        requires
            n > 0,
        ensures
            final(self).0 == next_state(old(self).0),
            r == output_below(old(self).0, n),
            r < n,
    {
        self.next() % n
    }
}

/// The generator never gets stuck: a state other than zero is followed by one other than zero.
pub proof fn state_stays_nonzero(x: u64)
    requires
        x != 0,
    ensures
        next_state(x) != 0,
{
    let a = x ^ (x >> 12);
    let b = a ^ (a << 25);
    assert(x != 0 ==> (x ^ (x >> 12)) != 0) by (bit_vector);
    assert(a != 0 ==> (a ^ (a << 25)) != 0) by (bit_vector);
    assert(b != 0 ==> (b ^ (b >> 27)) != 0) by (bit_vector);
}

/// Different states are followed by different states, so that sequences from different seeds do
/// not run into each other.
pub proof fn states_stay_apart(x: u64, y: u64)
    requires
        x != y,
    ensures
        next_state(x) != next_state(y),
{
    let a = x ^ (x >> 12);
    let b = a ^ (a << 25);
    let c = y ^ (y >> 12);
    let d = c ^ (c << 25);
    assert(x != y ==> (x ^ (x >> 12)) != (y ^ (y >> 12))) by (bit_vector);
    assert(a != c ==> (a ^ (a << 25)) != (c ^ (c << 25))) by (bit_vector);
    assert(b != d ==> (b ^ (b >> 27)) != (d ^ (d >> 27))) by (bit_vector);
}

/// The units in which times and amounts are chosen: the seconds of a day, and one whole token in
/// its smallest part.
#[derive(Clone, Copy, Debug, PartialEq, Eq)]
pub struct Units {
    pub day: u64,
    pub one: i128,
}

impl Units {
    /// Times and amounts in these units fit into the machine's numbers.
    pub open spec fn fit(self) -> bool {
        0 < self.day <= 1_000_000_000 && 0 < self.one <= 1_000_000_000_000_000_000
    }
}

/// The schedule and deposit of the stream that a sequence starts with.
#[derive(Clone, Copy, Debug, PartialEq, Eq)]
pub struct Opening {
    pub deposit: i128,
    pub start: u64,
    pub end: u64,
    pub cliff: u64,
}

/// What is done to a stream.
#[derive(Clone, Copy, Debug, PartialEq, Eq)]
pub enum Operation {
    /// Withdraw this amount, or all there is.
    Withdraw(Option<i128>),
    Pause,
    Resume,
    Cancel,
    TopUp(i128),
    /// Transfer the claim to the other party, or back to the first recipient.
    Transfer { to_other: bool },
    ExtendTtl,
}

/// What the world is to do next.
#[derive(Clone, Copy, Debug, PartialEq, Eq)]
pub enum Action {
    /// Create the stream that the sequence starts with.
    Create(Opening),
    /// Do this to the stream with this id; its failure is no fault.
    Operate(u64, Operation),
    /// Let this many seconds pass.
    Advance(u64),
    /// Nothing more.
    Finish,
}

/// Where a sequence stands.
#[derive(Clone, Copy, Debug, PartialEq, Eq)]
pub enum Phase {
    Opening,
    Operating,
    Advancing,
    Finished,
}

/// A generated sequence of operations, between two of them.
#[derive(Clone, Copy, Debug, PartialEq, Eq)]
pub struct Sequence {
    pub rng: Rng,
    pub steps: u32,
    pub step: u32,
    pub phase: Phase,
}

/// The opening that is chosen at the time `now`, in the state `x`.
pub open spec fn chosen_opening(x: u64, now: u64, units: Units) -> Opening {
    let start = (now + output_below(x, (10 * units.day) as u64)) as u64;
    let duration = (units.day + output_below(next_state(x), (5 * units.day) as u64)) as u64;
    Opening {
        deposit: (duration * units.one) as i128,
        start,
        end: (start + duration) as u64,
        cliff: start,
    }
}

/// The operation that is chosen in the state `x`.
pub open spec fn chosen_operation(x: u64, units: Units) -> Operation {
    let y = next_state(x);
    let kind = output_below(x, 10);
    if kind <= 3 {
        if output_below(y, 2) == 0 {
            Operation::Withdraw(None)
        } else {
            Operation::Withdraw(
                Some(((1 + output_below(next_state(y), 100)) * units.one) as i128),
            )
        }
    } else if kind == 4 {
        Operation::Pause
    } else if kind == 5 {
        Operation::Resume
    } else if kind == 6 {
        Operation::Cancel
    } else if kind == 7 {
        Operation::TopUp(((1 + output_below(y, 5)) * units.one) as i128)
    } else if kind == 8 {
        Operation::Transfer { to_other: output_below(y, 2) == 0 }
    } else {
        Operation::ExtendTtl
    }
}

/// The state after an operation was chosen in the state `x`.
pub open spec fn state_after_operation(x: u64) -> u64 {
    let y = next_state(x);
    let kind = output_below(x, 10);
    if kind <= 3 {
        if output_below(y, 2) == 0 {
            next_state(y)
        } else {
            next_state(next_state(y))
        }
    } else if kind == 7 || kind == 8 {
        next_state(y)
    } else {
        y
    }
}

/// The next action of a sequence, and where the sequence stands then, given the time and the
/// number of streams.
pub open spec fn next_move(s: Sequence, now: u64, count: u64, units: Units) -> (Action, Sequence) {
    let x = s.rng.0;
    match s.phase {
        Phase::Opening => (
            Action::Create(chosen_opening(x, now, units)),
            Sequence { rng: Rng(next_state(next_state(x))), phase: Phase::Operating, ..s },
        ),
        Phase::Operating => if s.step >= s.steps || count == 0 {
            (Action::Finish, Sequence { phase: Phase::Finished, ..s })
        } else {
            (
                Action::Operate(output_below(x, count), chosen_operation(next_state(x), units)),
                Sequence {
                    rng: Rng(state_after_operation(next_state(x))),
                    step: (s.step + 1) as u32,
                    phase: Phase::Advancing,
                    ..s
                },
            )
        },
        Phase::Advancing => (
            Action::Advance((1 + output_below(x, (20 * units.day) as u64)) as u64),
            Sequence { rng: Rng(next_state(x)), phase: Phase::Operating, ..s },
        ),
        Phase::Finished => (Action::Finish, s),
    }
}

/// How many actions are still to come at most, but for the last.
pub open spec fn actions_left(s: Sequence) -> int {
    let rest = if s.step >= s.steps {
        0
    } else {
        2 * (s.steps - s.step)
    };
    match s.phase {
        Phase::Opening => rest + 2,
        Phase::Operating => rest + 1,
        Phase::Advancing => rest + 2,
        Phase::Finished => 0,
    }
}

impl Rng {
    /// The opening that is chosen at the time `now`.
    fn choose_opening(&mut self, now: u64, units: Units) -> (r: Opening)
        requires
            units.fit(),
            now + 20 * units.day <= u64::MAX,
        ensures
            r == chosen_opening(old(self).0, now, units),
            final(self).0 == next_state(next_state(old(self).0)),
    {
        let start: u64 = now + self.below(10 * units.day);
        let duration: u64 = units.day + self.below(5 * units.day);
        proof {
            lemma_amount(duration as int, units);
        }
        Opening {
            deposit: duration as i128 * units.one,
            start,
            end: start + duration,
            cliff: start,
        }
    }

    /// The operation that is chosen.
    fn choose_operation(&mut self, units: Units) -> (r: Operation)
        requires
            units.fit(),
        ensures
            r == chosen_operation(old(self).0, units),
            final(self).0 == state_after_operation(old(self).0),
    {
        let kind: u64 = self.below(10);
        if kind <= 3 {
            if self.below(2) == 0 {
                Operation::Withdraw(None)
            } else {
                let parts: u64 = 1 + self.below(100);
                proof {
                    lemma_amount(parts as int, units);
                }
                Operation::Withdraw(Some(parts as i128 * units.one))
            }
        } else if kind == 4 {
            Operation::Pause
        } else if kind == 5 {
            Operation::Resume
        } else if kind == 6 {
            Operation::Cancel
        } else if kind == 7 {
            let parts: u64 = 1 + self.below(5);
            proof {
                lemma_amount(parts as int, units);
            }
            Operation::TopUp(parts as i128 * units.one)
        } else if kind == 8 {
            Operation::Transfer { to_other: self.below(2) == 0 }
        } else {
            Operation::ExtendTtl
        }
    }
}

/// So many whole tokens fit into an amount.
proof fn lemma_amount(parts: int, units: Units)
    requires
        units.fit(),
        0 <= parts <= 6_000_000_000,
    ensures
        0 <= parts * units.one <= i128::MAX,
        parts <= parts * units.one,
{
    assert(0 <= parts * units.one <= 6_000_000_000 * 1_000_000_000_000_000_000 && parts <= parts
        * units.one) by (nonlinear_arith)
        requires
            0 <= parts <= 6_000_000_000,
            0 < units.one <= 1_000_000_000_000_000_000,
    ;
}

impl Sequence {
    /// The sequence of at most `steps` operations that comes from a seed.
    pub fn new(seed: u64, steps: u32) -> (r: Sequence)
        ensures
            r == (Sequence { rng: Rng(seed), steps, step: 0, phase: Phase::Opening }),
    {
        Sequence { rng: Rng(seed), steps, step: 0, phase: Phase::Opening }
    }

    /// What the world is to do next, given the time and the number of streams.
    pub fn next_action(&mut self, now: u64, count: u64, units: Units) -> (r: Action)
        requires
            units.fit(),
            old(self).phase == Phase::Opening ==> now + 20 * units.day <= u64::MAX,
        ensures
            (r, *final(self)) == next_move(*old(self), now, count, units),
    {
        match self.phase {
            Phase::Opening => {
                self.phase = Phase::Operating;
                Action::Create(self.rng.choose_opening(now, units))
            },
            Phase::Operating => {
                if self.step >= self.steps || count == 0 {
                    self.phase = Phase::Finished;
                    return Action::Finish;
                }
                let id: u64 = self.rng.below(count);
                let operation = self.rng.choose_operation(units);
                self.step = self.step + 1;
                self.phase = Phase::Advancing;
                Action::Operate(id, operation)
            },
            Phase::Advancing => {
                self.phase = Phase::Operating;
                Action::Advance(1 + self.rng.below(20 * units.day))
            },
            Phase::Finished => Action::Finish,
        }
    }
}

/// A sequence is bounded: each action brings its end nearer, and it finishes exactly where no
/// action is left.
pub proof fn sequence_is_bounded(s: Sequence, now: u64, count: u64, units: Units)
    ensures
        actions_left(s) >= 0,
        actions_left(s) == 0 <==> s.phase is Finished,
        s.phase !is Finished ==> actions_left(next_move(s, now, count, units).1) < actions_left(s),
        next_move(s, now, count, units).0 is Finish <==> next_move(
            s,
            now,
            count,
            units,
        ).1.phase is Finished,
{
}

/// What a sequence does is always within bounds: the stream that it opens is one that the contract
/// accepts, operations go to streams that exist, amounts are positive, and time moves on.
pub proof fn actions_are_in_bounds(s: Sequence, now: u64, count: u64, units: Units)
    requires
        units.fit(),
        now + 20 * units.day <= u64::MAX,
    ensures
        match next_move(s, now, count, units).0 {
            Action::Create(o) => {
                &&& now <= o.start < now + 10 * units.day
                &&& o.cliff == o.start
                &&& units.day <= o.end - o.start < 6 * units.day
                &&& o.deposit == (o.end - o.start) * units.one
                &&& o.deposit >= o.end - o.start
            },
            Action::Operate(id, operation) => {
                &&& id < count
                &&& match operation {
                    Operation::Withdraw(Some(amount)) => units.one <= amount <= 100 * units.one,
                    Operation::TopUp(amount) => units.one <= amount <= 5 * units.one,
                    _ => true,
                }
            },
            Action::Advance(seconds) => 1 <= seconds <= 20 * units.day,
            Action::Finish => true,
        },
{
    let x = s.rng.0;
    match s.phase {
        Phase::Opening => {
            let duration = units.day + output_below(next_state(x), (5 * units.day) as u64);
            lemma_amount(duration as int, units);
        },
        Phase::Operating => {
            if s.step < s.steps && count != 0 {
                let z = next_state(x);
                let y = next_state(z);
                let parts = 1 + output_below(next_state(y), 100);
                let few = 1 + output_below(y, 5);
                lemma_amount(parts as int, units);
                lemma_amount(few as int, units);
                assert(units.one <= parts * units.one <= 100 * units.one) by (nonlinear_arith)
                    requires
                        1 <= parts <= 100,
                        units.one > 0,
                ;
                assert(units.one <= few * units.one <= 5 * units.one) by (nonlinear_arith)
                    requires
                        1 <= few <= 5,
                        units.one > 0,
                ;
            }
        },
        _ => {},
    }
}

/// How many sequences are run: the number that the environment gives, or the default where it
/// gives none that can be read.
pub fn test_case_count(value: Option<&str>, default: u64) -> (r: u64)
    ensures
        r == match value {
            Some(text) => match parsed_u64(text@) {
                Some(n) => n,
                None => default,
            },
            None => default,
        },
{
    match value {
        Some(text) => match parse_u64(text) {
            Some(n) => n,
            None => default,
        },
        None => default,
    }
}

/// What the contract owes on the streams in the token.
pub open spec fn owed(streams: Seq<StreamModel>, token: Seq<char>) -> int
    decreases streams.len(),
{
    if streams.len() == 0 {
        0
    } else {
        let rest = owed(streams.drop_last(), token);
        if streams.last().token == token {
            rest + streams.last().deposited - streams.last().withdrawn
        } else {
            rest
        }
    }
}

/// What is owed on each stream in the token, and on all up to each of them, fits into an amount.
pub open spec fn amounts_fit(streams: Seq<StreamModel>, token: Seq<char>) -> bool {
    &&& forall|i: int|
        0 <= i < streams.len() && (#[trigger] streams[i]).token == token ==> i128::MIN
            <= streams[i].deposited - streams[i].withdrawn <= i128::MAX
    &&& forall|i: int|
        0 <= i <= streams.len() ==> i128::MIN <= owed(#[trigger] streams.take(i), token)
            <= i128::MAX
}

/// The stream `i` is still there, with no less vested than before.
pub open spec fn vested_kept(before: Seq<i128>, after: Seq<i128>, i: int) -> bool {
    i < after.len() && before[i] <= after[i]
}

/// The first stream that is gone, or of which less is vested than before. Streams that are new
/// since are free to have anything vested.
pub fn check_no_vested_regression(before: &[i128], after: &[i128]) -> (r: Option<usize>)
    ensures
        match r {
            None => forall|i: int|
                0 <= i < before@.len() ==> #[trigger] vested_kept(before@, after@, i),
            Some(k) => {
                &&& k < before@.len()
                &&& !vested_kept(before@, after@, k as int)
                &&& forall|i: int| 0 <= i < k ==> #[trigger] vested_kept(before@, after@, i)
            },
        },
{
    for i in 0..before.len()
        invariant
            forall|j: int| 0 <= j < i ==> #[trigger] vested_kept(before@, after@, j),
    {
        if i >= after.len() || after[i] < before[i] {
            return Some(i);
        }
    }
    None
}

/// What is said of a pool that does not hold what is owed.
pub open spec fn conservation_problem(seed: u64, step: u32, pool: int, total: int) -> Seq<char> {
    "seed "@ + decimal(seed as nat) + ", step "@ + decimal(step as nat)
        + ": liability conservation violated: pool "@ + signed_decimal(pool)
        + " != total liability "@ + signed_decimal(total)
}

/// The values of a list of streams.
pub open spec fn stream_models(list: Seq<StreamState>) -> Seq<StreamModel> {
    list.map_values(|s: StreamState| s@)
}

/// Checks that the pool holds exactly what the contract owes in the token.
pub fn check_liability_conservation(
    streams: &[StreamState],
    token: &str,
    pool: i128,
    seed: u64,
    step: u32,
) -> (r: Result<(), String>)
    requires
        amounts_fit(stream_models(streams@), token@),
    ensures
        match r {
            Ok(()) => pool == owed(stream_models(streams@), token@),
            Err(text) => pool != owed(stream_models(streams@), token@) && text@
                == conservation_problem(
                seed,
                step,
                pool as int,
                owed(stream_models(streams@), token@),
            ),
        },
{
    let ghost all = stream_models(streams@);
    let mut total: i128 = 0;
    assert(all.take(0) =~= Seq::empty());
    for i in 0..streams.len()
        invariant
            all == stream_models(streams@),
            amounts_fit(all, token@),
            total == owed(all.take(i as int), token@),
    {
        assert(all[i as int] == streams@[i as int]@);
        assert(all.take(i + 1).drop_last() == all.take(i as int));
        assert(i128::MIN <= owed(all.take(i + 1), token@) <= i128::MAX);
        if same_text(&streams[i].token, token) {
            let liability: i128 = streams[i].deposited - streams[i].withdrawn;
            total = total + liability;
        }
    }
    assert(all.take(all.len() as int) == all);
    if pool == total {
        return Ok(());
    }
    let mut text = two("seed ", &decimal_text(seed as u128));
    text.append(", step ");
    text.append(&decimal_text(step as u128));
    text.append(": liability conservation violated: pool ");
    text.append(&signed_decimal_text(pool));
    text.append(" != total liability ");
    text.append(&signed_decimal_text(total));
    assert(text@ =~= conservation_problem(seed, step, pool as int, total as int));
    Err(text)
}

} // verus!
