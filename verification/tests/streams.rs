use fluxora_provenance::authority::{
    check_step, AuthAction, AuthSnapshot, CallArg, CallerRole, Parties, StepFault,
};
use fluxora_provenance::lifecycle::{
    check_liability_conservation, check_no_vested_regression, test_case_count, Action, Opening, Operation, Phase, Rng,
    Sequence, Units,
};
use fluxora_provenance::stream::{
    claim_holds, only_recipient_changed, Claim, StreamState, StreamStatus,
};
use fluxora_provenance::stream_ids::{
    self_stream_request, unaffordable_request, CreateRequest, IdLedger,
};
use fluxora_provenance::token_stubs::{always_refusing_accepts, count_topic, once_transfer};

const ONE: i128 = 10_000_000;
const DAY: u64 = 86_400;
const YEAR: u64 = 365 * DAY;
const T0: u64 = 1_700_000_000;
const UNITS: Units = Units { day: DAY, one: ONE };

const INVALID_TIME_RANGE: u32 = 2;
const INVALID_CLIFF: u32 = 3;
const INVALID_DEPOSIT: u32 = 4;
const DEPOSIT_RATE_TOO_LOW: u32 = 5;
const SELF_STREAM: u32 = 6;
const STREAM_TERMINATED: u32 = 14;
const INVALID_AMOUNT: u32 = 18;
const OVERFLOW: u32 = 22;
const TRANSFER_FAILED: u32 = 24;

/// A stand-in for the stream contract and its token: linear vesting, pauses, refunds.
struct World {
    now: u64,
    balance: i128,
    pool: i128,
    streams: Vec<StreamState>,
}

impl World {
    fn new() -> World {
        World {
            now: T0,
            balance: 1_000_000_000 * ONE,
            pool: 0,
            streams: Vec::new(),
        }
    }

    fn count(&self) -> u64 {
        self.streams.len() as u64
    }

    fn exists_at(&self) -> Vec<bool> {
        self.streams.iter().map(|_| true).collect()
    }

    fn advance(&mut self, seconds: u64) {
        self.now += seconds;
    }

    fn create(&mut self, r: &CreateRequest) -> Result<u64, u32> {
        if r.sender == r.recipient {
            return Err(SELF_STREAM);
        }
        if r.deposit <= 0 {
            return Err(INVALID_DEPOSIT);
        }
        if r.start >= r.end {
            return Err(INVALID_TIME_RANGE);
        }
        if r.cliff < r.start || r.cliff > r.end {
            return Err(INVALID_CLIFF);
        }
        let duration = (r.end - r.start) as i128;
        if r.deposit < duration {
            return Err(DEPOSIT_RATE_TOO_LOW);
        }
        if r.deposit.checked_mul(duration).is_none() {
            return Err(OVERFLOW);
        }
        let id = self.count();
        if r.deposit > self.balance {
            return Err(TRANSFER_FAILED);
        }
        self.balance -= r.deposit;
        self.pool += r.deposit;
        self.streams.push(StreamState {
            sender: r.sender.clone(),
            recipient: r.recipient.clone(),
            token: r.token.clone(),
            deposited: r.deposit,
            withdrawn: 0,
            start_time: r.start,
            end_time: r.end,
            cliff_time: r.cliff,
            cancellable: r.cancellable,
            pausable: r.pausable,
            transferable: r.transferable,
            status: StreamStatus::Active,
            paused_at: None,
            paused_total: 0,
        });
        Ok(id)
    }

    fn simple(&self, deposit: i128, duration: u64) -> CreateRequest {
        CreateRequest {
            sender: "sender".into(),
            recipient: "recipient".into(),
            token: "token".into(),
            deposit,
            start: self.now,
            end: self.now + duration,
            cliff: self.now,
            cancellable: true,
            pausable: true,
            transferable: true,
        }
    }

    fn create_simple(&mut self, deposit: i128, duration: u64) -> u64 {
        let request = self.simple(deposit, duration);
        self.create(&request).unwrap()
    }

    fn vested(&self, id: u64) -> i128 {
        let s = &self.streams[id as usize];
        let clock = s.paused_at.unwrap_or(self.now) - s.paused_total;
        if s.status == StreamStatus::Cancelled || s.status == StreamStatus::Depleted {
            return s.deposited;
        }
        if clock <= s.start_time {
            0
        } else if clock >= s.end_time {
            s.deposited
        } else {
            s.deposited * (clock - s.start_time) as i128 / (s.end_time - s.start_time) as i128
        }
    }

    fn vested_snapshot(&self) -> Vec<i128> {
        (0..self.count()).map(|id| self.vested(id)).collect()
    }

    fn terminated(&self, id: u64) -> bool {
        let s = &self.streams[id as usize];
        s.status == StreamStatus::Depleted
            || (s.status == StreamStatus::Cancelled && s.withdrawn == s.deposited)
    }

    fn operate(&mut self, id: u64, operation: Operation) -> Result<(), u32> {
        let vested = self.vested(id);
        let terminated = self.terminated(id);
        let now = self.now;
        let s = &mut self.streams[id as usize];
        match operation {
            Operation::Withdraw(amount) => {
                let available = vested - s.withdrawn;
                let amount = amount.unwrap_or(available);
                if amount <= 0 || amount > available {
                    return Err(INVALID_AMOUNT);
                }
                s.withdrawn += amount;
                self.pool -= amount;
                if s.withdrawn == s.deposited {
                    s.status = StreamStatus::Depleted;
                }
            }
            Operation::Pause => {
                if s.status != StreamStatus::Active {
                    return Err(STREAM_TERMINATED);
                }
                s.status = StreamStatus::Paused;
                s.paused_at = Some(now);
            }
            Operation::Resume => {
                let Some(since) = s.paused_at else {
                    return Err(STREAM_TERMINATED);
                };
                s.status = StreamStatus::Active;
                s.paused_total += now - since;
                s.paused_at = None;
            }
            Operation::Cancel => {
                if s.status == StreamStatus::Cancelled || s.status == StreamStatus::Depleted {
                    return Err(STREAM_TERMINATED);
                }
                let refund = s.deposited - vested;
                self.pool -= refund;
                self.balance += refund;
                s.deposited = vested;
                s.status = StreamStatus::Cancelled;
                s.paused_at = None;
            }
            Operation::TopUp(amount) => {
                if amount <= 0 {
                    return Err(INVALID_AMOUNT);
                }
                if s.status == StreamStatus::Cancelled || s.status == StreamStatus::Depleted {
                    return Err(STREAM_TERMINATED);
                }
                let length = (s.end_time - s.start_time) as i128;
                s.end_time += (amount * length / s.deposited) as u64;
                s.deposited += amount;
                self.balance -= amount;
                self.pool += amount;
            }
            Operation::Transfer { to_other } => {
                let to = if to_other { "other" } else { "recipient" };
                if terminated {
                    return Err(STREAM_TERMINATED);
                }
                s.recipient = to.to_string();
            }
            Operation::ExtendTtl => {}
        }
        Ok(())
    }

    fn check(&self, seed: u64, step: u32) {
        check_liability_conservation(&self.streams, "token", self.pool, seed, step).unwrap();
    }
}

// ---------------------------------------------------------------------------
// Generated sequences
// ---------------------------------------------------------------------------

fn run_lifecycle_sequence(seed: u64, steps: u32) -> Vec<Action> {
    let mut world = World::new();
    let mut sequence = Sequence::new(seed, steps);
    let mut actions = Vec::new();
    loop {
        let action = sequence.next_action(world.now, world.count(), UNITS);
        actions.push(action);
        match action {
            Action::Create(o) => {
                let mut request = world.simple(o.deposit, 1);
                request.start = o.start;
                request.end = o.end;
                request.cliff = o.cliff;
                world.create(&request).unwrap();
            }
            Action::Operate(id, operation) => {
                let before = world.vested_snapshot();
                let _ = world.operate(id, operation);
                let lost = check_no_vested_regression(&before, &world.vested_snapshot());
                assert_eq!(lost, None, "seed {seed}, step {}", sequence.step);
            }
            Action::Advance(seconds) => world.advance(seconds),
            Action::Finish => return actions,
        }
        world.check(seed, sequence.step);
    }
}

#[test]
fn liability_conservation_holds_across_lifecycle_sequences() {
    let cases = test_case_count(None, 256);
    let steps = 50;

    for i in 0..cases {
        // Use a deterministic seed that varies with the case number
        let seed = 0x9E37_79B9_7F4A_7C15u64.wrapping_add(i);
        run_lifecycle_sequence(seed, steps);
    }
}

#[test]
fn liability_conservation_holds_across_long_lifecycle_sequences() {
    let cases = test_case_count(None, 8);
    let steps = 150;

    for i in 0..cases {
        let seed = 0xDEAD_BEEF_u64
            .wrapping_mul(i)
            .wrapping_add(0xA24B_AED4_963E_E407);
        run_lifecycle_sequence(seed, steps);
    }
}

#[test]
fn regression_specific_seeds() {
    // No known failing seeds yet - this is a placeholder for future regressions
    // Format: run_lifecycle_sequence(seed, steps);
    // Example: run_lifecycle_sequence(0x123456789ABCDEF0, 42);
    let seeds: [(u64, u32); 0] = [];
    for (seed, steps) in seeds {
        run_lifecycle_sequence(seed, steps);
    }
}

#[test]
fn the_same_seed_gives_the_same_sequence() {
    let a = run_lifecycle_sequence(0x123456789ABCDEF0, 42);
    let b = run_lifecycle_sequence(0x123456789ABCDEF0, 42);
    assert_eq!(a, b);
    assert_ne!(a, run_lifecycle_sequence(0x123456789ABCDEF1, 42));
    // One opening, two actions for each step, and the end.
    assert_eq!(a.len(), 1 + 2 * 42 + 1);
    assert_eq!(a[a.len() - 1], Action::Finish);
}

#[test]
fn the_generator_is_xorshift64_star() {
    let mut rng = Rng(1);
    assert_eq!(rng.next(), 0x47E4_CE4B_896C_DD1D);
    assert_eq!(rng.next(), 0xABCF_A6A8_E079_651D);
    let mut rng = Rng(0x9E37_79B9_7F4A_7C15);
    for n in [1, 2, 10, 1_000_000_007, u64::MAX] {
        let mut copy = rng;
        assert_eq!(rng.below(n), copy.next() % n);
        assert_ne!(rng.0, 0);
    }
    let mut stuck = Rng(0);
    assert_eq!(stuck.next(), 0);
    assert_eq!(stuck.0, 0);
}

#[test]
fn sequences_stay_within_bounds() {
    for seed in 1..200u64 {
        let actions = run_lifecycle_sequence(seed, 20);
        let Action::Create(Opening {
            deposit,
            start,
            end,
            cliff,
        }) = actions[0]
        else {
            panic!("the first action creates a stream");
        };
        assert!(T0 <= start && start < T0 + 10 * DAY);
        assert_eq!(cliff, start);
        assert!(DAY <= end - start && end - start < 6 * DAY);
        assert_eq!(deposit, (end - start) as i128 * ONE);
        for action in &actions[1..] {
            match action {
                Action::Operate(id, Operation::Withdraw(Some(amount))) => {
                    assert_eq!(*id, 0);
                    assert!(ONE <= *amount && *amount <= 100 * ONE);
                }
                Action::Operate(_, Operation::TopUp(amount)) => {
                    assert!(ONE <= *amount && *amount <= 5 * ONE)
                }
                Action::Advance(seconds) => assert!(1 <= *seconds && *seconds <= 20 * DAY),
                _ => {}
            }
        }
    }
    // Without streams there is nothing to operate on.
    let mut sequence = Sequence::new(7, 5);
    sequence.next_action(T0, 0, UNITS);
    assert_eq!(sequence.next_action(T0, 0, UNITS), Action::Finish);
    assert_eq!(sequence.phase, Phase::Finished);
    assert_eq!(sequence.next_action(T0, 1, UNITS), Action::Finish);
}

#[test]
fn case_counts_come_from_the_environment_or_the_default() {
    assert_eq!(test_case_count(None, 8), 8);
    assert_eq!(test_case_count(Some("12"), 8), 12);
    assert_eq!(test_case_count(Some("+12"), 8), 12);
    assert_eq!(test_case_count(Some(" 12"), 8), 8);
    assert_eq!(test_case_count(Some("many"), 8), 8);
}

#[test]
fn a_pool_that_does_not_hold_what_is_owed_is_reported() {
    let mut world = World::new();
    world.create_simple(100 * ONE, DAY);
    world.create_simple(50 * ONE, DAY);
    let mut foreign = world.simple(7, 1);
    foreign.token = "another token".into();
    let pool = world.pool;
    world.create(&foreign).unwrap();
    world.pool = pool;
    world.check(1, 2);
    assert_eq!(
        check_liability_conservation(&world.streams, "token", -3, 9, 4),
        Err(
            "seed 9, step 4: liability conservation violated: pool -3 != total liability 1500000000"
                .to_string()
        )
    );
    assert_eq!(check_liability_conservation(&[], "token", 0, 0, 0), Ok(()));
    // What stands on a stream in another token does not have to fit.
    let mut odd = world.streams.pop().unwrap();
    odd.deposited = i128::MAX;
    odd.withdrawn = -1;
    assert_eq!(check_liability_conservation(&[odd], "token", 0, 0, 0), Ok(()));
}

#[test]
fn vested_funds_do_not_go_back() {
    assert_eq!(check_no_vested_regression(&[], &[]), None);
    assert_eq!(check_no_vested_regression(&[], &[5]), None);
    assert_eq!(check_no_vested_regression(&[0, 7], &[0, 7, -3]), None);
    assert_eq!(check_no_vested_regression(&[0, 7, 4], &[1, 6, 3]), Some(1));
    assert_eq!(check_no_vested_regression(&[0, 7], &[0]), Some(1));
    assert_eq!(check_no_vested_regression(&[i128::MIN], &[i128::MAX]), None);
}

// ---------------------------------------------------------------------------
// Ids
// ---------------------------------------------------------------------------

fn attempt_self_stream_rejection(world: &mut World) {
    let request = self_stream_request("sender", "token", 10 * ONE, world.now, DAY);
    assert_eq!(world.create(&request), Err(SELF_STREAM));
}

fn attempt_unaffordable_deposit_rejection(world: &mut World) {
    let request = unaffordable_request(
        "sender",
        "recipient",
        "token",
        world.balance,
        world.now,
        DAY,
    );
    assert_eq!(request.deposit, world.balance + 1);
    assert!(
        world.create(&request).is_err(),
        "a deposit exceeding the sender's balance must fail"
    );
}

fn assert_matches_contract(ledger: &IdLedger, world: &World) {
    ledger.matches_contract(world.count(), &world.exists_at()).unwrap();
}

#[test]
fn many_streams_get_unique_strictly_increasing_ids() {
    let mut h = World::new();
    let mut ledger = IdLedger::new();

    for i in 0..60u64 {
        let id = h.create_simple(10 * ONE, DAY + i);
        ledger.record(id).unwrap();
        assert_matches_contract(&ledger, &h);
    }
}

#[test]
fn validation_failures_never_consume_an_id() {
    let mut h = World::new();
    let mut ledger = IdLedger::new();
    let start = h.now;

    ledger.record(h.create_simple(10 * ONE, DAY)).unwrap();
    assert_matches_contract(&ledger, &h);

    let before = h.count();

    attempt_self_stream_rejection(&mut h);
    assert_eq!(h.count(), before);

    let mut attempt = |deposit: i128, end: u64, cliff: u64| {
        let mut request = h.simple(deposit, 1);
        request.start = start;
        request.end = end;
        request.cliff = cliff;
        let r = h.create(&request).unwrap_err();
        assert_eq!(h.count(), before);
        r
    };
    assert_eq!(attempt(0, start + DAY, start), INVALID_DEPOSIT);
    assert_eq!(attempt(10 * ONE, start, start), INVALID_TIME_RANGE);
    assert_eq!(attempt(10 * ONE, start + DAY, start + 2 * DAY), INVALID_CLIFF);
    assert_eq!(attempt(DAY as i128 - 1, start + DAY, start), DEPOSIT_RATE_TOO_LOW);
    assert_eq!(attempt(i128::MAX / 1_000, start + YEAR, start), OVERFLOW);
    assert_eq!(
        h.count(),
        before,
        "every rejected create above must leave the counter untouched"
    );

    ledger.record(h.create_simple(10 * ONE, DAY)).unwrap();
    assert_matches_contract(&ledger, &h);
}

#[test]
fn a_failed_deposit_transfer_does_not_consume_or_reuse_an_id() {
    let mut h = World::new();
    let mut ledger = IdLedger::new();

    ledger.record(h.create_simple(10 * ONE, DAY)).unwrap();
    assert_matches_contract(&ledger, &h);

    let before = h.count();
    attempt_unaffordable_deposit_rejection(&mut h);
    assert_eq!(
        h.count(),
        before,
        "a failed deposit transfer must not advance the id counter"
    );

    let id = h.create_simple(10 * ONE, DAY);
    assert_eq!(
        id, before,
        "retried create must reuse the id the failed attempt never actually claimed"
    );
    ledger.record(id).unwrap();
    assert_matches_contract(&ledger, &h);
}

#[test]
fn repeated_failed_retries_never_advance_the_counter() {
    let mut h = World::new();
    let mut ledger = IdLedger::new();
    ledger.record(h.create_simple(10 * ONE, DAY)).unwrap();

    let before = h.count();
    for _ in 0..5 {
        attempt_unaffordable_deposit_rejection(&mut h);
        assert_eq!(h.count(), before);
    }

    let id = h.create_simple(10 * ONE, DAY);
    assert_eq!(id, before);
    ledger.record(id).unwrap();
    assert_matches_contract(&ledger, &h);
}

#[test]
fn ids_stay_unique_and_ordered_across_interleaved_failures_and_successes() {
    let mut h = World::new();
    let mut ledger = IdLedger::new();

    for round in 0..30u64 {
        if round % 3 == 0 {
            attempt_self_stream_rejection(&mut h);
        }
        if round % 4 == 0 {
            attempt_unaffordable_deposit_rejection(&mut h);
        }

        let id = h.create_simple(10 * ONE, DAY + round);
        ledger.record(id).unwrap();
        assert_matches_contract(&ledger, &h);

        h.advance(1);
    }
}

#[test]
fn transfers_and_top_ups_do_not_perturb_id_allocation() {
    let mut h = World::new();
    let mut ledger = IdLedger::new();

    for _ in 0..5u64 {
        ledger.record(h.create_simple(1_000 * ONE, 100 * DAY)).unwrap();
    }
    assert_matches_contract(&ledger, &h);

    h.operate(0, Operation::Transfer { to_other: true }).unwrap();
    h.operate(1, Operation::TopUp(50 * ONE)).unwrap();
    let _ = h.operate(2, Operation::TopUp(0)); // rejected
    h.operate(3, Operation::Cancel).unwrap();
    // A cancelled stream with nothing vested holds no claim, so it is not reassignable.
    let err = h.operate(3, Operation::Transfer { to_other: true }).unwrap_err();
    assert_eq!(err, STREAM_TERMINATED);
    h.advance(10 * DAY);

    ledger.record(h.create_simple(10 * ONE, DAY)).unwrap();
    ledger.record(h.create_simple(10 * ONE, DAY)).unwrap();
    assert_matches_contract(&ledger, &h);
}

#[test]
fn stress_many_creates_with_retries_and_transfers_preserve_the_id_invariant() {
    let mut h = World::new();
    let mut ledger = IdLedger::new();

    for round in 0..80u64 {
        match round % 4 {
            0 => attempt_self_stream_rejection(&mut h),
            1 => attempt_unaffordable_deposit_rejection(&mut h),
            _ => {}
        }

        let id = h.create_simple(10 * ONE, DAY + round);
        ledger.record(id).unwrap();
        assert_matches_contract(&ledger, &h);

        if id > 0 {
            let target = id - 1;
            match round % 3 {
                0 => h.operate(target, Operation::Transfer { to_other: true }).unwrap(),
                1 => {
                    let _ = h.operate(target, Operation::TopUp(5 * ONE));
                }
                _ => {}
            }
        }
        h.advance(1);
    }

    assert_eq!(h.count(), ledger.seen.len() as u64);
    assert_matches_contract(&ledger, &h);
}

#[test]
fn a_ledger_refuses_what_breaks_it() {
    let mut ledger = IdLedger::new();
    ledger.record(0).unwrap();
    ledger.record(1).unwrap();
    ledger.record(5).unwrap();
    assert_eq!(
        ledger.record(1),
        Err("id 1 was handed out twice; already have [0, 1, 5]".to_string())
    );
    assert_eq!(
        ledger.record(4),
        Err("id 4 is not strictly greater than the previously issued id 5".to_string())
    );
    assert_eq!(ledger.seen, [0, 1, 5]);
    assert_eq!(
        ledger.matches_contract(2, &[true, true]),
        Err("stream_count() disagrees with the number of successful creates".to_string())
    );
    assert_eq!(
        ledger.matches_contract(3, &[true, true, true]),
        Err("ids must run 0..stream_count() with no gaps".to_string())
    );
    let whole = IdLedger { seen: vec![0, 1] };
    assert_eq!(
        whole.matches_contract(2, &[true, false]),
        Err("id 1 should exist".to_string())
    );
    assert_eq!(whole.matches_contract(2, &[true, true]), Ok(()));
}

// ---------------------------------------------------------------------------
// Authority, claims and transfers
// ---------------------------------------------------------------------------

fn parties() -> Parties {
    Parties {
        sender: "sender".into(),
        recipient: "recipient".into(),
        other: "other".into(),
        unrelated: "unrelated".into(),
    }
}

fn stream() -> StreamState {
    let mut world = World::new();
    world.create_simple(1_000 * ONE, 100 * DAY);
    world.streams[0].clone()
}

#[test]
fn authority_goes_to_the_party_of_the_stream() {
    let p = parties();
    let roles: Vec<String> = (0..5).map(|n| CallerRole::numbered(n).address(&p)).collect();
    assert_eq!(roles, ["sender", "recipient", "other", "unrelated", "unrelated"]);
    let s = stream();
    let authorizers: Vec<(&str, String)> = (0..7)
        .map(|n| {
            let action = AuthAction::numbered(n);
            (action.fn_name(), action.expected_authorizer(&s))
        })
        .collect();
    let expected: Vec<(&str, String)> = [
        ("withdraw", "recipient"),
        ("batch_withdraw", "recipient"),
        ("transfer_recipient", "sender"),
        ("pause", "sender"),
        ("resume", "sender"),
        ("cancel", "sender"),
        ("top_up", "sender"),
    ]
    .iter()
    .map(|(a, b)| (*a, b.to_string()))
    .collect();
    assert_eq!(authorizers, expected);
    // After a transfer, authority follows the recipient.
    let mut moved = s.clone();
    moved.recipient = "other".into();
    assert_eq!(AuthAction::Withdraw.expected_authorizer(&moved), "other");
    assert_eq!(AuthAction::TransferRecipient.transfer_target(&p, &s), "other");
    assert_eq!(AuthAction::TransferRecipient.transfer_target(&p, &moved), "recipient");
    assert_eq!(AuthAction::Pause.transfer_target(&p, &moved), "other");
}

#[test]
fn calls_have_their_arguments() {
    let p = parties();
    let s = stream();
    let args = |action: AuthAction| action.args(&p, 3, &s, "caller", ONE);
    assert_eq!(
        args(AuthAction::Withdraw),
        [CallArg::Id(3), CallArg::OptionalAmount(None)]
    );
    assert_eq!(
        args(AuthAction::BatchWithdraw),
        [CallArg::Address("caller".into()), CallArg::Ids(vec![3])]
    );
    assert_eq!(
        args(AuthAction::TransferRecipient),
        [CallArg::Id(3), CallArg::Address("other".into())]
    );
    for action in [AuthAction::Pause, AuthAction::Resume, AuthAction::Cancel] {
        assert_eq!(args(action), [CallArg::Id(3)]);
    }
    assert_eq!(
        args(AuthAction::TopUp),
        [CallArg::Id(3), CallArg::Amount(10 * ONE)]
    );
}

#[test]
fn steps_are_held_to_the_rules_of_authorization() {
    let before = AuthSnapshot {
        stream: stream(),
        sender_balance: 1,
        initial_recipient_balance: 2,
        alternate_recipient_balance: 3,
        unrelated_balance: 4,
        pool: 5,
        stream_count: 6,
    };
    let judge = |accepted: bool, caller: &str, required: &str, after: &AuthSnapshot, events| {
        check_step(accepted, caller, "sender", required, &before, after, events)
    };
    let same = before.clone();
    assert_eq!(judge(true, "sender", "sender", &same, 1), None);
    assert_eq!(
        judge(true, "other", "sender", &same, 1),
        Some(StepFault::AcceptedUnauthorized)
    );
    assert_eq!(
        judge(true, "sender", "other", &same, 1),
        Some(StepFault::WrongAuthorizer)
    );
    assert_eq!(judge(false, "other", "", &same, 0), None);
    assert_eq!(
        judge(false, "other", "", &same, 1),
        Some(StepFault::RefusedButEmitted)
    );
    let mut changed = [same.clone(), same.clone(), same.clone()];
    changed[0].unrelated_balance = 0;
    changed[1].stream.paused_at = Some(1);
    changed[2].stream.status = StreamStatus::Depleted;
    for after in &changed {
        assert_eq!(
            judge(false, "other", "", after, 0),
            Some(StepFault::RefusedButChanged)
        );
    }
}

#[test]
fn a_transfer_changes_the_recipient_alone() {
    let before = stream();
    let mut after = before.clone();
    after.recipient = "other".into();
    assert!(only_recipient_changed(&before, &after, "other"));
    assert!(!only_recipient_changed(&before, &before, "other"));
    assert!(!only_recipient_changed(&before, &after, "third"));
    after.withdrawn = 1;
    assert!(!only_recipient_changed(&before, &after, "other"));
}

#[test]
fn a_claim_adds_up() {
    let claim = Claim {
        deposited: 1_000 * ONE,
        withdrawn: 100 * ONE,
        vested: 300 * ONE,
        withdrawable: 200 * ONE,
        refundable: 700 * ONE,
    };
    assert!(claim_holds(claim, claim));
    let mut other = claim;
    other.vested = 301 * ONE;
    assert!(!claim_holds(other, claim));
    assert!(!claim_holds(other, other));
}

#[test]
fn stub_tokens_refuse_as_they_should() {
    assert!(always_refusing_accepts(0));
    assert!(!always_refusing_accepts(1));
    assert!(!always_refusing_accepts(-1));
    assert_eq!(once_transfer(false, 0), Some(false));
    assert_eq!(once_transfer(false, 7), Some(true));
    assert_eq!(once_transfer(true, 0), Some(true));
    assert_eq!(once_transfer(true, 7), None);
    let events = [
        Some("withdrawn".to_string()),
        None,
        Some("cancelled".to_string()),
        Some("withdrawn".to_string()),
    ];
    assert_eq!(count_topic(&events, "withdrawn"), 2);
    assert_eq!(count_topic(&events, "topped_up"), 0);
    assert_eq!(count_topic(&[], "withdrawn"), 0);
}
