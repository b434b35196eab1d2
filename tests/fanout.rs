use fee_race::fanout::{AttemptResult, Fanout, FanoutAction, FanoutEvent, Phase, DEFAULT_BASE_DELAY_MS};
use fee_race::fanout::settle_gate;
use fee_race::gate::{TradeGate, TradeState};

/// Runs a race against a mock network: `handles[i]` tells whether a handle
/// can be had for variant `i`, `results[i]` how its attempt ends. Returns the
/// actions, the number of handle fetches and the number of submissions.
fn drive(
    f: &mut Fanout,
    gate: &mut TradeGate,
    trigger: u64,
    handles: &[bool],
    results: &[AttemptResult],
) -> (Vec<FanoutAction>, usize, usize, usize) {
    let mut actions = Vec::new();
    let mut fetches = 0;
    let mut submits = 0;
    let mut claims_won = 0;
    let mut ev = FanoutEvent::Proceed { gate_busy: false };
    loop {
        let a = f.step(ev);
        actions.push(a.clone());
        ev = match a {
            FanoutAction::FetchHandle { index } => {
                fetches += 1;
                if handles[index as usize] {
                    FanoutEvent::HandleAcquired
                } else {
                    FanoutEvent::HandleExhausted
                }
            }
            FanoutAction::Submit { index } => {
                submits += 1;
                FanoutEvent::Outcome { result: results[index as usize].clone() }
            }
            FanoutAction::Wait { .. } => FanoutEvent::Waited,
            FanoutAction::Continue => FanoutEvent::Proceed { gate_busy: !gate.held_by(trigger) },
            FanoutAction::Won { signature, .. } => {
                if gate.claim(trigger, signature) {
                    claims_won += 1;
                }
                break;
            }
            FanoutAction::Stop | FanoutAction::Ignore => break,
        };
    }
    (actions, fetches, submits, claims_won)
}

fn accepted(s: &str) -> AttemptResult {
    AttemptResult::Accepted { signature: s.to_string() }
}

#[test]
fn one_winner_among_many_successes() {
    let mut f = Fanout::new(5, 0);
    let mut gate = TradeGate::new();
    assert!(gate.open(1));
    let results = vec![
        AttemptResult::RateLimited,
        accepted("a"),
        accepted("b"),
        accepted("c"),
        accepted("d"),
    ];
    let (actions, _, submits, claims_won) = drive(&mut f, &mut gate, 1, &[true; 5], &results);
    let wins = actions.iter().filter(|a| matches!(a, FanoutAction::Won { .. })).count();
    assert_eq!(wins, 1);
    assert_eq!(claims_won, 1);
    assert_eq!(submits, 2);
    assert_eq!(f.winner, Some(1));
    assert_eq!(f.successes(), 1);
    assert_eq!(f.step(FanoutEvent::Proceed { gate_busy: false }), FanoutAction::Ignore);
}

#[test]
fn every_submission_has_its_own_handle() {
    let mut f = Fanout::new(4, 0);
    let mut gate = TradeGate::new();
    gate.open(2);
    let results = vec![AttemptResult::RateLimited; 4];
    let (_, fetches, submits, _) = drive(&mut f, &mut gate, 2, &[true, false, true, true], &results);
    assert_eq!(fetches, 4);
    assert_eq!(submits, 3);
    assert_eq!(f.acquired, 3);
    assert_eq!(f.submitted, 3);
    assert!(fetches >= submits);
}

#[test]
fn empty_fanout_is_noop() {
    let mut f = Fanout::new(0, DEFAULT_BASE_DELAY_MS);
    assert_eq!(f.step(FanoutEvent::Proceed { gate_busy: false }), FanoutAction::Stop);
    assert_eq!(f.phase, Phase::Finished);
    assert_eq!(f.successes(), 0);
    assert_eq!(f.submitted, 0);
}

#[test]
fn rejection_does_not_stop_race() {
    let mut f = Fanout::new(4, 0);
    let mut gate = TradeGate::new();
    gate.open(3);
    let results = vec![
        AttemptResult::TransientFailure { reason: "t".to_string() },
        AttemptResult::NetworkRejected { reason: "bad".to_string() },
        AttemptResult::RateLimited,
        accepted("win"),
    ];
    let (_, fetches, submits, claims_won) = drive(&mut f, &mut gate, 3, &[true; 4], &results);
    assert_eq!(fetches, 4);
    assert_eq!(submits, 4);
    assert_eq!(claims_won, 1);
    assert_eq!(f.winner, Some(3));
}

#[test]
fn backoff_waits_by_outcome() {
    let mut f = Fanout::new(3, 1000);
    assert_eq!(f.step(FanoutEvent::Proceed { gate_busy: false }), FanoutAction::FetchHandle { index: 0 });
    assert_eq!(f.step(FanoutEvent::HandleAcquired), FanoutAction::Submit { index: 0 });
    assert_eq!(
        f.step(FanoutEvent::Outcome { result: AttemptResult::NetworkRejected { reason: "r".to_string() } }),
        FanoutAction::Wait { ms: 1000 }
    );
    assert_eq!(f.step(FanoutEvent::Waited), FanoutAction::Continue);
    assert_eq!(f.step(FanoutEvent::Proceed { gate_busy: false }), FanoutAction::FetchHandle { index: 1 });
    assert_eq!(f.step(FanoutEvent::HandleAcquired), FanoutAction::Submit { index: 1 });
    assert_eq!(
        f.step(FanoutEvent::Outcome { result: AttemptResult::RateLimited }),
        FanoutAction::Wait { ms: 2000 }
    );
}

#[test]
fn rate_limit_wait_saturates() {
    let mut f = Fanout::new(3, u64::MAX);
    f.step(FanoutEvent::Proceed { gate_busy: false });
    f.step(FanoutEvent::HandleAcquired);
    assert_eq!(
        f.step(FanoutEvent::Outcome { result: AttemptResult::RateLimited }),
        FanoutAction::Wait { ms: u64::MAX }
    );
}

#[test]
fn busy_gate_stops_race() {
    let mut f = Fanout::new(3, 0);
    assert_eq!(f.step(FanoutEvent::Proceed { gate_busy: true }), FanoutAction::Stop);
    assert_eq!(f.acquired, 0);
}

#[test]
fn exhausted_handle_skips_variant() {
    let mut f = Fanout::new(2, 0);
    f.step(FanoutEvent::Proceed { gate_busy: false });
    assert_eq!(f.step(FanoutEvent::HandleExhausted), FanoutAction::Continue);
    assert_eq!(f.step(FanoutEvent::Proceed { gate_busy: false }), FanoutAction::FetchHandle { index: 1 });
}

#[test]
fn settle_gate_claims_on_win_and_releases_on_stop() {
    let mut gate = TradeGate::new();
    gate.open(9);
    assert!(!settle_gate(&mut gate, 9, &FanoutAction::Continue));
    assert_eq!(gate.state, TradeState::InFlight { trigger: 9 });
    let won = FanoutAction::Won { index: 2, signature: "sig".to_string() };
    assert!(settle_gate(&mut gate, 9, &won));
    assert!(!settle_gate(&mut gate, 9, &won));
    assert!(!settle_gate(&mut gate, 9, &FanoutAction::Stop));
    assert_eq!(gate.state, TradeState::Closed { trigger: 9, signature: "sig".to_string() });

    let mut other = TradeGate::new();
    other.open(1);
    assert!(!settle_gate(&mut other, 1, &FanoutAction::Stop));
    assert_eq!(other.state, TradeState::Idle);
}

#[test]
fn all_rejected_variants_submitted_in_order() {
    let mut f = Fanout::new(3, 0);
    let mut gate = TradeGate::new();
    gate.open(6);
    let results = vec![
        AttemptResult::NetworkRejected { reason: "a".to_string() },
        AttemptResult::NetworkRejected { reason: "b".to_string() },
        AttemptResult::TransientFailure { reason: "c".to_string() },
    ];
    let (actions, _, submits, claims_won) = drive(&mut f, &mut gate, 6, &[true; 3], &results);
    let order: Vec<u64> = actions
        .iter()
        .filter_map(|a| if let FanoutAction::Submit { index } = a { Some(*index) } else { None })
        .collect();
    assert_eq!(order, vec![0, 1, 2]);
    assert_eq!(submits, 3);
    assert_eq!(claims_won, 0);
    assert_eq!(actions.last(), Some(&FanoutAction::Stop));
    assert_eq!(f.winner, None);
}
