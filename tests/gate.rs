use fee_race::gate::{TradeGate, TradeState};

#[test]
fn first_claim_wins_others_refused() {
    let mut g = TradeGate::new();
    assert!(!g.is_busy());
    assert!(g.open(7));
    let results: Vec<bool> = (0..4).map(|i| g.claim(7, format!("sig{}", i))).collect();
    assert_eq!(results, vec![true, false, false, false]);
    assert_eq!(g.state, TradeState::Closed { trigger: 7, signature: "sig0".to_string() });
}

#[test]
fn open_refused_while_busy() {
    let mut g = TradeGate::new();
    assert!(g.open(1));
    assert!(g.is_busy());
    assert!(!g.open(2));
    assert_eq!(g.state, TradeState::InFlight { trigger: 1 });
}

#[test]
fn claim_for_other_trigger_refused() {
    let mut g = TradeGate::new();
    assert!(g.open(1));
    assert!(!g.claim(2, "x".to_string()));
    assert_eq!(g.state, TradeState::InFlight { trigger: 1 });
    assert!(g.claim(1, "y".to_string()));
}

#[test]
fn claim_from_idle_wins() {
    let mut g = TradeGate::new();
    assert!(g.claim(3, "s".to_string()));
    assert!(!g.claim(3, "t".to_string()));
}

#[test]
fn release_reopens_after_no_winner() {
    let mut g = TradeGate::new();
    assert!(g.open(4));
    assert!(g.held_by(4));
    assert!(!g.held_by(5));
    assert!(!g.release(5));
    assert!(g.release(4));
    assert_eq!(g.state, TradeState::Idle);
    assert!(g.open(5));
}

#[test]
fn release_leaves_closed_gate() {
    let mut g = TradeGate::new();
    g.open(1);
    g.claim(1, "s".to_string());
    assert!(!g.release(1));
    assert!(!g.held_by(1));
    assert!(g.is_busy());
}
