use fee_race::cycle::{CycleAction, CycleEvent, CyclePhase, TradeCycle, DWELL_MS};

#[test]
fn buy_dwell_sell() {
    let mut c = TradeCycle::new();
    assert_eq!(c.step(CycleEvent::Start), CycleAction::Buy);
    assert_eq!(c.step(CycleEvent::Executed { ok: true }), CycleAction::Wait { ms: DWELL_MS });
    assert_eq!(DWELL_MS, 4000);
    assert_eq!(c.step(CycleEvent::Waited), CycleAction::Sell);
    assert_eq!(c.step(CycleEvent::Executed { ok: true }), CycleAction::Finish { ok: true });
    assert_eq!(c.phase, CyclePhase::Done);
}

#[test]
fn failed_buy_skips_sale() {
    let mut c = TradeCycle::new();
    c.step(CycleEvent::Start);
    assert_eq!(c.step(CycleEvent::Executed { ok: false }), CycleAction::Finish { ok: false });
    assert_eq!(c.step(CycleEvent::Waited), CycleAction::Ignore);
    assert_eq!(c.phase, CyclePhase::Failed);
}
