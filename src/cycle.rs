//! One trade cycle: a purchase, a fixed dwell, then the compensating sale.
//! A failed purchase ends the cycle with no sale.

use vstd::prelude::*;

verus! {

/// Dwell between the purchase and the sale, in milliseconds.
pub const DWELL_MS: u64 = 4000;

#[derive(Clone, Copy, Debug, PartialEq, Eq, Structural)]
pub enum CyclePhase {
    Idle,
    Buying,
    Dwelling,
    Selling,
    Done,
    /// The purchase or the sale failed; nothing further runs.
    Failed,
}

#[derive(Clone, Copy, Debug, PartialEq, Eq, Structural)]
pub enum CycleEvent {
    Start,
    /// The transaction in progress (purchase or sale) ended; `ok` tells whether
    /// it was accepted.
    Executed { ok: bool },
    Waited,
}

#[derive(Clone, Copy, Debug, PartialEq, Eq, Structural)]
pub enum CycleAction {
    Buy,
    Wait { ms: u64 },
    Sell,
    Finish { ok: bool },
    /// The event does not fit the current phase and changed nothing.
    Ignore,
}

pub open spec fn cycle_step(p: CyclePhase, ev: CycleEvent) -> (CyclePhase, CycleAction) {
    match (p, ev) {
        (CyclePhase::Idle, CycleEvent::Start) => (CyclePhase::Buying, CycleAction::Buy),
        (CyclePhase::Buying, CycleEvent::Executed { ok }) => {
            if ok {
                (CyclePhase::Dwelling, CycleAction::Wait { ms: DWELL_MS })
            } else {
                (CyclePhase::Failed, CycleAction::Finish { ok: false })
            }
        },
        (CyclePhase::Dwelling, CycleEvent::Waited) => (CyclePhase::Selling, CycleAction::Sell),
        (CyclePhase::Selling, CycleEvent::Executed { ok }) => {
            if ok {
                (CyclePhase::Done, CycleAction::Finish { ok: true })
            } else {
                (CyclePhase::Failed, CycleAction::Finish { ok: false })
            }
        },
        _ => (p, CycleAction::Ignore),
    }
}

pub struct TradeCycle {
    pub phase: CyclePhase,
}

impl TradeCycle {
    pub fn new() -> (r: Self)
        ensures
            r.phase == CyclePhase::Idle,
    {
        TradeCycle { phase: CyclePhase::Idle }
    }

    /// Takes one event and returns the action it calls for.
    pub fn step(&mut self, ev: CycleEvent) -> (r: CycleAction)
        ensures
            (final(self).phase, r) == cycle_step(old(self).phase, ev),
    {
        match (self.phase, ev) {
            (CyclePhase::Idle, CycleEvent::Start) => {
                self.phase = CyclePhase::Buying;
                CycleAction::Buy
            },
            (CyclePhase::Buying, CycleEvent::Executed { ok }) => {
                if ok {
                    self.phase = CyclePhase::Dwelling;
                    CycleAction::Wait { ms: DWELL_MS }
                } else {
                    self.phase = CyclePhase::Failed;
                    CycleAction::Finish { ok: false }
                }
            },
            (CyclePhase::Dwelling, CycleEvent::Waited) => {
                self.phase = CyclePhase::Selling;
                CycleAction::Sell
            },
            (CyclePhase::Selling, CycleEvent::Executed { ok }) => {
                if ok {
                    self.phase = CyclePhase::Done;
                    CycleAction::Finish { ok: true }
                } else {
                    self.phase = CyclePhase::Failed;
                    CycleAction::Finish { ok: false }
                }
            },
            _ => CycleAction::Ignore,
        }
    }
}

} // verus!
