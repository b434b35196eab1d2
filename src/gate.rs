//! The trade gate: at most one committed trade per process.
//!
//! A fan-out opens the trade gate for its trigger before its first attempt; the first
//! accepted attempt claims it, and every later claim is refused. Callers that
//! share one gate across tasks hold it behind a lock, so each `open` and
//! `claim` is one atomic transition.

use vstd::prelude::*;

verus! {

/// Where the process stands with respect to its one trade.
#[derive(Clone, Debug, PartialEq, Eq)]
pub enum TradeState {
    Idle,
    InFlight { trigger: u64 },
    Closed { trigger: u64, signature: String },
}

/// Whether a claim for `trigger` may close the trade gate from state `s`.
pub open spec fn may_claim(s: TradeState, trigger: u64) -> bool {
    match s {
        TradeState::Idle => true,
        TradeState::InFlight { trigger: t } => t == trigger,
        TradeState::Closed { .. } => false,
    }
}

/// A claim's effect: the new state and whether it won.
pub open spec fn claim_next(s: TradeState, trigger: u64, signature: String) -> (TradeState, bool) {
    if may_claim(s, trigger) {
        (TradeState::Closed { trigger, signature }, true)
    } else {
        (s, false)
    }
}

/// How many of `claims`, made in order from state `s`, win.
pub open spec fn wins(s: TradeState, claims: Seq<(u64, String)>) -> nat
    decreases claims.len(),
{
    if claims.len() == 0 {
        0
    } else {
        let (next, won) = claim_next(s, claims[0].0, claims[0].1);
        (if won { 1nat } else { 0nat }) + wins(next, claims.drop_first())
    }
}

pub struct TradeGate {
    pub state: TradeState,
}

impl TradeGate {
    pub fn new() -> (r: Self)
        ensures
            r.state is Idle,
    {
        TradeGate { state: TradeState::Idle }
    }

    /// Whether a trade is in progress or done, so that a new fan-out must not
    /// start.
    pub fn is_busy(&self) -> (r: bool)
        ensures
            r == !(self.state is Idle),
    {
        match self.state {
            TradeState::Idle => false,
            _ => true,
        }
    }

    /// Marks a fan-out for `trigger` as started. Succeeds only from `Idle`;
    /// otherwise the trade gate is left as it was.
    pub fn open(&mut self, trigger: u64) -> (r: bool)
        ensures
            r == (old(self).state is Idle),
            r ==> final(self).state == (TradeState::InFlight { trigger }),
            !r ==> final(self).state == old(self).state,
    {
        match self.state {
            TradeState::Idle => {
                self.state = TradeState::InFlight { trigger };
                true
            },
            _ => false,
        }
    }

    /// Whether a fan-out for `trigger` holds the trade gate, with no claim yet.
    /// A race for `trigger` must stop when this is false.
    pub fn held_by(&self, trigger: u64) -> (r: bool)
        ensures
            r == (self.state == TradeState::InFlight { trigger }),
    {
        match &self.state {
            TradeState::InFlight { trigger: t } => *t == trigger,
            _ => false,
        }
    }

    /// Ends a fan-out for `trigger` that won nothing: `InFlight` for `trigger`
    /// goes back to `Idle`, so a later trigger may start. Any other state is
    /// left as it was.
    pub fn release(&mut self, trigger: u64) -> (r: bool)
        ensures
            r == (old(self).state == TradeState::InFlight { trigger }),
            r ==> final(self).state is Idle,
            !r ==> final(self).state == old(self).state,
    {
        let held = self.held_by(trigger);
        if held {
            self.state = TradeState::Idle;
        }
        held
    }

    /// Closes the trade gate on an accepted attempt for `trigger`. True exactly for the
    /// first claim, from `Idle` or from `InFlight` for the same trigger; a
    /// refused claim changes nothing.
    pub fn claim(&mut self, trigger: u64, signature: String) -> (r: bool)
        ensures
            r == may_claim(old(self).state, trigger),
            (final(self).state, r) == claim_next(old(self).state, trigger, signature),
    {
        let allowed = match &self.state {
            TradeState::Idle => true,
            TradeState::InFlight { trigger: t } => *t == trigger,
            TradeState::Closed { .. } => false,
        };
        if allowed {
            self.state = TradeState::Closed { trigger, signature };
        }
        allowed
    }
}

/// Once closed, the trade gate refuses every later claim.
pub proof fn lemma_closed_gate_refuses(s: TradeState, claims: Seq<(u64, String)>)
    requires
        s is Closed,
    ensures
        wins(s, claims) == 0,
    decreases claims.len(),
{
    if claims.len() > 0 {
        lemma_closed_gate_refuses(s, claims.drop_first());
    }
}

/// Whatever claims arrive, in whatever order and for whatever triggers, at most
/// one of them wins.
pub proof fn lemma_at_most_one_winner(s: TradeState, claims: Seq<(u64, String)>)
    ensures
        wins(s, claims) <= 1,
    decreases claims.len(),
{
    if claims.len() > 0 {
        let (next, won) = claim_next(s, claims[0].0, claims[0].1);
        if won {
            lemma_closed_gate_refuses(next, claims.drop_first());
        } else {
            lemma_at_most_one_winner(next, claims.drop_first());
        }
    }
}

/// When one or more accepted attempts of the trigger that opened the trade gate
/// claim it, exactly one claim wins: the first.
pub proof fn lemma_exactly_one_winner(s: TradeState, trigger: u64, claims: Seq<(u64, String)>)
    requires
        may_claim(s, trigger),
        claims.len() >= 1,
        forall|i: int| 0 <= i < claims.len() ==> (#[trigger] claims[i]).0 == trigger,
    ensures
        wins(s, claims) == 1,
        claim_next(s, claims[0].0, claims[0].1).1,
{
    let (next, won) = claim_next(s, claims[0].0, claims[0].1);
    lemma_closed_gate_refuses(next, claims.drop_first());
}

} // verus!
