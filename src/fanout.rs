//! The sequential fee race.
//!
//! Fee variants are tried strictly in order. For each one the caller fetches a
//! fresh state handle, then builds and submits one attempt; the first accepted
//! attempt wins and ends the race, so no later variant is ever submitted. A
//! rate-limited attempt waits `base * (index + 1)` before the next variant, any
//! other failure waits `base`. This sequential strategy is chosen over a
//! concurrent one: it is slower to land under congestion, but no losing attempt
//! can reach the network after a win.
//!
//! The caller runs the loop: it performs each action this machine returns and
//! hands back what happened as the next event.

use vstd::arithmetic::div_mod::{lemma_fundamental_div_mod, lemma_mod_bound};
use crate::gate::{claim_next, may_claim, TradeGate, TradeState};
use vstd::prelude::*;

verus! {

/// Documented default wait between variants, in milliseconds.
pub const DEFAULT_BASE_DELAY_MS: u64 = 1000;

/// Fetch budget of the state-handle acquisition made for each variant.
pub const HANDLE_RETRIES: u32 = 3;

/// How one submitted attempt ended.
#[derive(Clone, Debug, PartialEq, Eq)]
pub enum AttemptResult {
    Accepted { signature: String },
    RateLimited,
    NetworkRejected { reason: String },
    TransientFailure { reason: String },
}

#[derive(Clone, Copy, Debug, PartialEq, Eq, Structural)]
pub enum Phase {
    /// Between variants: the caller reports whether the trade gate is still free.
    Ready,
    /// Acquiring a fresh state handle for the current variant.
    Fetching,
    /// One attempt, bound to the handle just acquired, is out.
    Submitting,
    /// Backing off after a failed attempt.
    Waiting,
    Finished,
}

#[derive(Clone, Debug, PartialEq, Eq)]
pub enum FanoutEvent {
    /// The race may go on; `gate_busy` tells whether another trigger holds the
    /// trade gate or it is already closed.
    Proceed { gate_busy: bool },
    HandleAcquired,
    HandleExhausted,
    Outcome { result: AttemptResult },
    Waited,
}

#[derive(Clone, Debug, PartialEq, Eq)]
pub enum FanoutAction {
    /// Acquire a fresh state handle for variant `index`.
    FetchHandle { index: u64 },
    /// Build and submit the attempt of variant `index` with the handle just
    /// acquired.
    Submit { index: u64 },
    Wait { ms: u64 },
    /// Report `Proceed` with the trade gate's current state.
    Continue,
    /// Variant `index` was accepted: claim the trade gate with `signature`.
    Won { index: u64, signature: String },
    Stop,
    /// The event does not fit the current phase and changed nothing.
    Ignore,
}

/// The race over `variants` fee variants.
#[derive(Clone, Copy, Debug, PartialEq, Eq)]
pub struct Fanout {
    pub variants: u64,
    pub base_delay_ms: u64,
    pub index: u64,
    pub phase: Phase,
    pub winner: Option<u64>,
    /// State handles acquired so far.
    pub acquired: u64,
    /// Attempts submitted so far.
    pub submitted: u64,
}

/// The wait after a rate-limited attempt of variant `index`, held at
/// `u64::MAX` once it no longer fits.
pub open spec fn rate_limit_delay(base: u64, index: u64) -> u64 {
    if base * (index + 1) <= u64::MAX {
        (base * (index + 1)) as u64
    } else {
        u64::MAX
    }
}

/// One transition of the race: the state after `ev` and the action to take.
pub open spec fn step_spec(f: Fanout, ev: FanoutEvent) -> (Fanout, FanoutAction) {
    match (f.phase, ev) {
        (Phase::Ready, FanoutEvent::Proceed { gate_busy }) => {
            if gate_busy || f.index >= f.variants {
                (Fanout { phase: Phase::Finished, ..f }, FanoutAction::Stop)
            } else {
                (Fanout { phase: Phase::Fetching, ..f }, FanoutAction::FetchHandle { index: f.index })
            }
        },
        (Phase::Fetching, FanoutEvent::HandleAcquired) => (
            Fanout { phase: Phase::Submitting, acquired: (f.acquired + 1) as u64, ..f },
            FanoutAction::Submit { index: f.index },
        ),
        (Phase::Fetching, FanoutEvent::HandleExhausted) => (
            Fanout { phase: Phase::Ready, index: (f.index + 1) as u64, ..f },
            FanoutAction::Continue,
        ),
        (Phase::Submitting, FanoutEvent::Outcome { result }) => {
            let g = Fanout { submitted: (f.submitted + 1) as u64, ..f };
            match result {
                AttemptResult::Accepted { signature } => (
                    Fanout { phase: Phase::Finished, winner: Some(f.index), ..g },
                    FanoutAction::Won { index: f.index, signature },
                ),
                AttemptResult::RateLimited => (
                    Fanout { phase: Phase::Waiting, ..g },
                    FanoutAction::Wait { ms: rate_limit_delay(f.base_delay_ms, f.index) },
                ),
                _ => (
                    Fanout { phase: Phase::Waiting, ..g },
                    FanoutAction::Wait { ms: f.base_delay_ms },
                ),
            }
        },
        (Phase::Waiting, FanoutEvent::Waited) => (
            Fanout { phase: Phase::Ready, index: (f.index + 1) as u64, ..f },
            FanoutAction::Continue,
        ),
        _ => (f, FanoutAction::Ignore),
    }
}

/// The states and actions of a race fed `evs` in order from `f`.
pub open spec fn run(f: Fanout, evs: Seq<FanoutEvent>) -> (Fanout, Seq<FanoutAction>)
    decreases evs.len(),
{
    if evs.len() == 0 {
        (f, Seq::empty())
    } else {
        let (g, a) = step_spec(f, evs[0]);
        let (h, rest) = run(g, evs.drop_first());
        (h, seq![a].add(rest))
    }
}

/// How many of `actions` declare a winner.
pub open spec fn won_count(actions: Seq<FanoutAction>) -> nat
    decreases actions.len(),
{
    if actions.len() == 0 {
        0
    } else {
        (if actions[0] is Won { 1nat } else { 0nat }) + won_count(actions.drop_first())
    }
}

impl Fanout {
    pub open spec fn wf(&self) -> bool {
        &&& self.index <= self.variants
        &&& self.acquired <= self.variants
        &&& (self.phase is Ready || self.phase is Fetching) ==> self.acquired <= self.index
        &&& (self.phase is Fetching || self.phase is Submitting || self.phase is Waiting)
            ==> self.index < self.variants
        &&& (self.phase is Submitting || self.phase is Waiting) ==> self.acquired <= self.index + 1
        &&& self.phase is Submitting ==> self.acquired == self.submitted + 1
        &&& !(self.phase is Submitting) ==> self.acquired == self.submitted
        &&& self.winner is Some ==> self.phase is Finished && self.winner == Some(self.index)
    }

    /// A race over `variants` fee variants that has not begun.
    pub fn new(variants: u64, base_delay_ms: u64) -> (r: Self)
        ensures
            r.wf(),
            r == (Fanout {
                variants,
                base_delay_ms,
                index: 0,
                phase: Phase::Ready,
                winner: None,
                acquired: 0,
                submitted: 0,
            }),
    {
        Fanout {
            variants,
            base_delay_ms,
            index: 0,
            phase: Phase::Ready,
            winner: None,
            acquired: 0,
            submitted: 0,
        }
    }

    /// Accepted attempts of this race: one once a variant won, else none.
    pub fn successes(&self) -> (r: u64)
        ensures
            r == (if self.winner is Some { 1u64 } else { 0u64 }),
    {
        if self.winner.is_some() {
            1
        } else {
            0
        }
    }

    /// Takes one event and returns the action it calls for.
    pub fn step(&mut self, ev: FanoutEvent) -> (r: FanoutAction)
        requires
            old(self).wf(),
        ensures
            final(self).wf(),
            (*final(self), r) == step_spec(*old(self), ev),
    {
        match (self.phase, ev) {
            (Phase::Ready, FanoutEvent::Proceed { gate_busy }) => {
                if gate_busy || self.index >= self.variants {
                    self.phase = Phase::Finished;
                    FanoutAction::Stop
                } else {
                    self.phase = Phase::Fetching;
                    FanoutAction::FetchHandle { index: self.index }
                }
            },
            (Phase::Fetching, FanoutEvent::HandleAcquired) => {
                self.phase = Phase::Submitting;
                self.acquired = self.acquired + 1;
                FanoutAction::Submit { index: self.index }
            },
            (Phase::Fetching, FanoutEvent::HandleExhausted) => {
                self.phase = Phase::Ready;
                self.index = self.index + 1;
                FanoutAction::Continue
            },
            (Phase::Submitting, FanoutEvent::Outcome { result }) => {
                self.submitted = self.submitted + 1;
                match result {
                    AttemptResult::Accepted { signature } => {
                        self.phase = Phase::Finished;
                        self.winner = Some(self.index);
                        FanoutAction::Won { index: self.index, signature }
                    },
                    AttemptResult::RateLimited => {
                        self.phase = Phase::Waiting;
                        let k: u64 = self.index + 1;
                        let q: u64 = u64::MAX / k;
                        proof {
                            lemma_fundamental_div_mod(u64::MAX as int, k as int);
                            lemma_mod_bound(u64::MAX as int, k as int);
                            assert(q * k == k * q) by (nonlinear_arith);
                        }
                        let ms = if self.base_delay_ms <= q {
                            proof {
                                assert(self.base_delay_ms * k <= q * k) by (nonlinear_arith)
                                    requires
                                        self.base_delay_ms <= q,
                                        k > 0,
                                ;
                            }
                            self.base_delay_ms * k
                        } else {
                            proof {
                                assert(self.base_delay_ms * k >= (q + 1) * k) by (nonlinear_arith)
                                    requires
                                        self.base_delay_ms >= q + 1,
                                        k > 0,
                                ;
                            }
                            assert((q + 1) * k == q * k + k) by (nonlinear_arith);
                            assert(self.base_delay_ms * (self.index + 1) > u64::MAX);
                            u64::MAX
                        };
                        FanoutAction::Wait { ms }
                    },
                    _ => {
                        self.phase = Phase::Waiting;
                        FanoutAction::Wait { ms: self.base_delay_ms }
                    },
                }
            },
            (Phase::Waiting, FanoutEvent::Waited) => {
                self.phase = Phase::Ready;
                self.index = self.index + 1;
                FanoutAction::Continue
            },
            _ => FanoutAction::Ignore,
        }
    }
}

/// How many of `actions` submit an attempt.
pub open spec fn submit_count(actions: Seq<FanoutAction>) -> nat
    decreases actions.len(),
{
    if actions.len() == 0 {
        0
    } else {
        (if actions[0] is Submit { 1nat } else { 0nat }) + submit_count(actions.drop_first())
    }
}

/// How many of `actions` stop the race.
pub open spec fn stop_count(actions: Seq<FanoutAction>) -> nat
    decreases actions.len(),
{
    if actions.len() == 0 {
        0
    } else {
        (if actions[0] is Stop { 1nat } else { 0nat }) + stop_count(actions.drop_first())
    }
}

/// The variants submitted by `actions`, in order.
pub open spec fn submit_indices(actions: Seq<FanoutAction>) -> Seq<u64>
    decreases actions.len(),
{
    if actions.len() == 0 {
        Seq::empty()
    } else {
        let rest = submit_indices(actions.drop_first());
        match actions[0] {
            FanoutAction::Submit { index } => seq![index].add(rest),
            _ => rest,
        }
    }
}

/// The variants `lo, lo + 1, ..., lo + n - 1`.
pub open spec fn index_range(lo: u64, n: nat) -> Seq<u64> {
    Seq::new(n, |i: int| (lo + i) as u64)
}

/// Counting over an action followed by others.
proof fn lemma_counts_cons(a: FanoutAction, rest: Seq<FanoutAction>)
    ensures
        won_count(seq![a].add(rest)) == (if a is Won { 1nat } else { 0nat }) + won_count(rest),
        submit_count(seq![a].add(rest)) == (if a is Submit { 1nat } else { 0nat }) + submit_count(
            rest,
        ),
        stop_count(seq![a].add(rest)) == (if a is Stop { 1nat } else { 0nat }) + stop_count(rest),
        submit_indices(seq![a].add(rest)) == (match a {
            FanoutAction::Submit { index } => seq![index].add(submit_indices(rest)),
            _ => submit_indices(rest),
        }),
{
    assert(seq![a].add(rest).drop_first() =~= rest);
}

/// Every transition keeps a well-formed race well-formed.
pub proof fn lemma_step_keeps_wf(f: Fanout, ev: FanoutEvent)
    requires
        f.wf(),
    ensures
        step_spec(f, ev).0.wf(),
{
}

/// A finished race ignores every later event.
pub proof fn lemma_finished_is_inert(f: Fanout, evs: Seq<FanoutEvent>)
    requires
        f.phase is Finished,
    ensures
        run(f, evs).0 == f,
        won_count(run(f, evs).1) == 0,
        submit_count(run(f, evs).1) == 0,
    decreases evs.len(),
{
    if evs.len() > 0 {
        lemma_finished_is_inert(f, evs.drop_first());
        lemma_counts_cons(FanoutAction::Ignore, run(f, evs.drop_first()).1);
    }
}

/// Whatever events a race is fed, at most one variant is declared the winner,
/// and none once a winner is known.
pub proof fn lemma_at_most_one_winner(f: Fanout, evs: Seq<FanoutEvent>)
    ensures
        won_count(run(f, evs).1) <= 1,
        f.phase is Finished ==> won_count(run(f, evs).1) == 0,
    decreases evs.len(),
{
    if f.phase is Finished {
        lemma_finished_is_inert(f, evs);
    } else if evs.len() > 0 {
        let (g, a) = step_spec(f, evs[0]);
        lemma_at_most_one_winner(g, evs.drop_first());
        lemma_counts_cons(a, run(g, evs.drop_first()).1);
        if a is Won {
            lemma_finished_is_inert(g, evs.drop_first());
        }
    }
}

/// Each submitted attempt has a state handle acquired for it alone: along any
/// run, the attempts submitted are exactly as many as the handles acquired, and
/// no more attempts have gone out than handles were acquired.
pub proof fn lemma_fresh_handle_per_attempt(f: Fanout, evs: Seq<FanoutEvent>)
    requires
        f.wf(),
    ensures
        run(f, evs).0.wf(),
        submit_count(run(f, evs).1) == run(f, evs).0.acquired - f.acquired,
        run(f, evs).0.submitted <= run(f, evs).0.acquired,
    decreases evs.len(),
{
    if evs.len() > 0 {
        let (g, a) = step_spec(f, evs[0]);
        lemma_step_keeps_wf(f, evs[0]);
        lemma_fresh_handle_per_attempt(g, evs.drop_first());
        lemma_counts_cons(a, run(g, evs.drop_first()).1);
    }
}

/// A race over no variants submits nothing and wins nothing, whatever it is fed;
/// its first `Proceed` stops it.
pub proof fn lemma_empty_fanout_is_noop(f: Fanout, evs: Seq<FanoutEvent>)
    requires
        f.wf(),
        f.variants == 0,
        f.winner is None,
    ensures
        submit_count(run(f, evs).1) == 0,
        won_count(run(f, evs).1) == 0,
        run(f, evs).0.winner is None,
        run(f, evs).0.acquired == 0,
    decreases evs.len(),
{
    if evs.len() > 0 {
        let (g, a) = step_spec(f, evs[0]);
        lemma_step_keeps_wf(f, evs[0]);
        lemma_empty_fanout_is_noop(g, evs.drop_first());
        lemma_counts_cons(a, run(g, evs.drop_first()).1);
    }
}

/// A hard rejection ends only its own attempt: after the base wait the race
/// goes on to fetch a handle for the next variant.
pub proof fn lemma_rejection_contained(f: Fanout, reason: String)
    requires
        f.wf(),
        f.phase is Submitting,
        f.index + 1 < f.variants,
    ensures
        ({
            let evs = seq![
                FanoutEvent::Outcome { result: AttemptResult::NetworkRejected { reason } },
                FanoutEvent::Waited,
                FanoutEvent::Proceed { gate_busy: false },
            ];
            let (g, actions) = run(f, evs);
            &&& actions.len() == 3
            &&& actions[0] == FanoutAction::Wait { ms: f.base_delay_ms }
            &&& actions[1] == FanoutAction::Continue
            &&& actions[2] == FanoutAction::FetchHandle { index: (f.index + 1) as u64 }
            &&& g.phase is Fetching
            &&& g.winner is None
            &&& g.index == f.index + 1
        }),
{
    let evs = seq![
        FanoutEvent::Outcome { result: AttemptResult::NetworkRejected { reason } },
        FanoutEvent::Waited,
        FanoutEvent::Proceed { gate_busy: false },
    ];
    let (g1, a1) = step_spec(f, evs[0]);
    let (g2, a2) = step_spec(g1, evs[1]);
    let (g3, a3) = step_spec(g2, evs[2]);
    assert(evs.drop_first() =~= seq![evs[1], evs[2]]);
    assert(evs.drop_first().drop_first() =~= seq![evs[2]]);
    assert(evs.drop_first().drop_first().drop_first() =~= Seq::<FanoutEvent>::empty());
    assert(run(g3, Seq::<FanoutEvent>::empty()) == (g3, Seq::<FanoutAction>::empty()));
    assert(run(g2, seq![evs[2]]).1 =~= seq![a3]);
    assert(run(g1, seq![evs[1], evs[2]]).1 =~= seq![a2, a3]);
    assert(run(f, evs).1 =~= seq![a1, a2, a3]);
}

/// A hard rejection is handled like any other failed attempt: rejected,
/// transient and rate-limited outcomes leave the same race state and differ
/// only in the wait, so one rejection cannot change what happens to the other
/// variants.
pub proof fn lemma_failures_leave_same_state(f: Fanout, reason: String, other: String)
    requires
        f.wf(),
        f.phase is Submitting,
    ensures
        step_spec(f, FanoutEvent::Outcome { result: AttemptResult::NetworkRejected { reason } }).0
            == step_spec(
            f,
            FanoutEvent::Outcome { result: AttemptResult::TransientFailure { reason: other } },
        ).0,
        step_spec(f, FanoutEvent::Outcome { result: AttemptResult::NetworkRejected { reason } }).0
            == step_spec(f, FanoutEvent::Outcome { result: AttemptResult::RateLimited }).0,
        step_spec(
            f,
            FanoutEvent::Outcome { result: AttemptResult::NetworkRejected { reason } },
        ).0.winner is None,
{
}

/// A network that hands out every state handle, accepts exactly the variants
/// whose index satisfies `accepts` (with `signature`), and answers each other
/// variant `j` with its own failure `failure(j)`; the trade gate stays free. The event it gives for action `a`.
pub open spec fn respond(
    a: FanoutAction,
    accepts: spec_fn(u64) -> bool,
    signature: String,
    failure: spec_fn(u64) -> AttemptResult,
) -> FanoutEvent {
    match a {
        FanoutAction::FetchHandle { .. } => FanoutEvent::HandleAcquired,
        FanoutAction::Submit { index } => FanoutEvent::Outcome {
            result: if accepts(index) {
                AttemptResult::Accepted { signature }
            } else {
                failure(index)
            },
        },
        FanoutAction::Continue => FanoutEvent::Proceed { gate_busy: false },
        _ => FanoutEvent::Waited,
    }
}

/// `fuel` steps of a race driven by `respond`, the first answering action `a`.
pub open spec fn driven(
    f: Fanout,
    a: FanoutAction,
    accepts: spec_fn(u64) -> bool,
    signature: String,
    failure: spec_fn(u64) -> AttemptResult,
    fuel: nat,
) -> (Fanout, Seq<FanoutAction>)
    decreases fuel,
{
    if fuel == 0 {
        (f, Seq::empty())
    } else {
        let (g, b) = step_spec(f, respond(a, accepts, signature, failure));
        let (h, rest) = driven(g, b, accepts, signature, failure, (fuel - 1) as nat);
        (h, seq![b].add(rest))
    }
}

/// No action of `actions` submits a variant past `hi`.
pub open spec fn submits_at_most(actions: Seq<FanoutAction>, hi: u64) -> bool {
    forall|i: int|
        0 <= i < actions.len() ==> (#[trigger] actions[i] matches FanoutAction::Submit { index }
            ==> index <= hi)
}

proof fn lemma_submits_cons(b: FanoutAction, rest: Seq<FanoutAction>, hi: u64)
    requires
        submits_at_most(rest, hi),
        b matches FanoutAction::Submit { index } ==> index <= hi,
    ensures
        submits_at_most(seq![b].add(rest), hi),
{
    let s = seq![b].add(rest);
    assert forall|i: int| 0 < i < s.len() implies #[trigger] s[i] == rest[i - 1] by {}
}

proof fn lemma_driven_finished(
    f: Fanout,
    a: FanoutAction,
    accepts: spec_fn(u64) -> bool,
    signature: String,
    failure: spec_fn(u64) -> AttemptResult,
    fuel: nat,
    hi: u64,
)
    requires
        f.phase is Finished,
    ensures
        driven(f, a, accepts, signature, failure, fuel).0 == f,
        won_count(driven(f, a, accepts, signature, failure, fuel).1) == 0,
        submit_count(driven(f, a, accepts, signature, failure, fuel).1) == 0,
        submits_at_most(driven(f, a, accepts, signature, failure, fuel).1, hi),
        submit_indices(driven(f, a, accepts, signature, failure, fuel).1) == Seq::<u64>::empty(),
        stop_count(driven(f, a, accepts, signature, failure, fuel).1) == 0,
    decreases fuel,
{
    if fuel > 0 {
        let (g, b) = step_spec(f, respond(a, accepts, signature, failure));
        lemma_driven_finished(g, b, accepts, signature, failure, (fuel - 1) as nat, hi);
        let rest = driven(g, b, accepts, signature, failure, (fuel - 1) as nat).1;
        lemma_counts_cons(b, rest);
        lemma_submits_cons(b, rest, hi);
    }
}

proof fn lemma_driven_from_ready(
    f: Fanout,
    accepts: spec_fn(u64) -> bool,
    signature: String,
    failure: spec_fn(u64) -> AttemptResult,
    w: u64,
    fuel: nat,
)
    requires
        f.wf(),
        f.phase is Ready,
        f.index <= w < f.variants,
        accepts(w),
        forall|j: u64| f.index <= j < w ==> !#[trigger] accepts(j),
        forall|j: u64| !(#[trigger] failure(j) is Accepted),
        fuel >= 4 * (w - f.index) + 3,
    ensures
        ({
            let (h, actions) = driven(f, FanoutAction::Continue, accepts, signature, failure, fuel);
            &&& h.winner == Some(w)
            &&& won_count(actions) == 1
            &&& submit_count(actions) == w - f.index + 1
            &&& submits_at_most(actions, w)
            &&& stop_count(actions) == 0
        }),
    decreases w - f.index,
{
    let (g1, b1) = step_spec(f, respond(FanoutAction::Continue, accepts, signature, failure));
    let (g2, b2) = step_spec(g1, respond(b1, accepts, signature, failure));
    let (g3, b3) = step_spec(g2, respond(b2, accepts, signature, failure));
    lemma_step_keeps_wf(f, respond(FanoutAction::Continue, accepts, signature, failure));
    lemma_step_keeps_wf(g1, respond(b1, accepts, signature, failure));
    lemma_step_keeps_wf(g2, respond(b2, accepts, signature, failure));
    let r1 = driven(g1, b1, accepts, signature, failure, (fuel - 1) as nat).1;
    let r2 = driven(g2, b2, accepts, signature, failure, (fuel - 2) as nat).1;
    let r3 = driven(g3, b3, accepts, signature, failure, (fuel - 3) as nat).1;
    if f.index == w {
        assert(g3.phase is Finished);
        lemma_driven_finished(g3, b3, accepts, signature, failure, (fuel - 3) as nat, w);
    } else {
        let (g4, b4) = step_spec(g3, respond(b3, accepts, signature, failure));
        lemma_step_keeps_wf(g3, respond(b3, accepts, signature, failure));
        assert(g4.phase is Ready && g4.index == f.index + 1 && b4 == FanoutAction::Continue);
        lemma_driven_from_ready(g4, accepts, signature, failure, w, (fuel - 4) as nat);
        let r4 = driven(g4, b4, accepts, signature, failure, (fuel - 4) as nat).1;
        lemma_counts_cons(b4, r4);
        lemma_submits_cons(b4, r4, w);
    }
    lemma_counts_cons(b3, r3);
    lemma_submits_cons(b3, r3, w);
    lemma_counts_cons(b2, r2);
    lemma_submits_cons(b2, r2, w);
    lemma_counts_cons(b1, r1);
    lemma_submits_cons(b1, r1, w);
}

/// What a race's action does to the trade gate held for `trigger`: the new
/// state and whether a claim won.
pub open spec fn settle_next(s: TradeState, trigger: u64, a: FanoutAction) -> (TradeState, bool) {
    match a {
        FanoutAction::Won { signature, .. } => claim_next(s, trigger, signature),
        FanoutAction::Stop => (
            if s == (TradeState::InFlight { trigger }) {
                TradeState::Idle
            } else {
                s
            },
            false,
        ),
        _ => (s, false),
    }
}

/// How many of `actions`, settled in order from `s`, claim the trade gate.
pub open spec fn gate_wins(s: TradeState, trigger: u64, actions: Seq<FanoutAction>) -> nat
    decreases actions.len(),
{
    if actions.len() == 0 {
        0
    } else {
        let (next, won) = settle_next(s, trigger, actions[0]);
        (if won { 1nat } else { 0nat }) + gate_wins(next, trigger, actions.drop_first())
    }
}

/// Applies a race's action for `trigger` to the trade gate: a winner claims
/// it, a race that stops with no winner releases it, and any other action
/// leaves it alone. Returns whether a claim won.
pub fn settle_gate(gate: &mut TradeGate, trigger: u64, action: &FanoutAction) -> (r: bool)
    ensures
        (final(gate).state, r) == settle_next(old(gate).state, trigger, *action),
{
    match action {
        FanoutAction::Won { signature, .. } => gate.claim(trigger, signature.clone()),
        FanoutAction::Stop => {
            gate.release(trigger);
            false
        },
        _ => false,
    }
}

proof fn lemma_closed_gate_stays(s: TradeState, trigger: u64, actions: Seq<FanoutAction>)
    requires
        s is Closed,
    ensures
        gate_wins(s, trigger, actions) == 0,
    decreases actions.len(),
{
    if actions.len() > 0 {
        lemma_closed_gate_stays(s, trigger, actions.drop_first());
    }
}

/// Settling a race's actions on a trade gate that its trigger may claim, where
/// the race declares one winner and never stops early, claims the trade gate
/// exactly once.
pub proof fn lemma_gate_claimed_once(s: TradeState, trigger: u64, actions: Seq<FanoutAction>)
    requires
        may_claim(s, trigger),
        won_count(actions) == 1,
        stop_count(actions) == 0,
    ensures
        gate_wins(s, trigger, actions) == 1,
    decreases actions.len(),
{
    let a = actions[0];
    let rest = actions.drop_first();
    assert(actions =~= seq![a].add(rest));
    lemma_counts_cons(a, rest);
    let (next, won) = settle_next(s, trigger, a);
    if a is Won {
        lemma_closed_gate_stays(next, trigger, rest);
    } else {
        lemma_gate_claimed_once(next, trigger, rest);
    }
}

/// Racing `k` variants against a network that would accept those in `accepts`:
/// the first accepted variant `w` wins, exactly one winner is declared, exactly
/// the variants `0..=w` are submitted (one each), none after `w` is ever
/// submitted, and settling the race's actions on the trade gate that `trigger`
/// holds claims it exactly once.
pub proof fn lemma_first_accepted_wins(
    trigger: u64,
    k: u64,
    base: u64,
    accepts: spec_fn(u64) -> bool,
    signature: String,
    failure: spec_fn(u64) -> AttemptResult,
    w: u64,
    fuel: nat,
)
    requires
        w < k,
        accepts(w),
        forall|j: u64| j < w ==> !#[trigger] accepts(j),
        forall|j: u64| !(#[trigger] failure(j) is Accepted),
        fuel >= 4 * w + 3,
    ensures
        ({
            let f = Fanout {
                variants: k,
                base_delay_ms: base,
                index: 0,
                phase: Phase::Ready,
                winner: None,
                acquired: 0,
                submitted: 0,
            };
            let (h, actions) = driven(f, FanoutAction::Continue, accepts, signature, failure, fuel);
            &&& h.winner == Some(w)
            &&& won_count(actions) == 1
            &&& submit_count(actions) == w + 1
            &&& submits_at_most(actions, w)
            &&& gate_wins(TradeState::InFlight { trigger }, trigger, actions) == 1
        }),
{
    let f = Fanout {
        variants: k,
        base_delay_ms: base,
        index: 0,
        phase: Phase::Ready,
        winner: None,
        acquired: 0,
        submitted: 0,
    };
    lemma_driven_from_ready(f, accepts, signature, failure, w, fuel);
    let actions = driven(f, FanoutAction::Continue, accepts, signature, failure, fuel).1;
    lemma_gate_claimed_once(TradeState::InFlight { trigger }, trigger, actions);
}

proof fn lemma_driven_none_accepted(
    f: Fanout,
    accepts: spec_fn(u64) -> bool,
    signature: String,
    failure: spec_fn(u64) -> AttemptResult,
    fuel: nat,
)
    requires
        f.wf(),
        f.phase is Ready,
        forall|j: u64| f.index <= j < f.variants ==> !#[trigger] accepts(j),
        forall|j: u64| !(#[trigger] failure(j) is Accepted),
        fuel >= 4 * (f.variants - f.index) + 1,
    ensures
        ({
            let (h, actions) = driven(f, FanoutAction::Continue, accepts, signature, failure, fuel);
            &&& h.phase is Finished
            &&& h.winner is None
            &&& won_count(actions) == 0
            &&& submit_indices(actions) == index_range(f.index, (f.variants - f.index) as nat)
        }),
    decreases f.variants - f.index,
{
    let (g1, b1) = step_spec(f, respond(FanoutAction::Continue, accepts, signature, failure));
    let r1 = driven(g1, b1, accepts, signature, failure, (fuel - 1) as nat).1;
    lemma_step_keeps_wf(f, respond(FanoutAction::Continue, accepts, signature, failure));
    if f.index == f.variants {
        lemma_driven_finished(g1, b1, accepts, signature, failure, (fuel - 1) as nat, 0);
        lemma_counts_cons(b1, r1);
        assert(index_range(f.index, 0) =~= Seq::<u64>::empty());
    } else {
        let (g2, b2) = step_spec(g1, respond(b1, accepts, signature, failure));
        let (g3, b3) = step_spec(g2, respond(b2, accepts, signature, failure));
        let (g4, b4) = step_spec(g3, respond(b3, accepts, signature, failure));
        lemma_step_keeps_wf(g1, respond(b1, accepts, signature, failure));
        lemma_step_keeps_wf(g2, respond(b2, accepts, signature, failure));
        lemma_step_keeps_wf(g3, respond(b3, accepts, signature, failure));
        let r2 = driven(g2, b2, accepts, signature, failure, (fuel - 2) as nat).1;
        let r3 = driven(g3, b3, accepts, signature, failure, (fuel - 3) as nat).1;
        let r4 = driven(g4, b4, accepts, signature, failure, (fuel - 4) as nat).1;
        assert(g4.phase is Ready && g4.index == f.index + 1 && b4 == FanoutAction::Continue);
        lemma_driven_none_accepted(g4, accepts, signature, failure, (fuel - 4) as nat);
        lemma_counts_cons(b4, r4);
        lemma_counts_cons(b3, r3);
        lemma_counts_cons(b2, r2);
        lemma_counts_cons(b1, r1);
        assert(b2 == FanoutAction::Submit { index: f.index });
        let n = (f.variants - f.index) as nat;
        assert(index_range(f.index, n) =~= seq![f.index].add(
            index_range((f.index + 1) as u64, (n - 1) as nat),
        ));
    }
}

/// When the network accepts none of the `k` variants, a hard rejection of any
/// of them stops nothing: every variant is submitted exactly once, in index
/// order, and the race then stops with no winner.
pub proof fn lemma_all_variants_evaluated(
    k: u64,
    base: u64,
    accepts: spec_fn(u64) -> bool,
    signature: String,
    failure: spec_fn(u64) -> AttemptResult,
    fuel: nat,
)
    requires
        forall|j: u64| j < k ==> !#[trigger] accepts(j),
        forall|j: u64| !(#[trigger] failure(j) is Accepted),
        fuel >= 4 * k + 1,
    ensures
        ({
            let f = Fanout {
                variants: k,
                base_delay_ms: base,
                index: 0,
                phase: Phase::Ready,
                winner: None,
                acquired: 0,
                submitted: 0,
            };
            let (h, actions) = driven(f, FanoutAction::Continue, accepts, signature, failure, fuel);
            &&& h.phase is Finished
            &&& h.winner is None
            &&& won_count(actions) == 0
            &&& submit_indices(actions) == index_range(0, k as nat)
        }),
{
    let f = Fanout {
        variants: k,
        base_delay_ms: base,
        index: 0,
        phase: Phase::Ready,
        winner: None,
        acquired: 0,
        submitted: 0,
    };
    lemma_driven_none_accepted(f, accepts, signature, failure, fuel);
}

} // verus!
