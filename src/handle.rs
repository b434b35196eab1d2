//! Acquisition of a fresh network state handle with bounded retry and
//! exponential backoff.
//!
//! The caller performs each fetch; this state machine decides, after each
//! failed fetch, whether to wait and fetch again or to give up.

use vstd::arithmetic::power2::{lemma2_to64, lemma_pow2_strictly_increases, lemma_pow2_unfold, pow2};
use vstd::prelude::*;

verus! {

/// Documented default delay before the first retry, in milliseconds.
pub const DEFAULT_BASE_DELAY_MS: u64 = 100;

/// The wait after the `k`-th consecutive failure (counting from zero): the base
/// delay doubled `k` times. Waits are counted in `u128` milliseconds, so this is
/// exactly `base * 2^k` for every `u64` base up to `k == 64` (and up to
/// `k == 66` for the default base); past `u128::MAX` it is held there.
pub open spec fn backoff_delay(base: u64, k: nat) -> nat
    decreases k,
{
    if k == 0 {
        base as nat
    } else {
        let d = 2 * backoff_delay(base, (k - 1) as nat);
        if d <= u128::MAX {
            d
        } else {
            u128::MAX as nat
        }
    }
}

/// What to do after a failed fetch.
#[derive(Clone, Copy, Debug, PartialEq, Eq, Structural)]
pub enum RetryStep {
    /// Wait this many milliseconds, then fetch again.
    Retry { wait_ms: u128 },
    /// The retry budget is spent: the acquisition fails.
    Exhausted,
}

/// The doubled delay, held at `u128::MAX` once it no longer fits.
pub open spec fn doubled(d: u128) -> u128 {
    if 2 * d <= u128::MAX {
        (2 * d) as u128
    } else {
        u128::MAX
    }
}

/// Progress of one `acquire` call.
pub struct HandleAcquirer {
    pub max_retries: u32,
    pub base_delay_ms: u64,
    pub failures: u32,
    pub delay_ms: u128,
}

impl HandleAcquirer {
    /// The delay held is the one owed after as many failures as were seen.
    pub open spec fn wf(&self) -> bool {
        &&& self.delay_ms == backoff_delay(self.base_delay_ms, self.failures as nat)
        &&& (self.max_retries == 0 || self.failures < self.max_retries)
    }

    /// Whether another fetch is owed.
    pub open spec fn may_fetch(&self) -> bool {
        self.failures < self.max_retries
    }

    /// Starts an acquisition that makes at most `max_retries` fetches.
    pub fn new(max_retries: u32, base_delay_ms: u64) -> (r: Self)
        ensures
            r.wf(),
            r.max_retries == max_retries,
            r.base_delay_ms == base_delay_ms,
            r.failures == 0,
    {
        HandleAcquirer { max_retries, base_delay_ms, failures: 0, delay_ms: base_delay_ms as u128 }
    }

    /// Whether a fetch should be made now; false only for a zero budget, which
    /// fails without any fetch.
    pub fn should_fetch(&self) -> (r: bool)
        ensures
            r == self.may_fetch(),
    {
        self.failures < self.max_retries
    }

    /// Records a failed fetch. Every failure but the last of the budget is
    /// retried after the current delay, which then doubles.
    pub fn on_failure(&mut self) -> (r: RetryStep)
        requires
            old(self).wf(),
        ensures
            final(self).wf(),
            final(self).max_retries == old(self).max_retries,
            final(self).base_delay_ms == old(self).base_delay_ms,
            (*final(self), r) == failure_step(*old(self)),
            old(self).failures as int + 1 < old(self).max_retries ==> {
                &&& r == RetryStep::Retry { wait_ms: old(self).delay_ms }
                &&& old(self).delay_ms == backoff_delay(
                    old(self).base_delay_ms,
                    old(self).failures as nat,
                )
                &&& old(self).base_delay_ms * pow2(old(self).failures as nat) <= u128::MAX
                    ==> old(self).delay_ms == old(self).base_delay_ms * pow2(
                    old(self).failures as nat,
                )
                &&& final(self).failures == old(self).failures + 1
            },
            old(self).failures as int + 1 >= old(self).max_retries ==> {
                &&& r == RetryStep::Exhausted
                &&& final(self).failures == old(self).failures
            },
    {
        if self.failures as u64 + 1 < self.max_retries as u64 {
            proof {
                if self.base_delay_ms * pow2(self.failures as nat) <= u128::MAX {
                    lemma_backoff_closed_form(self.base_delay_ms, self.failures as nat);
                }
            }
            let wait_ms = self.delay_ms;
            self.failures = self.failures + 1;
            self.delay_ms = if self.delay_ms <= u128::MAX / 2 {
                self.delay_ms * 2
            } else {
                u128::MAX
            };
            RetryStep::Retry { wait_ms }
        } else {
            RetryStep::Exhausted
        }
    }
}

/// The effect of one failed fetch: the next state and what to do.
pub open spec fn failure_step(a: HandleAcquirer) -> (HandleAcquirer, RetryStep) {
    if a.failures + 1 < a.max_retries {
        (
            HandleAcquirer { failures: (a.failures + 1) as u32, delay_ms: doubled(a.delay_ms), ..a },
            RetryStep::Retry { wait_ms: a.delay_ms },
        )
    } else {
        (a, RetryStep::Exhausted)
    }
}

/// The steps taken when `k` fetches in a row fail, from `a`.
pub open spec fn failures_from(a: HandleAcquirer, k: nat) -> Seq<RetryStep>
    decreases k,
{
    if k == 0 {
        Seq::empty()
    } else {
        seq![failure_step(a).1].add(failures_from(failure_step(a).0, (k - 1) as nat))
    }
}

proof fn lemma_failures_from(a: HandleAcquirer, k: nat)
    requires
        a.wf(),
        k >= 1,
        a.failures + k == a.max_retries,
    ensures
        failures_from(a, k).len() == k,
        forall|i: int|
            0 <= i < k - 1 ==> (#[trigger] failures_from(a, k)[i] matches RetryStep::Retry {
                wait_ms,
            } && wait_ms == backoff_delay(a.base_delay_ms, (a.failures + i) as nat)),
        failures_from(a, k)[k - 1] == RetryStep::Exhausted,
    decreases k,
{
    let (b, s) = failure_step(a);
    if k == 1 {
        assert(failures_from(b, 0) =~= Seq::<RetryStep>::empty());
    } else {
        lemma_failures_from(b, (k - 1) as nat);
        let rest = failures_from(b, (k - 1) as nat);
        assert forall|i: int| 0 < i < k implies #[trigger] failures_from(a, k)[i] == rest[i - 1] by {}
    }
}

/// Within one acquisition with a budget of `max_retries` fetches that all
/// fail, exactly `max_retries` fetches are made; the `j`-th wait between them
/// is `backoff_delay(base, j)`, exactly `base * 2^j` milliseconds for `j <= 64`
/// (and for every budget up to 68 with the default base), and the last
/// failure gives up with no wait.
pub proof fn lemma_acquire_all_fail(max_retries: u32, base: u64)
    requires
        max_retries >= 1,
    ensures
        ({
            let a = HandleAcquirer {
                max_retries,
                base_delay_ms: base,
                failures: 0,
                delay_ms: base as u128,
            };
            let steps = failures_from(a, max_retries as nat);
            &&& steps.len() == max_retries
            &&& forall|j: int|
                0 <= j < max_retries - 1 ==> (#[trigger] steps[j] matches RetryStep::Retry {
                    wait_ms,
                } && wait_ms == backoff_delay(base, j as nat) && (j <= 64 ==> wait_ms == base
                    * pow2(j as nat)) && ((base == DEFAULT_BASE_DELAY_MS && max_retries <= 68)
                    ==> wait_ms == 100 * pow2(j as nat)))
            &&& steps[max_retries - 1] == RetryStep::Exhausted
        }),
{
    let a = HandleAcquirer { max_retries, base_delay_ms: base, failures: 0, delay_ms: base as u128 };
    lemma_failures_from(a, max_retries as nat);
    let steps = failures_from(a, max_retries as nat);
    assert forall|j: int| 0 <= j < max_retries - 1 implies (#[trigger] steps[j] matches RetryStep::Retry {
        wait_ms,
    } && wait_ms == backoff_delay(base, j as nat) && (j <= 64 ==> wait_ms == base * pow2(
        j as nat,
    )) && ((base == DEFAULT_BASE_DELAY_MS && max_retries <= 68) ==> wait_ms == 100 * pow2(
        j as nat,
    ))) by {
        if j <= 64 {
            lemma_backoff_exact(base, j as nat);
        }
        if base == DEFAULT_BASE_DELAY_MS && max_retries <= 68 {
            lemma_default_backoff_exact(j as nat);
        }
    }
}

/// For every `u64` base, the first 65 waits (`k <= 64`) are exactly
/// `base * 2^k` milliseconds, and each is double the one before.
pub proof fn lemma_backoff_exact(base: u64, k: nat)
    requires
        k <= 64,
    ensures
        backoff_delay(base, k) == base * pow2(k),
        k >= 1 ==> backoff_delay(base, k) == 2 * backoff_delay(base, (k - 1) as nat),
{
    lemma2_to64();
    if k < 64 {
        lemma_pow2_strictly_increases(k, 64);
    }
    assert(base * pow2(k) <= u128::MAX) by (nonlinear_arith)
        requires
            base <= u64::MAX,
            pow2(k) <= 0x10000000000000000,
    ;
    lemma_backoff_closed_form(base, k);
    if k >= 1 {
        let j = (k - 1) as nat;
        lemma_pow2_strictly_increases(j, 64);
        assert(base * pow2(j) <= u128::MAX) by (nonlinear_arith)
            requires
                base <= u64::MAX,
                pow2(j) <= 0x10000000000000000,
        ;
        lemma_backoff_closed_form(base, j);
        lemma_pow2_unfold(k);
        assert(base * pow2(k) == 2 * (base * pow2(j))) by (nonlinear_arith)
            requires
                pow2(k) == 2 * pow2(j),
        ;
    }
}

/// With the default base of 100 ms, the waits of every budget up to 68
/// fetches (`k <= 66`) are exactly `100 * 2^k` milliseconds, each double the
/// one before.
pub proof fn lemma_default_backoff_exact(k: nat)
    requires
        k <= 66,
    ensures
        backoff_delay(DEFAULT_BASE_DELAY_MS, k) == 100 * pow2(k),
        k >= 1 ==> backoff_delay(DEFAULT_BASE_DELAY_MS, k) == 2 * backoff_delay(
            DEFAULT_BASE_DELAY_MS,
            (k - 1) as nat,
        ),
{
    lemma2_to64();
    lemma_pow2_unfold(65);
    lemma_pow2_unfold(66);
    if k < 66 {
        lemma_pow2_strictly_increases(k, 66);
    }
    assert(100 * pow2(k) <= u128::MAX);
    lemma_backoff_closed_form(DEFAULT_BASE_DELAY_MS, k);
    if k >= 1 {
        let j = (k - 1) as nat;
        lemma_pow2_strictly_increases(j, 66);
        lemma_backoff_closed_form(DEFAULT_BASE_DELAY_MS, j);
        lemma_pow2_unfold(k);
    }
}

/// Consecutive retry delays within one acquisition double while they fit in
/// `u128` milliseconds.
pub proof fn lemma_backoff_doubles(base: u64, k: nat)
    requires
        2 * backoff_delay(base, k) <= u128::MAX,
    ensures
        backoff_delay(base, k + 1) == 2 * backoff_delay(base, k),
{
}

/// While it fits, the delay after `k` failures is `base * 2^k`, so the observed
/// delays are `d, 2d, 4d, ...`.
pub proof fn lemma_backoff_closed_form(base: u64, k: nat)
    requires
        base * pow2(k) <= u128::MAX,
    ensures
        backoff_delay(base, k) == base * pow2(k),
    decreases k,
{
    if k == 0 {
        lemma2_to64();
    } else {
        let p = pow2((k - 1) as nat);
        lemma_pow2_unfold(k);
        assert(base * pow2(k) == 2 * (base * p) && base * p <= base * pow2(k)) by (nonlinear_arith)
            requires
                pow2(k) == 2 * p,
        ;
        lemma_backoff_closed_form(base, (k - 1) as nat);
    }
}

} // verus!
