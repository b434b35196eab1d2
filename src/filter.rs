//! Eligibility of an asset snapshot: the policy that decides whether a trigger
//! goes on to a fan-out. The thresholds are data, so a caller can replace them
//! without touching the race itself.

use vstd::prelude::*;

verus! {

/// Parts per million that stand for a ratio of one.
pub const PPM_ONE: u64 = 1_000_000;

/// A snapshot of an asset's state. The developer's holding is a ratio held as
/// parts per million (`PPM_ONE` is a ratio of one).
#[derive(Clone, Copy, Debug, PartialEq, Eq, Structural)]
pub struct TokenInfo {
    pub pump_progress: u8,
    pub max_holders: u8,
    pub market_cap: u64,
    pub dev_hold_ppm: u64,
    pub graduated: bool,
}

/// The thresholds a snapshot must meet.
#[derive(Clone, Copy, Debug, PartialEq, Eq, Structural)]
pub struct EligibilityRules {
    pub min_pump_progress: u8,
    pub max_holders: u8,
    pub min_market_cap: u64,
    pub max_dev_hold_ppm: u64,
    pub require_graduated: bool,
}

pub open spec fn passes(rules: EligibilityRules, t: TokenInfo) -> bool {
    &&& t.pump_progress >= rules.min_pump_progress
    &&& t.max_holders <= rules.max_holders
    &&& t.market_cap >= rules.min_market_cap
    &&& t.dev_hold_ppm <= rules.max_dev_hold_ppm
    &&& (rules.require_graduated ==> t.graduated)
}

/// The snapshots of `s` that pass, in their order.
pub open spec fn eligible(rules: EligibilityRules, s: Seq<TokenInfo>) -> Seq<TokenInfo>
    decreases s.len(),
{
    if s.len() == 0 {
        s
    } else {
        let prefix = eligible(rules, s.drop_last());
        if passes(rules, s.last()) {
            prefix.push(s.last())
        } else {
            prefix
        }
    }
}

/// The default policy: progress at least 99, at most 35 holders, a market value
/// of at least 4000, a developer holding of at most one, and graduated.
pub fn default_rules() -> (r: EligibilityRules)
    ensures
        r == (EligibilityRules {
            min_pump_progress: 99,
            max_holders: 35,
            min_market_cap: 4000,
            max_dev_hold_ppm: PPM_ONE,
            require_graduated: true,
        }),
{
    EligibilityRules {
        min_pump_progress: 99,
        max_holders: 35,
        min_market_cap: 4000,
        max_dev_hold_ppm: PPM_ONE,
        require_graduated: true,
    }
}

/// Whether `token` meets every threshold of `rules`.
pub fn filter_token(rules: &EligibilityRules, token: &TokenInfo) -> (r: bool)
    ensures
        r == passes(*rules, *token),
{
    token.pump_progress >= rules.min_pump_progress && token.max_holders <= rules.max_holders
        && token.market_cap >= rules.min_market_cap && token.dev_hold_ppm
        <= rules.max_dev_hold_ppm && (!rules.require_graduated || token.graduated)
}

/// The snapshots the race is evaluated against: a fixed pair, one that passes
/// the default policy and one that does not.
pub fn fetch_token_info() -> (r: Vec<TokenInfo>)
    ensures
        r@ == seq![
            TokenInfo {
                pump_progress: 99,
                max_holders: 30,
                market_cap: 5000,
                dev_hold_ppm: 500_000,
                graduated: true,
            },
            TokenInfo {
                pump_progress: 90,
                max_holders: 40,
                market_cap: 3000,
                dev_hold_ppm: 1_200_000,
                graduated: false,
            },
        ],
{
    let mut r: Vec<TokenInfo> = Vec::new();
    r.push(
        TokenInfo {
            pump_progress: 99,
            max_holders: 30,
            market_cap: 5000,
            dev_hold_ppm: 500_000,
            graduated: true,
        },
    );
    r.push(
        TokenInfo {
            pump_progress: 90,
            max_holders: 40,
            market_cap: 3000,
            dev_hold_ppm: 1_200_000,
            graduated: false,
        },
    );
    assert(r@ =~= seq![r@[0], r@[1]]);
    r
}

/// The snapshots of `tokens` that pass `rules`, in their order.
pub fn eligible_tokens(rules: &EligibilityRules, tokens: &Vec<TokenInfo>) -> (r: Vec<TokenInfo>)
    ensures
        r@ == eligible(*rules, tokens@),
{
    let mut r: Vec<TokenInfo> = Vec::new();
    let mut i: usize = 0;
    while i < tokens.len()
        invariant
            i <= tokens@.len(),
            r@ == eligible(*rules, tokens@.subrange(0, i as int)),
        decreases tokens@.len() - i,
    {
        let t = tokens[i];
        assert(tokens@.subrange(0, i + 1).drop_last() =~= tokens@.subrange(0, i as int));
        if filter_token(rules, &t) {
            r.push(t);
        }
        i = i + 1;
    }
    assert(tokens@.subrange(0, i as int) =~= tokens@);
    r
}

/// Whether any snapshot of `tokens` passes `rules`; a trigger goes on to a
/// fan-out only then.
pub fn any_eligible(rules: &EligibilityRules, tokens: &Vec<TokenInfo>) -> (r: bool)
    ensures
        r == (eligible(*rules, tokens@).len() > 0),
{
    let kept = eligible_tokens(rules, tokens);
    kept.len() > 0
}

} // verus!
