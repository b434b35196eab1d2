use fee_race::filter::{default_rules, eligible_tokens, fetch_token_info, filter_token, TokenInfo};

#[test]
fn default_policy_keeps_first_snapshot() {
    let tokens = fetch_token_info();
    assert_eq!(tokens.len(), 2);
    let kept = eligible_tokens(&default_rules(), &tokens);
    assert_eq!(kept, vec![tokens[0]]);
}

#[test]
fn thresholds_are_inclusive() {
    let t = TokenInfo {
        pump_progress: 99,
        max_holders: 35,
        market_cap: 4000,
        dev_hold_ppm: 1_000_000,
        graduated: true,
    };
    assert!(filter_token(&default_rules(), &t));
    assert!(!filter_token(&default_rules(), &TokenInfo { graduated: false, ..t }));
    assert!(!filter_token(&default_rules(), &TokenInfo { dev_hold_ppm: 1_000_001, ..t }));
    assert!(!filter_token(&default_rules(), &TokenInfo { max_holders: 36, ..t }));
    assert!(!filter_token(&default_rules(), &TokenInfo { market_cap: 3999, ..t }));
    assert!(!filter_token(&default_rules(), &TokenInfo { pump_progress: 98, ..t }));
}

#[test]
fn nothing_eligible_in_empty_list() {
    assert!(eligible_tokens(&default_rules(), &Vec::new()).is_empty());
}

#[test]
fn any_eligible_matches_filter() {
    let tokens = fetch_token_info();
    assert!(fee_race::filter::any_eligible(&default_rules(), &tokens));
    assert!(!fee_race::filter::any_eligible(&default_rules(), &tokens[1..].to_vec()));
    assert!(!fee_race::filter::any_eligible(&default_rules(), &Vec::new()));
}
