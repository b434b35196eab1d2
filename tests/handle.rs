use fee_race::handle::{HandleAcquirer, RetryStep, DEFAULT_BASE_DELAY_MS};

#[test]
fn backoff_doubles_between_failures() {
    let mut a = HandleAcquirer::new(5, DEFAULT_BASE_DELAY_MS);
    let mut waits = Vec::new();
    while a.should_fetch() {
        match a.on_failure() {
            RetryStep::Retry { wait_ms } => waits.push(wait_ms),
            RetryStep::Exhausted => break,
        }
    }
    assert_eq!(waits, vec![100, 200, 400, 800]);
}

#[test]
fn three_fetches_then_exhausted() {
    let mut a = HandleAcquirer::new(3, 100);
    assert!(a.should_fetch());
    assert_eq!(a.on_failure(), RetryStep::Retry { wait_ms: 100 });
    assert_eq!(a.on_failure(), RetryStep::Retry { wait_ms: 200 });
    assert_eq!(a.on_failure(), RetryStep::Exhausted);
    assert_eq!(a.failures, 2);
}

#[test]
fn zero_budget_makes_no_fetch() {
    let mut a = HandleAcquirer::new(0, 100);
    assert!(!a.should_fetch());
    assert_eq!(a.on_failure(), RetryStep::Exhausted);
}

#[test]
fn default_backoff_exact_for_largest_budget() {
    let mut a = HandleAcquirer::new(68, DEFAULT_BASE_DELAY_MS);
    let mut waits: Vec<u128> = Vec::new();
    while let RetryStep::Retry { wait_ms } = a.on_failure() {
        waits.push(wait_ms);
    }
    assert_eq!(waits.len(), 67);
    for (j, w) in waits.iter().enumerate() {
        assert_eq!(*w, 100u128 << j);
    }
    assert_eq!(waits[58], 100u128 * (1u128 << 58));
    assert_eq!(waits[59], 2 * waits[58]);
}

#[test]
fn backoff_delay_saturates_past_u128() {
    let mut a = HandleAcquirer::new(70, u64::MAX);
    let mut waits: Vec<u128> = Vec::new();
    while let RetryStep::Retry { wait_ms } = a.on_failure() {
        waits.push(wait_ms);
    }
    assert_eq!(waits[64], (u64::MAX as u128) << 64);
    assert_eq!(waits[65], u128::MAX);
    assert_eq!(waits[66], u128::MAX);
}
