use vidya_physics::{PhysicsConfig, RetryBudget, DEFAULT_MAX_RETRIES};

#[test]
fn default_config() {
    let config = PhysicsConfig::default();
    assert_eq!(4, config.substeps);
    assert_eq!(8, config.max_retries);
}

#[test]
fn retries_stop_at_the_budget_when_every_query_hits() {
    let mut budget = RetryBudget::new(DEFAULT_MAX_RETRIES);
    let mut queries = 0;
    while budget.should_query() {
        queries += 1;
        assert!(queries <= 1000, "resolution does not end");
        budget.record(true);
    }
    assert_eq!(8, queries);
}

#[test]
fn a_clear_path_ends_resolution() {
    let mut budget = RetryBudget::new(8);
    budget.record(true);
    budget.record(true);
    budget.record(false);
    assert!(!budget.should_query());
    assert_eq!(5, budget.remaining);
}

#[test]
fn an_empty_budget_makes_no_query() {
    assert!(!RetryBudget::new(0).should_query());
}
