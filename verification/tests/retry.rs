use pooprusteek::agent::retry::RetryBudget;

#[test]
fn a_budget_hands_out_exactly_its_limit() {
    let mut budget = RetryBudget::default();
    assert_eq!(budget.take_malformed(), Some(1));
    assert_eq!(budget.take_malformed(), Some(2));
    assert_eq!(budget.take_malformed(), None);
    assert_eq!(budget.take_malformed(), None);
}

#[test]
fn the_two_counters_are_independent() {
    // Broken calls must not eat the attempts for empty replies.
    let mut budget = RetryBudget::default();
    while budget.take_malformed().is_some() {}
    assert_eq!(budget.take_empty(), Some(1));
}

#[test]
fn the_empty_reply_budget_runs_out_too() {
    let mut budget = RetryBudget::new();
    assert_eq!(budget.take_empty(), Some(1));
    assert_eq!(budget.take_empty(), Some(2));
    assert_eq!(budget.take_empty(), None);
    assert_eq!(budget.take_malformed(), Some(1));
}
