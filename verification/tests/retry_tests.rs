use settlement::retry::{RetryDecision, RetryPolicy};

fn policy() -> RetryPolicy {
    RetryPolicy { max_attempts: 6, base_delay_ms: 100, max_delay_ms: 1_000 }
}

#[test]
fn the_delay_doubles_up_to_the_ceiling() {
    let p = policy();
    assert_eq!(p.delay_after(1), 100);
    assert_eq!(p.delay_after(2), 200);
    assert_eq!(p.delay_after(3), 400);
    assert_eq!(p.delay_after(4), 800);
    assert_eq!(p.delay_after(5), 1_000);
    assert_eq!(p.delay_after(60), 1_000);
}

#[test]
fn a_base_above_the_ceiling_is_cut() {
    let p = RetryPolicy { max_attempts: 3, base_delay_ms: 5_000, max_delay_ms: 1_000 };
    assert_eq!(p.delay_after(1), 1_000);
    assert_eq!(p.delay_after(2), 1_000);
}

#[test]
fn a_zero_base_never_waits() {
    let p = RetryPolicy { max_attempts: 3, base_delay_ms: 0, max_delay_ms: 1_000 };
    assert_eq!(p.delay_after(1), 0);
    assert_eq!(p.delay_after(9), 0);
}

#[test]
fn the_largest_delays_do_not_overflow() {
    let p = RetryPolicy { max_attempts: 3, base_delay_ms: u64::MAX / 2 + 1, max_delay_ms: u64::MAX };
    assert_eq!(p.delay_after(1), u64::MAX / 2 + 1);
    assert_eq!(p.delay_after(2), u64::MAX);
    assert_eq!(p.delay_after(3), u64::MAX);
}

#[test]
fn attempts_are_bounded() {
    let p = RetryPolicy { max_attempts: 3, base_delay_ms: 100, max_delay_ms: 1_000 };
    assert_eq!(p.decide(1), RetryDecision::RetryAfter(100));
    assert_eq!(p.decide(2), RetryDecision::RetryAfter(200));
    assert_eq!(p.decide(3), RetryDecision::GiveUp);
    assert_eq!(p.decide(4), RetryDecision::GiveUp);
    assert_eq!(p.decide(u32::MAX), RetryDecision::GiveUp);
}

#[test]
fn no_failure_asks_for_no_retry() {
    assert_eq!(policy().decide(0), RetryDecision::GiveUp);
}

#[test]
fn a_policy_of_one_attempt_never_retries() {
    let p = RetryPolicy { max_attempts: 1, base_delay_ms: 100, max_delay_ms: 1_000 };
    assert_eq!(p.decide(1), RetryDecision::GiveUp);
    let none = RetryPolicy { max_attempts: 0, base_delay_ms: 100, max_delay_ms: 1_000 };
    assert_eq!(none.decide(1), RetryDecision::GiveUp);
}

#[test]
fn the_delay_before_any_failure_is_the_base() {
    assert_eq!(policy().delay_after(0), 100);
}
