use rebalancer::model::{BalanceReading, ThresholdConfig, TransactionRequest};
use rebalancer::retry::{RetryDecision, RetryPolicy};

fn policy() -> RetryPolicy {
    RetryPolicy { max_attempts: 5, base_delay_seconds: 3, max_delay_seconds: 20 }
}

#[test]
fn backoff_doubles_up_to_the_cap() {
    let p = policy();
    assert_eq!(p.backoff(0), 3);
    assert_eq!(p.backoff(1), 3);
    assert_eq!(p.backoff(2), 6);
    assert_eq!(p.backoff(3), 12);
    assert_eq!(p.backoff(4), 20);
    assert_eq!(p.backoff(5), 20);
    assert_eq!(p.backoff(u32::MAX), 20);
}

#[test]
fn backoff_with_base_above_cap_is_the_cap() {
    let p = RetryPolicy { max_attempts: 5, base_delay_seconds: 50, max_delay_seconds: 20 };
    assert_eq!(p.backoff(1), 20);
    assert_eq!(p.backoff(9), 20);
}

#[test]
fn backoff_without_base_delay_is_immediate() {
    let p = RetryPolicy { max_attempts: 5, base_delay_seconds: 0, max_delay_seconds: 20 };
    assert_eq!(p.backoff(1), 0);
    assert_eq!(p.backoff(u32::MAX), 0);
}

#[test]
fn backoff_does_not_overflow() {
    let p = RetryPolicy { max_attempts: 5, base_delay_seconds: 1, max_delay_seconds: u64::MAX };
    assert_eq!(p.backoff(1), 1);
    assert_eq!(p.backoff(64), 1 << 63);
    assert_eq!(p.backoff(65), u64::MAX);
    assert_eq!(p.backoff(1000), u64::MAX);
}

#[test]
fn decide_retries_while_attempts_remain() {
    let p = policy();
    assert_eq!(p.decide(1), RetryDecision::RetryAfter { seconds: 3 });
    assert_eq!(p.decide(4), RetryDecision::RetryAfter { seconds: 20 });
    assert_eq!(p.decide(5), RetryDecision::GiveUp);
    assert_eq!(p.decide(6), RetryDecision::GiveUp);
}

#[test]
fn decide_with_no_attempts_gives_up() {
    let p = RetryPolicy { max_attempts: 0, base_delay_seconds: 3, max_delay_seconds: 20 };
    assert_eq!(p.decide(0), RetryDecision::GiveUp);
    assert_eq!(p.decide(1), RetryDecision::GiveUp);
}

#[test]
fn trigger_asks_for_a_swap_strictly_below_the_floor() {
    let floor = ThresholdConfig { floor: 100 };
    let at = |value: i64| BalanceReading { value, taken_at: 0 };
    assert_eq!(floor.trigger(&at(99)), Some(TransactionRequest::Swap { shortfall: 1 }));
    assert_eq!(floor.trigger(&at(0)), Some(TransactionRequest::Swap { shortfall: 100 }));
    assert_eq!(floor.trigger(&at(100)), None);
    assert_eq!(floor.trigger(&at(101)), None);
    assert_eq!(floor.trigger(&at(i64::MAX)), None);
    assert_eq!(floor.trigger(&at(-1)), Some(TransactionRequest::Swap { shortfall: 101 }));
    assert_eq!(
        floor.trigger(&at(i64::MIN)),
        Some(TransactionRequest::Swap { shortfall: (1u64 << 63) + 100 })
    );
    assert!(floor.is_below(&at(99)));
    assert!(!floor.is_below(&at(100)));
    assert_eq!(floor.missing(&at(80)), 20);
    assert_eq!(floor.missing(&at(100)), 0);
    assert_eq!(floor.missing(&at(200)), 0);
}

#[test]
fn only_an_overdrawn_balance_is_below_a_floor_of_zero() {
    let floor = ThresholdConfig { floor: 0 };
    assert_eq!(floor.trigger(&BalanceReading { value: 0, taken_at: 0 }), None);
    assert_eq!(
        floor.trigger(&BalanceReading { value: -3, taken_at: 0 }),
        Some(TransactionRequest::Swap { shortfall: 3 })
    );
}

#[test]
fn shortfall_spans_the_whole_signed_range() {
    let floor = ThresholdConfig { floor: i64::MAX };
    assert_eq!(floor.missing(&BalanceReading { value: i64::MIN, taken_at: 0 }), u64::MAX);
    let floor = ThresholdConfig { floor: i64::MIN };
    assert_eq!(floor.missing(&BalanceReading { value: i64::MIN, taken_at: 0 }), 0);
    assert!(!floor.is_below(&BalanceReading { value: i64::MIN, taken_at: 0 }));
}
