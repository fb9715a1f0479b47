use tx_builder::rate_limit::{contains_retryable_pattern, CircuitBreaker, CircuitState, RetryPolicy, TokenBucket};

#[test]
fn test_bucket_allows_a_burst_of_its_capacity() {
    let mut b = TokenBucket::new(3, 1, 1_000);
    assert!(b.try_consume(1, 1_000));
    assert!(b.try_consume(1, 1_000));
    assert!(b.try_consume(1, 1_000));
    assert!(!b.try_consume(1, 1_000));
    assert_eq!(b.available_milli(), 0);
}

#[test]
fn test_bucket_refills_with_time() {
    let mut b = TokenBucket::new(2, 2, 0);
    assert!(b.try_consume(2, 0));
    assert!(!b.try_consume(1, 250));
    assert_eq!(b.available_milli(), 500);
    assert!(b.try_consume(1, 500));
    assert_eq!(b.available_milli(), 0);
}

#[test]
fn test_bucket_never_exceeds_capacity() {
    let mut b = TokenBucket::new(5, 100, 0);
    assert!(b.try_consume(0, 1_000_000));
    assert_eq!(b.available_milli(), 5_000);
    assert!(!b.try_consume(6, 2_000_000));
    assert_eq!(b.available_milli(), 5_000);
}

#[test]
fn test_rate_limiter_for_zero_rate_is_none() {
    assert!(TokenBucket::for_rate(0, 5).is_none());
    let b = TokenBucket::for_rate(20, 5).unwrap();
    assert_eq!(b.available_milli(), 20_000);
}

#[test]
fn test_breaker_opens_after_threshold() {
    let mut cb = CircuitBreaker::new(3, 1_000);
    assert!(cb.can_execute(0));
    cb.record_failure(10);
    cb.record_failure(20);
    assert_eq!(cb.get_state(), CircuitState::Closed);
    assert!(cb.can_execute(25));
    cb.record_failure(30);
    assert_eq!(cb.get_state(), CircuitState::Open);
    assert_eq!(cb.get_failure_count(), 3);
    assert!(!cb.can_execute(500));
    assert!(!cb.can_execute(1_029));
    assert_eq!(cb.get_state(), CircuitState::Open);
}

#[test]
fn test_breaker_recovers_through_half_open() {
    let mut cb = CircuitBreaker::new(1, 1_000);
    cb.record_failure(0);
    assert_eq!(cb.get_state(), CircuitState::Open);
    assert!(cb.can_execute(1_000));
    assert_eq!(cb.get_state(), CircuitState::HalfOpen);
    cb.record_success();
    assert_eq!(cb.get_state(), CircuitState::HalfOpen);
    cb.record_success();
    assert_eq!(cb.get_state(), CircuitState::Closed);
    assert_eq!(cb.get_failure_count(), 0);
}

#[test]
fn test_breaker_success_clears_failures_when_closed() {
    let mut cb = CircuitBreaker::new(5, 1_000);
    cb.record_failure(1);
    cb.record_failure(2);
    assert_eq!(cb.get_failure_count(), 2);
    cb.record_success();
    assert_eq!(cb.get_failure_count(), 0);
}

#[test]
fn test_breaker_forced_states() {
    let mut cb = CircuitBreaker::new(5, 60_000);
    cb.force_open(100);
    assert_eq!(cb.get_state(), CircuitState::Open);
    assert!(!cb.can_execute(200));
    cb.force_reset();
    assert_eq!(cb.get_state(), CircuitState::Closed);
    assert_eq!(cb.get_failure_count(), 0);
    assert!(cb.can_execute(200));
}

#[test]
fn test_retry_policy_classifies_errors() {
    let p = RetryPolicy::default();
    assert!(p.is_retryable("Connection refused"));
    assert!(p.is_retryable("request TIMEOUT"));
    assert!(p.is_retryable("HTTP 503 Service Unavailable"));
    assert!(p.is_retryable("Too Many Requests"));
    assert!(!p.is_retryable("invalid signature"));
    assert!(!p.is_retryable(""));
}

#[test]
fn test_retry_delays_double_up_to_the_cap() {
    let p = RetryPolicy::default();
    let delays: Vec<u64> = (0..8).map(|a| p.delay_for_attempt(a)).collect();
    assert_eq!(delays, vec![50, 100, 200, 400, 800, 1600, 2000, 2000]);
    assert_eq!(p.delay_for_attempt(usize::MAX), 2000);
}

#[test]
fn test_retry_delays_with_fractional_factor() {
    let p = RetryPolicy { max_attempts: 3, initial_delay_ms: 50, max_delay_ms: 2000, backoff_multiplier_permille: 1500 };
    assert_eq!(p.delay_for_attempt(1), 75);
    assert_eq!(p.delay_for_attempt(2), 112);
    let shrinking = RetryPolicy { max_attempts: 3, initial_delay_ms: 4000, max_delay_ms: 2000, backoff_multiplier_permille: 500 };
    assert_eq!(shrinking.delay_for_attempt(0), 2000);
    assert_eq!(shrinking.delay_for_attempt(1), 2000);
    assert_eq!(shrinking.delay_for_attempt(2), 1000);
}

#[test]
fn test_retry_delay_rounds_the_whole_product_once() {
    // 50 ms x 1.5^4 = 253.125 ms; 50 ms x 1.1^4 = 73.205 ms
    let p = RetryPolicy { max_attempts: 5, initial_delay_ms: 50, max_delay_ms: 2000, backoff_multiplier_permille: 1500 };
    assert_eq!(p.delay_for_attempt(3), 168);
    assert_eq!(p.delay_for_attempt(4), 253);
    let q = RetryPolicy { max_attempts: 5, initial_delay_ms: 50, max_delay_ms: 2000, backoff_multiplier_permille: 1100 };
    assert_eq!(q.delay_for_attempt(4), 73);
}

#[test]
fn test_retry_delay_with_unit_or_shrinking_factor_ends() {
    let flat = RetryPolicy { max_attempts: 3, initial_delay_ms: 70, max_delay_ms: 2000, backoff_multiplier_permille: 1000 };
    assert_eq!(flat.delay_for_attempt(usize::MAX), 70);
    let shrinking = RetryPolicy { max_attempts: 3, initial_delay_ms: 4000, max_delay_ms: 2000, backoff_multiplier_permille: 500 };
    assert_eq!(shrinking.delay_for_attempt(usize::MAX), 0);
    let slow = RetryPolicy { max_attempts: 3, initial_delay_ms: 50, max_delay_ms: 2000, backoff_multiplier_permille: 999 };
    assert_eq!(slow.delay_for_attempt(usize::MAX), 0);
    let creeping = RetryPolicy { max_attempts: 3, initial_delay_ms: 50, max_delay_ms: 2000, backoff_multiplier_permille: 1001 };
    assert_eq!(creeping.delay_for_attempt(usize::MAX), 2000);
    let huge = RetryPolicy { max_attempts: 3, initial_delay_ms: u64::MAX, max_delay_ms: u64::MAX, backoff_multiplier_permille: u64::MAX };
    assert_eq!(huge.delay_for_attempt(1), u64::MAX);
}

#[test]
fn test_retryable_patterns_on_lowercase_text() {
    assert!(contains_retryable_pattern("request timeout after 5s"));
    assert!(contains_retryable_pattern("http 503 service unavailable"));
    assert!(contains_retryable_pattern("too many requests"));
    assert!(!contains_retryable_pattern("Timeout"));
    assert!(!contains_retryable_pattern("invalid signature"));
    assert!(!contains_retryable_pattern(""));
}
