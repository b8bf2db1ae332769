use std::time::Duration;

use argentor_agent::circuit_breaker::{CircuitBreaker, CircuitBreakerRegistry, CircuitConfig, CircuitState};

fn breaker() -> CircuitBreaker {
    CircuitBreaker::new(CircuitConfig::new(3).with_recovery_timeout(Duration::from_millis(50)))
}

#[test]
fn test_initial_state() {
    let b = breaker();
    assert_eq!(b.state(), CircuitState::Closed);
}

#[test]
fn test_closed_allows() {
    let mut b = breaker();
    assert!(b.allow_request());
}

#[test]
fn test_opens_after_threshold() {
    let mut b = breaker();
    for _ in 0..3 {
        b.record_failure();
    }
    assert_eq!(b.state(), CircuitState::Open);
}

#[test]
fn test_open_rejects() {
    let mut b = breaker();
    for _ in 0..3 {
        b.record_failure();
    }
    assert!(!b.allow_request());
}

#[test]
fn test_success_resets_failures() {
    let mut b = breaker();
    b.record_failure();
    b.record_failure();
    b.record_success();
    assert_eq!(b.state(), CircuitState::Closed);
    b.record_failure();
    b.record_failure();
    assert_eq!(b.state(), CircuitState::Closed);
}

#[test]
fn test_status() {
    let mut b = breaker();
    b.record_success();
    b.record_failure();

    let s = b.status();
    assert_eq!(s.state, CircuitState::Closed);
    assert_eq!(s.total_successes, 1);
    assert_eq!(s.total_failures, 1);
    assert_eq!(s.consecutive_failures, 1);
}

#[test]
fn test_rejected_count() {
    let mut b = breaker();
    for _ in 0..3 {
        b.record_failure();
    }
    b.allow_request();
    b.allow_request();

    let s = b.status();
    assert_eq!(s.total_rejected, 2);
}

#[test]
fn test_force_state() {
    let mut b = breaker();
    b.force_state(CircuitState::Open);
    assert_eq!(b.state(), CircuitState::Open);

    b.force_state(CircuitState::Closed);
    assert_eq!(b.state(), CircuitState::Closed);
    assert_eq!(b.status().consecutive_failures, 0);
}

#[test]
fn test_reset() {
    let mut b = breaker();
    b.record_failure();
    b.record_failure();
    b.record_failure();
    b.reset();

    assert_eq!(b.state(), CircuitState::Closed);
    assert_eq!(b.status().total_failures, 0);
}

#[test]
fn test_registry_auto_register() {
    let reg = CircuitBreakerRegistry::default();
    assert!(reg.allow_request("openai"));
    assert_eq!(reg.count(), 1);
}

#[test]
fn test_registry_per_provider() {
    let reg = CircuitBreakerRegistry::default();
    for _ in 0..5 {
        reg.record_failure("openai");
    }
    assert!(!reg.allow_request("openai"));
    assert!(reg.allow_request("anthropic"));
}

#[test]
fn test_registry_all_statuses() {
    let reg = CircuitBreakerRegistry::default();
    reg.allow_request("a");
    reg.allow_request("b");
    let statuses = reg.all_statuses();
    assert_eq!(statuses.len(), 2);
}

#[test]
fn test_registry_status() {
    let reg = CircuitBreakerRegistry::default();
    reg.allow_request("test");
    reg.record_failure("test");
    let s = reg.status("test").unwrap();
    assert_eq!(s.total_failures, 1);
}

#[test]
fn test_registry_missing() {
    let reg = CircuitBreakerRegistry::default();
    assert!(reg.status("nonexistent").is_none());
}

#[test]
fn test_config_defaults() {
    let c = CircuitConfig::default();
    assert_eq!(c.failure_threshold, 5);
    assert_eq!(c.success_threshold, 2);
}

#[test]
fn test_registry_clone() {
    let r1 = CircuitBreakerRegistry::default();
    let r2 = r1.clone();
    r1.allow_request("shared");
    assert_eq!(r2.count(), 1);
}

#[test]
fn test_many_failures() {
    let mut b = breaker();
    for _ in 0..100 {
        b.record_failure();
    }
    assert_eq!(b.state(), CircuitState::Open);
    assert_eq!(b.status().total_failures, 100);
}

#[test]
fn test_registry_custom_config() {
    let reg = CircuitBreakerRegistry::default();
    reg.register("custom", CircuitConfig::new(1));
    reg.record_failure("custom");
    assert!(!reg.allow_request("custom"));
}

#[test]
fn half_open_after_elapsed_timeout_and_closing_after_successes() {
    let mut b = CircuitBreaker::new(
        CircuitConfig::new(2).with_recovery_timeout(Duration::from_millis(0)).with_success_threshold(2),
    );
    b.record_failure();
    b.record_failure();
    assert_eq!(b.state(), CircuitState::Open);
    assert!(b.allow_request_after(true));
    assert_eq!(b.state(), CircuitState::HalfOpen);
    b.record_success();
    assert_eq!(b.state(), CircuitState::HalfOpen);
    b.record_success();
    assert_eq!(b.state(), CircuitState::Closed);
}

#[test]
fn half_open_failure_reopens() {
    let mut b = breaker();
    for _ in 0..3 {
        b.record_failure();
    }
    assert!(b.allow_request_after(true));
    b.record_failure();
    assert_eq!(b.state(), CircuitState::Open);
}

#[test]
fn open_breaker_stays_open_before_timeout() {
    let mut b = breaker();
    for _ in 0..3 {
        b.record_failure();
    }
    assert!(!b.allow_request_after(false));
    assert_eq!(b.state(), CircuitState::Open);
    assert_eq!(b.status().total_rejected, 1);
}

#[test]
fn half_open_lets_one_probe_through_until_its_outcome() {
    let mut b = CircuitBreaker::new(
        CircuitConfig::new(2).with_recovery_timeout(Duration::from_millis(0)).with_success_threshold(2),
    );
    b.record_failure();
    b.record_failure();
    assert!(b.allow_request());
    assert_eq!(b.state(), CircuitState::HalfOpen);
    assert!(!b.allow_request());
    assert_eq!(b.status().total_rejected, 1);
    b.record_success();
    assert_eq!(b.state(), CircuitState::HalfOpen);
    assert!(b.allow_request());
    assert!(!b.allow_request());
    assert_eq!(b.status().total_rejected, 2);
    b.record_success();
    assert_eq!(b.state(), CircuitState::Closed);
    assert!(b.allow_request());
    assert!(b.allow_request());
}

#[test]
fn config_new_keeps_default_recovery_timeout() {
    let c = CircuitConfig::new(7);
    assert_eq!(c.failure_threshold, 7);
    assert_eq!(c.recovery_timeout, Duration::from_secs(30));
    assert_eq!(c.success_threshold, 2);
    assert_eq!(c.window_size, 10);
}
