use code_playground::circuit_breaker::{CircuitBreaker, CircuitState};

#[test]
fn opens_after_threshold_failures() {
    let mut cb = CircuitBreaker::new("rust-playground", 3, 60_000);
    assert_eq!(cb.state(), CircuitState::Closed);
    cb.record_failure_at(1_000);
    cb.record_failure_at(1_000);
    assert_eq!(cb.state(), CircuitState::Closed);
    assert_eq!(cb.allow_request_at(1_000), Ok(()));
    cb.record_failure_at(1_000);
    assert_eq!(cb.state(), CircuitState::Open);
    assert_eq!(cb.allow_request_at(30_000), Err(CircuitState::Open));
    assert_eq!(cb.allow_request_at(60_999), Err(CircuitState::Open));
    assert_eq!(cb.stats().total_rejections, 2);
}

#[test]
fn cooldown_lets_probe_through_and_failure_reopens() {
    let mut cb = CircuitBreaker::new("go-playground", 2, 60_000);
    cb.record_failure_at(0);
    cb.record_failure_at(0);
    assert_eq!(cb.allow_request_at(60_000), Ok(()));
    assert_eq!(cb.state(), CircuitState::HalfOpen);
    // The probe is out: further requests wait for its outcome.
    assert_eq!(cb.allow_request_at(60_001), Err(CircuitState::Open));
    assert_eq!(cb.state(), CircuitState::HalfOpen);
    cb.record_failure_at(61_000);
    assert_eq!(cb.state(), CircuitState::Open);
    assert_eq!(cb.allow_request_at(120_999), Err(CircuitState::Open));
    assert_eq!(cb.allow_request_at(121_000), Ok(()));
}

#[test]
fn success_closes_and_clears_failures() {
    let mut cb = CircuitBreaker::new("x", 1, 10);
    cb.record_failure_at(5);
    assert_eq!(cb.state(), CircuitState::Open);
    cb.record_success();
    assert_eq!(cb.state(), CircuitState::Closed);
    let s = cb.stats();
    assert_eq!(s.failure_count, 0);
    assert_eq!(s.total_successes, 1);
    assert_eq!(s.total_failures, 1);
    assert_eq!(s.state, "closed");
}

#[test]
fn stats_report_state_names_and_cooldown_seconds() {
    let mut cb = CircuitBreaker::new("rust-playground", 1, 61_500);
    let s = cb.stats();
    assert_eq!(s.name, "rust-playground");
    assert_eq!(s.cooldown_secs, 61);
    assert_eq!(s.failure_threshold, 1);
    cb.record_failure_at(0);
    assert_eq!(cb.stats().state, "open");
    cb.allow_request_at(100_000).unwrap();
    assert_eq!(cb.stats().state, "half_open");
    assert_eq!(CircuitState::HalfOpen.to_string(), "half_open");
}

#[test]
fn clock_driven_calls_keep_state_machine() {
    let mut cb = CircuitBreaker::new("clock", 1, 3_600_000);
    assert!(cb.allow_request().is_ok());
    cb.record_failure();
    assert_eq!(cb.state(), CircuitState::Open);
    assert_eq!(cb.allow_request(), Err(CircuitState::Open));
}

#[test]
fn half_open_probe_success_closes_and_admits_again() {
    let mut cb = CircuitBreaker::new("probe", 1, 1_000);
    cb.record_failure_at(0);
    assert_eq!(cb.allow_request_at(1_000), Ok(()));
    assert_eq!(cb.allow_request_at(1_001), Err(CircuitState::Open));
    assert_eq!(cb.allow_request_at(5_000), Err(CircuitState::Open));
    assert_eq!(cb.stats().total_rejections, 2);
    cb.record_success();
    assert_eq!(cb.state(), CircuitState::Closed);
    assert_eq!(cb.allow_request_at(5_001), Ok(()));
    assert_eq!(cb.allow_request_at(5_002), Ok(()));
}
