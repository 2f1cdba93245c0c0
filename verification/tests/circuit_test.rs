use xfiles::circuit::{CircuitBreaker, CircuitState};

const SECOND: u64 = 1_000_000_000;

#[test]
fn test_circuit_starts_closed() {
    let mut cb = CircuitBreaker::new(3, 1, 1);
    assert!(cb.allow("ep-1"));
    assert_eq!(cb.get_state("ep-1"), CircuitState::Closed);
}

#[test]
fn test_circuit_opens_after_failures() {
    let mut cb = CircuitBreaker::new(3, 1, 1);
    cb.record_failure("ep-1");
    cb.record_failure("ep-1");
    assert!(cb.allow("ep-1")); // still closed at 2 failures
    cb.record_failure("ep-1");
    assert_eq!(cb.get_state("ep-1"), CircuitState::Open);
    assert!(!cb.allow("ep-1"));
}

#[test]
fn test_circuit_half_open_then_closes() {
    let mut cb = CircuitBreaker::new(2, 1, 1);
    cb.record_failure_at("ep-1", 0);
    cb.record_failure_at("ep-1", 0);
    assert_eq!(cb.get_state("ep-1"), CircuitState::Open);

    // Two seconds later the recovery timeout has passed.
    assert!(cb.allow_at("ep-1", 2 * SECOND)); // half-open
    assert_eq!(cb.get_state("ep-1"), CircuitState::HalfOpen);

    cb.record_success("ep-1");
    assert_eq!(cb.get_state("ep-1"), CircuitState::Closed);
    assert!(cb.allow_at("ep-1", 2 * SECOND));
}

#[test]
fn test_circuit_half_open_then_reopens() {
    let mut cb = CircuitBreaker::new(2, 1, 1);
    cb.record_failure_at("ep-1", 0);
    cb.record_failure_at("ep-1", 0);

    assert!(cb.allow_at("ep-1", 2 * SECOND));
    cb.record_failure_at("ep-1", 2 * SECOND);
    assert_eq!(cb.get_state("ep-1"), CircuitState::Open);
    assert!(!cb.allow_at("ep-1", 2 * SECOND));
}

#[test]
fn circuit_with_real_clock_starts_closed() {
    let mut cb = CircuitBreaker::new(3, 1, 1);
    assert!(cb.allow("ep-1"));
    cb.record_failure("ep-1");
    assert_eq!(cb.failures("ep-1"), 1);
    assert_eq!(cb.get_state("ep-1"), CircuitState::Closed);
}

#[test]
fn open_circuit_stays_open_before_timeout() {
    let mut cb = CircuitBreaker::new(1, 5, 1);
    cb.record_failure_at("ep-1", 0);
    assert!(!cb.allow_at("ep-1", 5 * SECOND - 1));
    assert!(cb.allow_at("ep-1", 5 * SECOND));
    assert_eq!(cb.get_state("ep-1"), CircuitState::HalfOpen);
}

#[test]
fn half_open_admits_a_bounded_number_of_calls() {
    let mut cb = CircuitBreaker::new(1, 1, 2);
    cb.record_failure_at("ep-1", 0);
    assert!(cb.allow_at("ep-1", SECOND)); // opens to half-open, first call
    assert!(cb.allow_at("ep-1", SECOND));
    assert!(cb.allow_at("ep-1", SECOND));
    assert!(!cb.allow_at("ep-1", SECOND));
}

#[test]
fn success_in_closed_state_resets_failures() {
    let mut cb = CircuitBreaker::new(3, 1, 1);
    cb.record_failure_at("ep-1", 0);
    cb.record_failure_at("ep-1", 0);
    cb.record_success("ep-1");
    assert_eq!(cb.failures("ep-1"), 0);
    assert_eq!(cb.get_state("ep-1"), CircuitState::Closed);
}

#[test]
fn diagnostics_report_each_circuit() {
    let mut cb = CircuitBreaker::new(1, 1, 1);
    cb.record_failure_at("ep-1", 0);
    assert!(cb.allow_at("ep-2", 0));
    let mut d = cb.diagnostics();
    d.sort_by(|a, b| a.0.cmp(&b.0));
    assert_eq!(d.len(), 2);
    assert_eq!(d[0], ("ep-1".to_string(), CircuitState::Open, 1));
    assert_eq!(d[1], ("ep-2".to_string(), CircuitState::Closed, 0));
}
