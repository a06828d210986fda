use jupiter::utils::time::{
    fallback_timestamp, safe_timestamp, safe_timestamp_millis, safe_timestamp_with_fallback,
    sanitize_timestamp, seconds_from_reading, validate_timestamp, MonotonicTimer, TimeError,
};
use std::time::{Duration, Instant};


fn pause(d: Duration) {
    let start = Instant::now();
    while start.elapsed() < d {
        std::hint::spin_loop();
    }
}

#[test]
fn test_safe_timestamp() {
    let result = safe_timestamp();
    assert!(result.is_ok());
    let timestamp = result.unwrap();
    assert!(timestamp > 0);
    assert!(timestamp < i64::MAX);
}

#[test]
fn test_safe_timestamp_with_fallback() {
    let timestamp = safe_timestamp_with_fallback();
    assert!(timestamp > 0);
}

#[test]
fn test_validate_timestamp() {
    assert!(validate_timestamp(1700000000).is_ok());

    assert!(validate_timestamp(0).is_err());

    assert!(validate_timestamp(i64::MAX).is_err());

    assert!(validate_timestamp(946684799).is_err());
}

#[test]
fn test_sanitize_timestamp() {
    let valid = sanitize_timestamp(1700000000);
    assert_eq!(valid, 1700000000);

    let invalid = sanitize_timestamp(-1);
    assert!(invalid > 0);
}

#[test]
fn test_monotonic_timer() {
    let timer = MonotonicTimer::new();
    pause(Duration::from_millis(100));

    let elapsed_millis = timer.elapsed_millis();
    assert!(elapsed_millis >= 100);
    assert!(elapsed_millis < 2000);
    assert_eq!(timer.elapsed_secs(), 0);
}

#[test]
fn test_last_known_timestamp_fallback() {
    let first = safe_timestamp().unwrap();

    let fallback = fallback_timestamp(Err(TimeError::SystemTimeError("clock".to_string())), first);
    assert!(fallback > 0);
    assert_eq!(fallback, first);
}

#[test]
fn test_safe_timestamp_millis() {
    let result = safe_timestamp_millis();
    assert!(result.is_ok());
    let millis = result.unwrap();
    assert!(millis > 1000000000000);
}

#[test]
fn fallback_without_last_known_uses_estimate() {
    let err = || Err(TimeError::SystemTimeError("clock".to_string()));
    assert_eq!(fallback_timestamp(err(), 0), 1700000000);
    assert_eq!(fallback_timestamp(err(), -5), 1700000000);
    assert_eq!(fallback_timestamp(Ok(42), 7), 42);
}

#[test]
fn validate_timestamp_bounds() {
    assert_eq!(validate_timestamp(946684800).unwrap(), 946684800);
    assert_eq!(validate_timestamp(2147483647).unwrap(), 2147483647);
    match validate_timestamp(2147483648) {
        Err(TimeError::InvalidTimestamp(t)) => assert_eq!(t, 2147483648),
        other => panic!("unexpected {:?}", other),
    }
}

#[test]
fn clock_reading_in_seconds() {
    assert_eq!(seconds_from_reading(Ok(1_700_000_123_456)).unwrap(), 1_700_000_123);
    match seconds_from_reading(Err("before epoch".to_string())) {
        Err(TimeError::SystemTimeError(m)) => assert_eq!(m, "before epoch"),
        other => panic!("unexpected {:?}", other),
    }
}

#[test]
fn time_error_messages() {
    assert_eq!(TimeError::InvalidTimestamp(-42).message(), "Invalid timestamp: -42");
    assert_eq!(TimeError::InvalidTimestamp(7).message(), "Invalid timestamp: 7");
    assert_eq!(
        TimeError::InvalidTimestamp(i64::MIN).message(),
        "Invalid timestamp: -9223372036854775808"
    );
    assert_eq!(TimeError::SystemTimeError("x".to_string()).message(), "System time error: x");
}
