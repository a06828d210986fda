use jupiter::auth::{check_credential, constant_time_eq, validate_auth_header, AuthRejection, RateLimiter};
use std::time::{Duration, Instant};


fn pause(d: Duration) {
    let start = Instant::now();
    while start.elapsed() < d {
        std::hint::spin_loop();
    }
}

#[test]
fn test_constant_time_eq() {
    assert!(constant_time_eq(b"hello", b"hello"));
    assert!(!constant_time_eq(b"hello", b"world"));
    assert!(!constant_time_eq(b"hello", b"hello!"));
    assert!(!constant_time_eq(b"", b"hello"));
}

#[test]
fn auth_test_rate_limiter() {
    let mut limiter = RateLimiter::new(3, 60);

    assert!(limiter.check_rate_limit("client1"));
    assert!(limiter.check_rate_limit("client1"));
    assert!(limiter.check_rate_limit("client1"));

    assert!(!limiter.check_rate_limit("client1"));

    assert!(limiter.check_rate_limit("client2"));
}

#[test]
fn auth_tests_test_constant_time_comparison() {
    assert!(constant_time_eq(b"api_key_123", b"api_key_123"));
    assert!(!constant_time_eq(b"api_key_123", b"api_key_124"));
    assert!(!constant_time_eq(b"short", b"longer_string"));
    assert!(constant_time_eq(b"", b""));
    assert!(!constant_time_eq(b"", b"non_empty"));
    assert!(constant_time_eq(b"key!@#$%^&*()", b"key!@#$%^&*()"));
    assert!(!constant_time_eq(b"key!@#$%^&*()", b"key!@#$%^&*()1"));
}

#[test]
fn test_rate_limiter_basic() {
    let mut limiter = RateLimiter::new(3, 1);

    assert!(limiter.check_rate_limit("client1"));
    assert!(limiter.check_rate_limit("client1"));
    assert!(limiter.check_rate_limit("client1"));
    assert!(!limiter.check_rate_limit("client1"));

    assert!(limiter.check_rate_limit("client2"));
    assert!(limiter.check_rate_limit("client2"));
    assert!(limiter.check_rate_limit("client2"));
    assert!(!limiter.check_rate_limit("client2"));
}

#[test]
fn auth_tests_test_rate_limiter_window_reset() {
    let mut limiter = RateLimiter::new(2, 1);

    assert!(limiter.check_rate_limit("client1"));
    assert!(limiter.check_rate_limit("client1"));
    assert!(!limiter.check_rate_limit("client1"));

    pause(Duration::from_secs(2));

    assert!(limiter.check_rate_limit("client1"));
    assert!(limiter.check_rate_limit("client1"));
    assert!(!limiter.check_rate_limit("client1"));
}

#[test]
fn test_rate_limiter_concurrent_clients() {
    let mut limiter = RateLimiter::new(5, 60);

    for i in 0..5 {
        assert!(limiter.check_rate_limit(&format!("client_{}", i)));
    }

    for i in 0..5 {
        for _ in 0..4 {
            assert!(limiter.check_rate_limit(&format!("client_{}", i)));
        }
        assert!(!limiter.check_rate_limit(&format!("client_{}", i)));
    }
}

#[test]
fn test_auth_header_validation_scenarios() {
    let valid_key = "valid_api_key_12345";
    assert!(constant_time_eq(valid_key.as_bytes(), b"valid_api_key_12345"));
    assert!(!constant_time_eq(valid_key.as_bytes(), b"wrong_api_key_12345"));
}

#[test]
fn test_timing_attack_resistance() {
    let correct_key = b"correct_api_key_12345";
    let wrong_at_start = b"wrong_api_key_12345XX";
    let wrong_at_end = b"correct_api_key_12XXX";
    let completely_wrong = b"XXXXXXXXXXXXXXXXXXXXX";

    assert!(!constant_time_eq(correct_key, wrong_at_start));
    assert!(!constant_time_eq(correct_key, wrong_at_end));
    assert!(!constant_time_eq(correct_key, completely_wrong));
}

#[test]
fn test_rate_limiter_allows_requests_within_limit() {
    let mut limiter = RateLimiter::new(3, 60);

    assert!(limiter.check_rate_limit("client1"));
    assert!(limiter.check_rate_limit("client1"));
    assert!(limiter.check_rate_limit("client1"));

    assert!(!limiter.check_rate_limit("client1"));
}

#[test]
fn test_rate_limiter_different_clients() {
    let mut limiter = RateLimiter::new(2, 60);

    assert!(limiter.check_rate_limit("client1"));
    assert!(limiter.check_rate_limit("client1"));
    assert!(!limiter.check_rate_limit("client1"));

    assert!(limiter.check_rate_limit("client2"));
    assert!(limiter.check_rate_limit("client2"));
    assert!(!limiter.check_rate_limit("client2"));
}

#[test]
fn error_handling_test_test_rate_limiter_window_reset() {
    let mut limiter = RateLimiter::new(2, 1);

    assert!(limiter.check_rate_limit("client1"));
    assert!(limiter.check_rate_limit("client1"));
    assert!(!limiter.check_rate_limit("client1"));

    pause(Duration::from_millis(1100));

    assert!(limiter.check_rate_limit("client1"));
}

#[test]
fn error_handling_test_test_constant_time_comparison() {
    assert!(constant_time_eq(b"hello", b"hello"));
    assert!(constant_time_eq(b"", b""));
    assert!(constant_time_eq(b"test123", b"test123"));

    assert!(!constant_time_eq(b"hello", b"world"));
    assert!(!constant_time_eq(b"hello", b"hello!"));
    assert!(!constant_time_eq(b"", b"hello"));

    assert!(!constant_time_eq(b"short", b"longer string"));
}

#[test]
fn per_client_window_on_explicit_clock() {
    let mut limiter = RateLimiter::new(2, 10);
    assert!(limiter.check_rate_limit_at("a", 0));
    assert!(limiter.check_rate_limit_at("a", 5_000));
    assert!(!limiter.check_rate_limit_at("a", 9_999));
    // the first call is 10 s old at 10_000 ms and leaves the window
    assert!(limiter.check_rate_limit_at("a", 10_000));
    assert!(!limiter.check_rate_limit_at("a", 10_001));
    assert!(limiter.check_rate_limit_at("b", 10_001));
}

#[test]
fn zero_attempt_limiter_refuses_everyone() {
    let mut limiter = RateLimiter::new(0, 60);
    assert!(!limiter.check_rate_limit_at("a", 0));
    assert!(!limiter.check_rate_limit_at("b", 100));
}

#[test]
fn credential_check() {
    assert_eq!(check_credential(Some("key"), "key"), Ok(()));
    assert_eq!(check_credential(Some("kex"), "key"), Err(AuthRejection::Unauthorized));
    assert_eq!(check_credential(None, "key"), Err(AuthRejection::Unauthorized));
    assert_eq!(AuthRejection::Unauthorized.status_code(), 401);
    assert_eq!(AuthRejection::TooManyRequests.status_code(), 429);
}

#[test]
fn auth_checks_rate_before_credential() {
    let mut limiter = RateLimiter::new(2, 60);
    assert_eq!(validate_auth_header(&mut limiter, "ip", Some("k"), "k"), Ok(()));
    assert_eq!(
        validate_auth_header(&mut limiter, "ip", None, "k"),
        Err(AuthRejection::Unauthorized)
    );
    assert_eq!(
        validate_auth_header(&mut limiter, "ip", Some("k"), "k"),
        Err(AuthRejection::TooManyRequests)
    );
    assert_eq!(validate_auth_header(&mut limiter, "other", Some("k"), "k"), Ok(()));
}
