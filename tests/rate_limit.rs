use tauri_auth_core::auth::check_login_rate_limit;
use tauri_auth_core::rate_limit::RateLimiter;

const S: u128 = 1_000_000_000;

#[test]
fn window_boundary() {
    let mut limiter = RateLimiter::new();
    assert!(limiter.check_rate_limit_at("k", 2, 10, 0 * S));
    assert!(limiter.check_rate_limit_at("k", 2, 10, 1 * S));
    assert!(!limiter.check_rate_limit_at("k", 2, 10, 2 * S));
    assert!(limiter.check_rate_limit_at("k", 2, 10, 11 * S));
}

#[test]
fn attempt_exactly_window_old_is_expired() {
    let mut limiter = RateLimiter::new();
    assert!(limiter.check_rate_limit_at("k", 1, 10, 5 * S));
    assert!(!limiter.check_rate_limit_at("k", 1, 10, 14 * S));
    assert!(limiter.check_rate_limit_at("k", 1, 10, 15 * S));
}

#[test]
fn keys_are_independent() {
    let mut limiter = RateLimiter::new();
    assert!(limiter.check_rate_limit_at("a", 1, 10, 0 * S));
    assert!(!limiter.check_rate_limit_at("a", 1, 10, 0 * S));
    assert!(limiter.check_rate_limit_at("b", 1, 10, 0 * S));
    assert!(!limiter.check_rate_limit_at("b", 1, 10, 1 * S));
    assert!(!limiter.check_rate_limit_at("a", 1, 10, 1 * S));
}

#[test]
fn no_over_admission() {
    let mut limiter = RateLimiter::new();
    let mut allowed = 0;
    for i in 0..20u64 {
        if limiter.check_rate_limit_at("k", 7, 300, (100 + i as u128 / 4) * S) {
            allowed += 1;
        }
    }
    assert_eq!(allowed, 7);
}

#[test]
fn refused_attempts_are_not_recorded() {
    let mut limiter = RateLimiter::new();
    assert!(limiter.check_rate_limit_at("k", 2, 10, 0 * S));
    assert!(limiter.check_rate_limit_at("k", 2, 10, 5 * S));
    for t in 6..10u128 {
        assert!(!limiter.check_rate_limit_at("k", 2, 10, t * S));
    }
    // Only the attempt at 0 has aged out; the refused ones never counted.
    assert!(limiter.check_rate_limit_at("k", 2, 10, 10 * S));
    assert!(!limiter.check_rate_limit_at("k", 2, 10, 14 * S));
    assert!(limiter.check_rate_limit_at("k", 2, 10, 15 * S));
}

#[test]
fn zero_attempts_allows_nothing() {
    let mut limiter = RateLimiter::new();
    assert!(!limiter.check_rate_limit_at("k", 0, 10, 0 * S));
    assert!(!limiter.check_rate_limit_at("k", 0, 10, 100 * S));
}

#[test]
fn clock_going_back_counts_as_fresh() {
    let mut limiter = RateLimiter::new();
    assert!(limiter.check_rate_limit_at("k", 1, 10, 50 * S));
    assert!(!limiter.check_rate_limit_at("k", 1, 10, 20 * S));
}

#[test]
fn live_clock_limits_immediate_retries() {
    let mut limiter = RateLimiter::new();
    assert!(limiter.check_rate_limit("k", 2, 3600));
    assert!(limiter.check_rate_limit("k", 2, 3600));
    assert!(!limiter.check_rate_limit("k", 2, 3600));
    assert!(limiter.check_rate_limit("other", 2, 3600));
}

#[test]
fn login_allows_five_attempts() {
    let mut limiter = RateLimiter::new();
    for _ in 0..5 {
        assert_eq!(check_login_rate_limit("10.0.0.1".to_string(), &mut limiter), Ok(true));
    }
    assert_eq!(check_login_rate_limit("10.0.0.1".to_string(), &mut limiter), Ok(false));
    assert_eq!(check_login_rate_limit("10.0.0.2".to_string(), &mut limiter), Ok(true));
}

#[test]
fn age_is_measured_below_the_second() {
    let mut limiter = RateLimiter::new();
    assert!(limiter.check_rate_limit_at("k", 1, 10, 900_000_000));
    // 9.2 s later: still inside the window.
    assert!(!limiter.check_rate_limit_at("k", 1, 10, 10_100_000_000));
    // Exactly 10 s after the first attempt it has expired.
    assert!(limiter.check_rate_limit_at("k", 1, 10, 10_900_000_000));
}
