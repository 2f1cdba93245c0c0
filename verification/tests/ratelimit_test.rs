use xfiles::ratelimit::RateLimiter;

#[test]
fn test_rate_limiter_allows_under_limit() {
    let mut limiter = RateLimiter::new(3, 60);
    assert!(limiter.check("client-a"));
    assert!(limiter.check("client-a"));
    assert!(limiter.check("client-a"));
}

#[test]
fn test_rate_limiter_blocks_over_limit() {
    let mut limiter = RateLimiter::new(2, 60);
    assert!(limiter.check("client-b"));
    assert!(limiter.check("client-b"));
    assert!(!limiter.check("client-b"));
}

#[test]
fn test_rate_limiter_isolated_per_key() {
    let mut limiter = RateLimiter::new(1, 60);
    assert!(limiter.check("client-c"));
    assert!(!limiter.check("client-c"));
    assert!(limiter.check("client-d"));
}

#[test]
fn test_rate_limiter_zero_config_clamped() {
    let mut limiter = RateLimiter::new(0, 0);
    assert!(limiter.check("client-e"));
    assert!(!limiter.check("client-e"));
    assert!(limiter.check("client-f"));
}

#[test]
fn bucket_refills_with_time() {
    let mut limiter = RateLimiter::new(2, 60);
    let second: u64 = 1_000_000_000;
    assert!(limiter.check_at("k", 0));
    assert!(limiter.check_at("k", 0));
    assert!(!limiter.check_at("k", 0));
    // Two tokens per minute: one comes back after 30 seconds.
    assert!(!limiter.check_at("k", 29 * second));
    assert!(limiter.check_at("k", 30 * second));
    assert!(!limiter.check_at("k", 30 * second));
}
