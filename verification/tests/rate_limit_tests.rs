// The token-bucket rate limiter, driven with an explicit millisecond clock.

use ndict::rate_limit::CommandRateLimiter;

#[test]
fn test_command_rate_limiter_new() {
    let limiter = CommandRateLimiter::new(10, 20, true);
    assert!(limiter.enabled);
}

#[test]
fn test_command_rate_limiter_disabled() {
    let mut limiter = CommandRateLimiter::new(10, 20, false);
    assert!(!limiter.enabled);
    assert!(limiter.check(0));
}

#[test]
fn test_command_rate_limiter_check_allowed() {
    let mut limiter = CommandRateLimiter::new(10, 20, true);
    // First request should be allowed
    assert!(limiter.check(0));
}

#[test]
fn test_command_rate_limiter_burst() {
    let mut limiter = CommandRateLimiter::new(10, 20, true);

    // Test burst capacity - allow up to 20 requests instantly
    for _ in 0..20 {
        assert!(limiter.check(0), "Burst capacity should allow 20 requests");
    }

    // Next request should be rate limited
    assert!(!limiter.check(0), "Should be rate limited after burst exhausted");
}

#[test]
fn test_command_rate_limiter_acquire() {
    let mut limiter = CommandRateLimiter::new(10, 20, true);
    assert_eq!(limiter.acquire(0), 0);
}

#[test]
fn test_command_rate_limiter_acquire_disabled() {
    let mut limiter = CommandRateLimiter::new(10, 20, false);
    assert_eq!(limiter.acquire(0), 0);
}

#[test]
fn test_burst_exact_for_small_capacity() {
    // With burst capacity B, exactly B same-instant checks succeed and the
    // next fails, for a few values of B.
    for b in 1u32..6 {
        let mut limiter = CommandRateLimiter::new(10, b, true);
        for i in 0..b {
            assert!(limiter.check(5), "check {} of burst {} should pass", i, b);
        }
        assert!(!limiter.check(5), "check past burst {} should fail", b);
    }
}

#[test]
fn test_disabled_limiter_allows_everything() {
    let mut limiter = CommandRateLimiter::new(1, 1, false);
    for _ in 0..50 {
        assert!(limiter.check(0));
    }
}

#[test]
fn test_tokens_refill_over_time() {
    let mut limiter = CommandRateLimiter::new(10, 1, true);
    assert!(limiter.check(0));
    assert!(!limiter.check(0));
    // 10 commands per second: a token is back after 100 ms.
    assert!(limiter.check(100));
}

#[test]
fn test_acquire_reports_wait() {
    let mut limiter = CommandRateLimiter::new(10, 1, true);
    assert_eq!(limiter.acquire(0), 0);
    // The bucket is empty; at 10 tokens a second the next token takes 100 ms.
    assert_eq!(limiter.acquire(0), 100);
}
