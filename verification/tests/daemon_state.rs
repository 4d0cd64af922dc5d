use uc_cli::health::{
    maybe_auto_recover_daemon_health, record_daemon_failure, record_daemon_rate_limit,
    record_daemon_success, DaemonHealth,
};
use uc_cli::protocol::{screen_daemon_request, Admission};
use uc_cli::rate_limit::DaemonRateLimiter;

#[test]
fn rate_limiter_allows_thirty_two_requests_per_second() {
    let mut limiter = DaemonRateLimiter::new();
    for i in 0..32 {
        assert!(limiter.allow(1_000 + i), "request {i}");
    }
    assert!(!limiter.allow(1_500));
    assert!(!limiter.allow(1_999));
    assert!(limiter.allow(2_000));
    assert!(!limiter.allow(2_000));
    assert!(limiter.allow(2_001));
}

#[test]
fn rate_limiter_window_slides() {
    let mut limiter = DaemonRateLimiter::new();
    for i in 0..32 {
        assert!(limiter.allow(i * 10));
    }
    assert!(!limiter.allow(999));
    assert!(limiter.allow(1_000));
    assert!(!limiter.allow(1_005));
    assert!(limiter.allow(1_010));
}

#[test]
fn health_turns_unhealthy_after_three_failures_and_recovers() {
    let mut health = DaemonHealth::new();
    record_daemon_failure(&mut health, "one".to_string(), 100);
    record_daemon_failure(&mut health, "two".to_string(), 200);
    assert!(health.consecutive_failures < 3);
    record_daemon_rate_limit(&mut health, 300);
    assert_eq!(health.consecutive_failures, 3);
    assert_eq!(health.failed_requests, 3);
    assert_eq!(health.rate_limited_requests, 1);
    assert_eq!(
        health.last_error.as_deref(),
        Some("daemon rate limit exceeded; retry shortly")
    );
    maybe_auto_recover_daemon_health(&mut health, 5_299);
    assert_eq!(health.consecutive_failures, 3);
    maybe_auto_recover_daemon_health(&mut health, 5_300);
    assert_eq!(health.consecutive_failures, 0);
    assert!(health.last_error.is_none());
    assert_eq!(health.total_requests, 3);
}

#[test]
fn success_clears_the_failure_run() {
    let mut health = DaemonHealth::new();
    record_daemon_failure(&mut health, "x".to_string(), 1);
    record_daemon_success(&mut health);
    assert_eq!(health.consecutive_failures, 0);
    assert_eq!(health.total_requests, 2);
    assert_eq!(health.failed_requests, 1);
    assert!(health.last_failure_at_ms.is_none());
}

#[test]
fn screening_skips_blank_lines_and_counts_refusals() {
    let mut health = DaemonHealth::new();
    let mut limiter = DaemonRateLimiter::new();
    assert_eq!(screen_daemon_request(&mut health, &mut limiter, true, 0), Admission::Skip);
    for i in 0..32 {
        assert_eq!(
            screen_daemon_request(&mut health, &mut limiter, false, i),
            Admission::Proceed
        );
    }
    assert_eq!(
        screen_daemon_request(&mut health, &mut limiter, false, 40),
        Admission::RateLimited
    );
    assert_eq!(health.rate_limited_requests, 1);
    assert_eq!(health.total_requests, 1);
}

#[test]
fn screening_lets_unhealthy_daemon_recover_and_records_refusal_message() {
    let mut health = DaemonHealth::new();
    let mut limiter = DaemonRateLimiter::new();
    for _ in 0..3 {
        record_daemon_failure(&mut health, "boom".to_string(), 100);
    }
    assert_eq!(health.consecutive_failures, 3);
    assert_eq!(
        screen_daemon_request(&mut health, &mut limiter, false, 6_000),
        Admission::Proceed
    );
    assert_eq!(health.consecutive_failures, 0);
    assert!(health.last_error.is_none());
    for i in 1..32 {
        assert_eq!(
            screen_daemon_request(&mut health, &mut limiter, false, 6_000 + i),
            Admission::Proceed
        );
    }
    assert_eq!(
        screen_daemon_request(&mut health, &mut limiter, false, 6_100),
        Admission::RateLimited
    );
    assert_eq!(health.total_requests, 4);
    assert_eq!(health.failed_requests, 4);
    assert_eq!(health.consecutive_failures, 1);
    assert_eq!(
        health.last_error.as_deref(),
        Some("daemon rate limit exceeded; retry shortly")
    );
    assert_eq!(health.last_failure_at_ms, Some(6_100));
}
