use flit::flit::Reply;
use flit::limits::{Activity, RateLimiter};

fn refused(r: &Option<Reply>) -> bool {
    matches!(r, Some(Reply::Text(429, "too many requests")))
}

#[test]
fn no_limit_admits_everything() {
    let mut r = RateLimiter::new(0);
    for _ in 0..1000 {
        assert!(r.check_at("1.2.3.4", 5).is_none());
    }
}

#[test]
fn limit_counts_per_client_and_window() {
    let mut r = RateLimiter::new(2);
    assert!(r.check_at("a", 100).is_none());
    assert!(r.check_at("a", 110).is_none());
    assert!(refused(&r.check_at("a", 120)));
    assert!(refused(&r.check_at("a", 159)));
    // Another client has its own window.
    assert!(r.check_at("b", 120).is_none());
    // A new window opens 60 seconds after the first request of the last one.
    assert!(r.check_at("a", 160).is_none());
    assert!(r.check_at("a", 161).is_none());
    assert!(refused(&r.check_at("a", 162)));
    assert!(r.check("fresh-client").is_none());
}

#[test]
fn idle_exit_waits_for_the_idle_time() {
    let mut a = Activity::new(100);
    assert!(!a.idle_exit_due(109, 10));
    assert!(a.idle_exit_due(110, 10));
    a.touch(105);
    assert!(!a.idle_exit_due(110, 10));
    assert!(!a.idle_exit_due(1_000_000, 0));
}
