use std::time::Duration;

use qr_service::rate_limit::RateLimiter;

#[test]
fn allows_under_limit() {
    let mut rl = RateLimiter::new(Duration::from_secs(60));
    let r = rl.check("key1", 10);
    assert!(r.allowed);
    assert_eq!(r.remaining, 9);
    assert_eq!(r.limit, 10);
}

#[test]
fn blocks_at_limit() {
    let mut rl = RateLimiter::new(Duration::from_secs(60));
    for _ in 0..5 {
        rl.check("key1", 5);
    }
    let r = rl.check("key1", 5);
    assert!(!r.allowed);
    assert_eq!(r.remaining, 0);
}

#[test]
fn separate_keys_independent() {
    let mut rl = RateLimiter::new(Duration::from_secs(60));
    for _ in 0..5 {
        rl.check("key1", 5);
    }
    // key1 is exhausted
    assert!(!rl.check("key1", 5).allowed);
    // key2 should still be fine
    assert!(rl.check("key2", 5).allowed);
}

#[test]
fn window_expiry_resets_counter() {
    let mut rl = RateLimiter::new(Duration::from_secs(60));
    for t in 0..3u64 {
        assert!(rl.check_at("k", 3, t).allowed);
    }
    let blocked = rl.check_at("k", 3, 1_000);
    assert!(!blocked.allowed);
    assert_eq!(blocked.reset_secs, 59);
    let fresh = rl.check_at("k", 3, 60_000);
    assert!(fresh.allowed);
    assert_eq!(fresh.remaining, 2);
    assert_eq!(fresh.reset_secs, 60);
}

#[test]
fn prune_drops_only_expired_counters() {
    let mut rl = RateLimiter::new(Duration::from_secs(10));
    rl.check_at("old", 5, 0);
    rl.check_at("new", 5, 8_000);
    rl.prune_stale_at(12_000);
    assert_eq!(rl.buckets.len(), 1);
    assert_eq!(rl.buckets[0].key, "new");
    assert_eq!(rl.buckets[0].count, 1);
}

#[test]
fn zero_limit_blocks_everything() {
    let mut rl = RateLimiter::new(Duration::from_secs(60));
    let r = rl.check_at("k", 0, 0);
    assert!(!r.allowed);
    assert_eq!(r.remaining, 0);
    assert_eq!(r.limit, 0);
}
