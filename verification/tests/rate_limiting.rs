use forge_gateway::rate_limiting::{RateLimitConfig, RateLimitData, RateLimitStore};

#[test]
fn test_rate_limit_data() {
    let mut data = RateLimitData::new();
    let config = RateLimitConfig {
        max_requests: 2,
        window_seconds: 60,
        ..Default::default()
    };

    // First request should not be limited
    assert!(!data.is_rate_limited(&config));

    // Second request should not be limited
    assert!(!data.is_rate_limited(&config));

    // Third request should be limited
    assert!(data.is_rate_limited(&config));
}

#[test]
fn test_rate_limit_store() {
    let mut store = RateLimitStore::new(RateLimitConfig {
        max_requests: 2,
        window_seconds: 60,
        ..Default::default()
    });

    // First two requests should not be limited
    assert!(!store.check_rate_limit("127.0.0.1", None));
    assert!(!store.check_rate_limit("127.0.0.1", None));

    // Third request should be limited
    assert!(store.check_rate_limit("127.0.0.1", None));

    // Different IP should not be limited
    assert!(!store.check_rate_limit("192.168.1.1", None));
}

#[test]
fn address_limit_holds_whatever_the_tokens() {
    let mut store = RateLimitStore::new(RateLimitConfig {
        max_requests: 2,
        window_seconds: 60,
        ..Default::default()
    });
    let t0: u128 = 1_000_000;
    assert!(!store.check_rate_limit_at("10.0.0.1", Some("a"), t0));
    assert!(!store.check_rate_limit_at("10.0.0.1", Some("b"), t0 + 1_000));
    assert!(store.check_rate_limit_at("10.0.0.1", Some("c"), t0 + 2_000));
    // A new window starts once the old one has run out.
    assert!(!store.check_rate_limit_at("10.0.0.1", Some("d"), t0 + 61_000));
}

#[test]
fn token_limit_across_addresses() {
    let mut store = RateLimitStore::new(RateLimitConfig {
        max_requests: 1,
        window_seconds: 60,
        ..Default::default()
    });
    assert!(!store.check_rate_limit_at("10.0.0.1", Some("tok"), 5));
    assert!(store.check_rate_limit_at("10.0.0.2", Some("tok"), 6));
    assert!(!store.check_rate_limit_at("10.0.0.3", None, 7));
}

#[test]
fn default_rate_limit() {
    let config = RateLimitConfig::default();
    assert_eq!(config.max_requests, 1000);
    assert_eq!(config.window_seconds, 60);
}

#[test]
fn cleanup_changes_no_later_check() {
    let config = RateLimitConfig { max_requests: 1, window_seconds: 1, ..Default::default() };
    let mut cleaned = RateLimitStore::new(config);
    let mut kept = RateLimitStore::new(config);
    assert!(!cleaned.check_rate_limit_at("a", None, 0));
    assert!(!kept.check_rate_limit_at("a", None, 0));
    cleaned.cleanup_old_data_at(5_000);
    assert_eq!(cleaned.check_rate_limit_at("a", None, 5_000), kept.check_rate_limit_at("a", None, 5_000));
    assert_eq!(cleaned.check_rate_limit_at("a", None, 5_100), kept.check_rate_limit_at("a", None, 5_100));
}
