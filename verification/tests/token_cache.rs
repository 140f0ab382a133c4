use std::collections::HashMap;

use openshell_providers::runtime::{RuntimeError, TokenResponse};
use openshell_providers::token_cache::{expiry_representable, lifetime_seconds, TokenCache};

const SECOND: i64 = 1_000_000_000;

fn mock_response() -> TokenResponse {
    TokenResponse {
        access_token: "mock-token".to_string(),
        token_type: "Bearer".to_string(),
        expires_in: 3600,
        metadata: HashMap::new(),
    }
}

/// A token request as the runner performs it: the cache first, then the
/// provider on a miss.
fn request_token(cache: &mut TokenCache, name: &str, now: i64, fetches: &mut u32) -> String {
    if let Some(token) = cache.get_token(name, now) {
        return token;
    }
    *fetches += 1;
    let (token, _) = cache
        .complete_refresh(name, Ok(mock_response()), now, now)
        .unwrap();
    token
}

#[test]
fn test_cache_miss_fetches_token() {
    let mut cache = TokenCache::new(300);
    let mut fetches = 0;

    let token = request_token(&mut cache, "mock", 1_700_000_000 * SECOND, &mut fetches);
    assert_eq!(token, "mock-token");
    assert_eq!(fetches, 1);
}

#[test]
fn test_cache_hit_avoids_fetch() {
    let mut cache = TokenCache::new(300);
    let mut fetches = 0;
    let t0 = 1_700_000_000 * SECOND;

    // First call - cache miss
    let token1 = request_token(&mut cache, "mock", t0, &mut fetches);

    // Second call - cache hit
    let token2 = request_token(&mut cache, "mock", t0 + 10 * SECOND, &mut fetches);

    assert_eq!(token1, token2);
    assert_eq!(fetches, 1);
}

#[test]
fn empty_cache_misses() {
    let cache = TokenCache::new(300);
    assert_eq!(cache.get_token_with_expiry("mock", 0), None);
    assert_eq!(cache.get_token("mock", 0), None);
}

#[test]
fn remaining_seconds_are_whole_seconds_left() {
    let mut cache = TokenCache::new(300);
    let t0 = 5 * SECOND;
    let token = cache.store_token("mock", mock_response(), t0);
    assert_eq!(token, "mock-token");
    assert_eq!(
        cache.get_token_with_expiry("mock", t0),
        Some(("mock-token".to_string(), 3600))
    );
    assert_eq!(
        cache.get_token_with_expiry("mock", t0 + 1),
        Some(("mock-token".to_string(), 3599))
    );
    assert_eq!(
        cache.get_token_with_expiry("mock", t0 + 3599 * SECOND + SECOND / 2),
        Some(("mock-token".to_string(), 0))
    );
}

#[test]
fn expired_token_is_not_served() {
    let mut cache = TokenCache::new(300);
    let t0 = 0;
    cache.store_token("mock", mock_response(), t0);
    assert_eq!(cache.get_token_with_expiry("mock", t0 + 3600 * SECOND), None);
    assert_eq!(cache.get_token("mock", t0 + 4000 * SECOND), None);
    assert_eq!(cache.expires_in_seconds("mock", t0 + 4000 * SECOND), 0);
}

#[test]
fn failed_fetch_hands_the_error_back() {
    let mut cache = TokenCache::new(300);
    let r = cache.complete_refresh(
        "mock",
        Err(RuntimeError::Network("down".to_string())),
        0,
        0,
    );
    match r {
        Err(RuntimeError::Network(m)) => assert_eq!(m, "down"),
        other => panic!("unexpected: {:?}", other),
    }
    assert_eq!(cache.get_token("mock", 0), None);
}

#[test]
fn complete_refresh_reports_remaining_at_read_time() {
    let mut cache = TokenCache::new(300);
    let r = cache
        .complete_refresh("mock", Ok(mock_response()), 0, 100 * SECOND)
        .unwrap();
    assert_eq!(r, ("mock-token".to_string(), 3500));
}

#[test]
fn refresh_interval_is_lifetime_minus_margin() {
    assert_eq!(TokenCache::new(300).refresh_interval_seconds(), 3300);
    assert_eq!(TokenCache::new(0).refresh_interval_seconds(), 3600);
    assert_eq!(TokenCache::new(3601).refresh_interval_seconds(), u64::MAX);
}

#[test]
fn tokens_enter_refresh_window_margin_before_expiry() {
    let mut cache = TokenCache::new(300);
    cache.store_token("a", mock_response(), 0);
    let mut short = mock_response();
    short.expires_in = 600;
    short.access_token = "short".to_string();
    cache.store_token("b", short, 0);

    assert!(cache.tokens_to_refresh(0).is_empty());
    // "b" is within 300 s of its expiry after 300 s.
    assert_eq!(cache.tokens_to_refresh(300 * SECOND), Vec::<String>::new());
    assert_eq!(cache.tokens_to_refresh(300 * SECOND + 1), vec!["b".to_string()]);
    let mut both = cache.tokens_to_refresh(3300 * SECOND + 1);
    both.sort();
    assert_eq!(both, vec!["a".to_string(), "b".to_string()]);
}

#[test]
fn background_refresh_failure_clears_the_token() {
    let mut cache = TokenCache::new(300);
    cache.store_token("mock", mock_response(), 0);
    cache.store_token("other", mock_response(), 0);

    let err = cache.apply_background_refresh(
        "mock",
        Err(RuntimeError::AuthFailed("no".to_string())),
        3400 * SECOND,
    );
    assert!(err.is_err());
    assert_eq!(cache.get_token("mock", 3400 * SECOND), None);
    assert_eq!(cache.expires_in_seconds("mock", 3400 * SECOND), 3600);
    assert_eq!(cache.get_token("other", 3400 * SECOND), Some("mock-token".to_string()));
    assert_eq!(cache.tokens_to_refresh(3400 * SECOND), vec!["other".to_string()]);
}

#[test]
fn background_refresh_success_replaces_the_token() {
    let mut cache = TokenCache::new(300);
    cache.store_token("mock", mock_response(), 0);
    let mut fresh = mock_response();
    fresh.access_token = "fresh".to_string();
    assert!(cache
        .apply_background_refresh("mock", Ok(fresh), 3400 * SECOND)
        .is_ok());
    assert_eq!(
        cache.get_token_with_expiry("mock", 3400 * SECOND),
        Some(("fresh".to_string(), 3600))
    );
    assert!(cache.tokens_to_refresh(3400 * SECOND).is_empty());
}

#[test]
fn failed_fetch_on_miss_clears_the_stale_token() {
    let mut cache = TokenCache::new(300);
    cache.store_token("mock", mock_response(), 0);
    // The token has expired; the fetch that replaces it fails.
    let r = cache.complete_refresh(
        "mock",
        Err(RuntimeError::Network("down".to_string())),
        4000 * SECOND,
        4000 * SECOND,
    );
    assert!(r.is_err());
    assert_eq!(cache.expires_in_seconds("mock", 4000 * SECOND), 3600);
    assert!(cache.tokens_to_refresh(4000 * SECOND).is_empty());
}

#[test]
fn invalidate_drops_only_that_provider() {
    let mut cache = TokenCache::new(300);
    cache.store_token("a", mock_response(), 0);
    cache.store_token("b", mock_response(), 0);
    cache.invalidate("a");
    cache.invalidate("missing");
    assert_eq!(cache.get_token("a", 0), None);
    assert_eq!(cache.get_token("b", 0), Some("mock-token".to_string()));
}

#[test]
fn huge_lifetimes_wrap_to_negative_seconds() {
    assert_eq!(lifetime_seconds(3600), 3600);
    assert_eq!(lifetime_seconds(u64::MAX), -1);
    let mut cache = TokenCache::new(300);
    let mut resp = mock_response();
    resp.expires_in = u64::MAX;
    assert!(expiry_representable(u64::MAX, 10 * SECOND));
    cache.store_token("mock", resp, 10 * SECOND);
    // Expired one second before it was fetched.
    assert_eq!(cache.get_token("mock", 10 * SECOND), None);
    assert_eq!(cache.tokens_to_refresh(10 * SECOND), vec!["mock".to_string()]);
}

#[test]
fn expiry_representable_bounds() {
    assert!(expiry_representable(3600, 0));
    assert!(expiry_representable(9_223_372_036_854_775, 0) == false);
    assert!(expiry_representable(8_000_000_000_000, 0));
    assert!(!expiry_representable(8_300_000_000_000, 0));
    assert!(!expiry_representable(1u64 << 63, 0));
}

#[test]
fn scan_needs_representable_margin() {
    let mut cache = TokenCache::new(9_000_000_000_000);
    assert!(cache.can_scan(0));
    cache.store_token("mock", mock_response(), 0);
    assert!(!cache.can_scan(0));
    let mut ok = TokenCache::new(300);
    ok.store_token("mock", mock_response(), 0);
    assert!(ok.can_scan(0));
}

#[test]
fn storing_one_provider_leaves_another() {
    let mut cache = TokenCache::new(300);
    cache.store_token("a", mock_response(), 0);
    let mut other = mock_response();
    other.access_token = "other".to_string();
    cache.store_token("b", other, 10 * SECOND);
    assert_eq!(cache.get_token("a", 20 * SECOND), Some("mock-token".to_string()));
    assert_eq!(cache.get_token("b", 20 * SECOND), Some("other".to_string()));
}

#[test]
fn missing_entry_falls_back_to_an_hour() {
    let cache = TokenCache::new(300);
    assert_eq!(cache.expires_in_seconds("nobody", 0), 3600);
}

#[test]
fn margin_is_kept() {
    assert_eq!(TokenCache::new(300).refresh_margin_seconds(), 300);
}

#[test]
fn due_token_is_still_served_until_expiry() {
    let mut cache = TokenCache::new(300);
    cache.store_token("mock", mock_response(), 0);
    let just_before = 3600 * SECOND - 1;
    assert_eq!(cache.tokens_to_refresh(just_before), vec!["mock".to_string()]);
    assert_eq!(cache.get_token("mock", just_before), Some("mock-token".to_string()));
    // Past expiry it stays due and is no longer served.
    assert_eq!(cache.tokens_to_refresh(4000 * SECOND), vec!["mock".to_string()]);
    assert_eq!(cache.get_token("mock", 4000 * SECOND), None);
}

#[test]
fn replacing_a_token_keeps_one_entry() {
    let mut cache = TokenCache::new(300);
    cache.store_token("mock", mock_response(), 0);
    cache.store_token("mock", mock_response(), 3400 * SECOND);
    assert_eq!(cache.tokens_to_refresh(7000 * SECOND), vec!["mock".to_string()]);
}
