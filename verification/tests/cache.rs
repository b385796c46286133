use std::time::Duration;

use bytes::Bytes;
use rpc_gateway::gateway::cache::{CachePolicy, ResponseCache};
use rpc_gateway::gateway::coalescing::request_coalescing_key;
use rpc_gateway::settings::CacheConfig;

const EMPTY_SHA256: &str = "e3b0c44298fc1c149afbf4c8996fb92427ae41e4649b934ca495991b7852b855";

#[test]
fn cache_policy_uses_per_method_ttl() {
    let policy = CachePolicy::from_config(&CacheConfig {
        enabled: true,
        ttl_secs: 2,
        max_capacity: 100,
        cacheable_methods: vec![],
        method_ttl_secs: vec![("getSlot".to_string(), 33)],
    });

    let plan = policy
        .plan(
            br#"{"jsonrpc":"2.0","method":"getSlot","params":[]}"#,
            Some("GETSLOT"),
            true,
        )
        .expect("cache plan should be present");
    assert_eq!(plan.ttl, Duration::from_secs(33));
}

#[test]
fn cache_policy_honors_allowlist_with_default_ttl() {
    let policy = CachePolicy::from_config(&CacheConfig {
        enabled: true,
        ttl_secs: 5,
        max_capacity: 100,
        cacheable_methods: vec!["getSlot".to_string()],
        method_ttl_secs: vec![],
    });

    assert!(policy
        .plan(
            br#"{"jsonrpc":"2.0","method":"getSlot","params":[]}"#,
            Some("getSlot"),
            false,
        )
        .is_some());
    assert!(policy
        .plan(
            br#"{"jsonrpc":"2.0","method":"getBalance","params":["11111111111111111111111111111111"]}"#,
            Some("getBalance"),
            true,
        )
        .is_none());
}

#[test]
fn cache_policy_zero_ttl_override_disables_method_cache() {
    let policy = CachePolicy::from_config(&CacheConfig {
        enabled: true,
        ttl_secs: 5,
        max_capacity: 100,
        cacheable_methods: vec!["getBalance".to_string()],
        method_ttl_secs: vec![("getBalance".to_string(), 0)],
    });

    assert!(policy
        .plan(
            br#"{"jsonrpc":"2.0","method":"getBalance","params":["11111111111111111111111111111111"]}"#,
            Some("getBalance"),
            true,
        )
        .is_none());
}

#[test]
fn cache_policy_defaults_unknown_method_to_non_cacheable() {
    let policy = CachePolicy::from_config(&CacheConfig {
        enabled: true,
        ttl_secs: 5,
        max_capacity: 100,
        cacheable_methods: vec![],
        method_ttl_secs: vec![],
    });

    assert!(policy
        .plan(
            br#"{"jsonrpc":"2.0","method":"customExperimentalMethod","params":[]}"#,
            Some("customExperimentalMethod"),
            false,
        )
        .is_none());
}

#[test]
fn disabled_policy_and_missing_method_have_no_plan() {
    let mut config = CacheConfig::default();
    assert!(CachePolicy::from_config(&config).plan(b"{}", None, true).is_none());
    assert!(CachePolicy::from_config(&config).plan(b"{}", Some("getSlot"), true).is_some());
    config.enabled = false;
    let policy = CachePolicy::from_config(&config);
    assert!(!policy.enabled());
    assert!(policy.plan(b"{}", Some("getSlot"), true).is_none());
}

#[test]
fn default_ttl_is_at_least_a_second() {
    let config = CacheConfig {
        ttl_secs: 0,
        ..CacheConfig::default()
    };
    let plan = CachePolicy::from_config(&config)
        .plan(b"{}", Some("getSlot"), true)
        .expect("cacheable by default");
    assert_eq!(plan.ttl, Duration::from_secs(1));
}

#[test]
fn plan_key_is_method_and_digest() {
    let policy = CachePolicy::from_config(&CacheConfig::default());
    let plan = policy.plan(b"", Some("getSlot"), true).expect("cacheable by default");
    assert_eq!(plan.key, format!("getslot:{EMPTY_SHA256}"));
    assert_eq!(plan.ttl, Duration::from_secs(2));
    assert_eq!(request_coalescing_key("GetSlot", b""), plan.key);
    assert_eq!(
        request_coalescing_key("M", b"abc"),
        "m:ba7816bf8f01cfea414140de5dae2223b00361a396177a9cb410ff61f20015ad"
    );
    assert_ne!(request_coalescing_key("getSlot", b"a"), plan.key);
    assert_ne!(request_coalescing_key("getBlock", b""), plan.key);
}

#[test]
fn response_cache_expires_entries_by_ttl() {
    let mut cache = ResponseCache::new(10);
    cache.insert_at(
        "k".to_string(),
        Bytes::from_static(br#"{"ok":true}"#),
        "provider-a".to_string(),
        Duration::from_millis(10),
        1_000,
    );

    let hit = cache.get_at("k", 1_009).expect("not yet expired");
    assert_eq!(&hit.body[..], br#"{"ok":true}"#);
    assert_eq!(hit.provider, "provider-a");
    assert_eq!(hit.cached_at_unix_ms, 1_000);
    assert_eq!(hit.expires_at_unix_ms, 1_010);
    assert!(cache.get_at("k", 1_010).is_none());
    assert!(cache.get_at("k", 1_000).is_none());
}

#[test]
fn response_cache_evicts_oldest_when_full() {
    let mut cache = ResponseCache::new(2);
    for (key, body, now) in [
        ("a", &br#"{"ok":1}"#[..], 100),
        ("b", &br#"{"ok":2}"#[..], 102),
        ("c", &br#"{"ok":3}"#[..], 104),
    ] {
        cache.insert_at(
            key.to_string(),
            Bytes::from_static(body),
            "provider-a".to_string(),
            Duration::from_secs(10),
            now,
        );
    }

    assert!(cache.get_at("a", 104).is_none());
    assert!(cache.get_at("b", 104).is_some());
    assert!(cache.get_at("c", 104).is_some());
}

#[test]
fn full_cache_drops_expired_entries_first() {
    let mut cache = ResponseCache::new(2);
    let provider = || "p".to_string();
    let body = Bytes::from_static(b"{}");
    cache.insert_at("old".to_string(), body.clone(), provider(), Duration::from_secs(10), 0);
    cache.insert_at("gone".to_string(), body.clone(), provider(), Duration::from_millis(5), 1);
    cache.insert_at("new".to_string(), body, provider(), Duration::from_secs(10), 50);
    assert!(cache.get_at("old", 60).is_some());
    assert!(cache.get_at("gone", 2).is_none());
    assert!(cache.get_at("new", 60).is_some());
}

#[test]
fn cache_replaces_an_entry_under_the_same_key() {
    let mut cache = ResponseCache::new(0);
    cache.insert_at(
        "k".to_string(),
        Bytes::from_static(b"1"),
        "a".to_string(),
        Duration::from_secs(1),
        0,
    );
    cache.insert_at(
        "k".to_string(),
        Bytes::from_static(b"2"),
        "b".to_string(),
        Duration::from_secs(1),
        1,
    );
    let hit = cache.get_at("k", 2).expect("kept");
    assert_eq!(&hit.body[..], b"2");
    assert_eq!(hit.provider, "b");
}

#[test]
fn cache_reads_the_wall_clock() {
    let mut cache = ResponseCache::new(4);
    cache.insert(
        "k".to_string(),
        Bytes::from_static(b"1"),
        "a".to_string(),
        Duration::from_secs(3600),
    );
    assert!(cache.get("k").is_some());
    assert!(cache.get("other").is_none());
}

#[test]
fn expiry_stops_at_the_latest_time() {
    let mut cache = ResponseCache::new(1);
    cache.insert_at(
        "k".to_string(),
        Bytes::from_static(b"1"),
        "a".to_string(),
        Duration::from_secs(1),
        u128::MAX - 1,
    );
    let hit = cache.get_at("k", u128::MAX - 1).expect("kept");
    assert_eq!(hit.expires_at_unix_ms, u128::MAX);
}
