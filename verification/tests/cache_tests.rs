use code_playground::cache::{cache_key, CompilationCache, DiskEntry};

#[test]
fn cache_key_is_sha256_hex_of_joined_parts() {
    assert_eq!(
        cache_key("fn main() {}", "debug", "2021"),
        "f767d92324be978ee823a068d8283340c115a59227456c784bbc99a40e0512d5"
    );
    assert_eq!(cache_key("a", "b", "c"), cache_key("a", "b", "c"));
    assert_ne!(cache_key("a", "b", "c"), cache_key("a", "b", "d"));
    assert_eq!(cache_key("a|b", "c", "d"), cache_key("a", "b|c", "d"));
}

#[test]
fn read_after_write_and_expiry() {
    let mut c = CompilationCache::new(3_600_000, "/tmp/cache.json");
    assert_eq!(c.get_at("code", "debug", "2021", 0), None);
    let persist = c.insert_at("code", "debug", "2021", "{\"ok\":1}".to_string(), "rs_01", false, 1_000);
    assert!(persist.is_none());
    assert_eq!(c.get_at("code", "debug", "2021", 2_000), Some("{\"ok\":1}".to_string()));
    assert_eq!(c.get_at("code", "release", "2021", 2_000), None);
    assert_eq!(c.get_at("code", "debug", "2021", 3_601_000), None);
    assert_eq!(c.stats().total_entries, 0);
    let s = c.stats();
    assert_eq!((s.hits, s.misses), (1, 3));
}

#[test]
fn defaults_never_expire_and_are_persisted() {
    let mut c = CompilationCache::new(1_000, "/tmp/cache.json");
    c.insert_at("m", "run", "go", "modified".to_string(), "go_01", false, 0);
    let persist = c.insert_at("d", "run", "go", "default".to_string(), "go_01", true, 0).unwrap();
    assert_eq!(persist.len(), 1);
    assert_eq!(persist[0].0, cache_key("d", "run", "go"));
    assert_eq!(persist[0].1.response_body, "default");
    assert_eq!(persist[0].1.example_id, "go_01");
    c.evict_expired_at(1_000_000);
    let s = c.stats();
    assert_eq!((s.total_entries, s.default_entries, s.modified_entries), (1, 1, 0));
    assert_eq!(c.get_at("d", "run", "go", u64::MAX), Some("default".to_string()));
}

#[test]
fn loading_from_disk_adds_defaults() {
    let mut c = CompilationCache::new(1_000, "/data/cache.json");
    assert_eq!(c.disk_path_str(), "/data/cache.json");
    let key = cache_key("x", "debug", "2021");
    c.load_entries_at(
        vec![(key.clone(), DiskEntry { response_body: "r".to_string(), example_id: "rs".to_string() })],
        0,
    );
    assert_eq!(c.stats().disk_loads, 1);
    assert_eq!(c.stats().default_entries, 1);
    assert_eq!(c.get_at("x", "debug", "2021", 999_999_999), Some("r".to_string()));
    assert_eq!(c.default_entries_for_disk().len(), 1);
}

#[test]
fn stats_before_any_lookup() {
    let c = CompilationCache::new(1, "p");
    let s = c.stats();
    assert_eq!((s.total_entries, s.hits, s.misses), (0, 0, 0));
}

#[test]
fn clock_driven_calls() {
    let mut c = CompilationCache::new(3_600_000, "p");
    c.insert("k", "debug", "2021", "v".to_string(), "id", false);
    assert_eq!(c.get("k", "debug", "2021"), Some("v".to_string()));
    c.evict_expired();
    assert_eq!(c.stats().total_entries, 1);
    c.load_entries(Vec::new());
    assert_eq!(c.stats().disk_loads, 0);
}

#[test]
fn stale_lookup_sees_expired_results_without_counting() {
    let mut c = CompilationCache::new(1_000, "/tmp/cache.json");
    c.insert_at("edited", "debug", "2021", "old".to_string(), "rs_01", false, 0);
    assert_eq!(c.get_stale("edited", "debug", "2021"), Some("old".to_string()));
    assert_eq!(c.get_stale("never", "debug", "2021"), None);
    assert_eq!(c.stats().hits, 0);
    assert_eq!(c.stats().misses, 0);
    assert_eq!(c.get_at("edited", "debug", "2021", 5_000), None);
    assert_eq!(c.get_stale("edited", "debug", "2021"), None);
    assert_eq!(c.stats().total_entries, 0);
}

#[test]
fn disk_listing_loads_back_into_a_new_cache() {
    let mut c = CompilationCache::new(1_000, "/tmp/cache.json");
    c.insert_at("m", "debug", "2021", "mod".to_string(), "rs_02", false, 0);
    let listing = c.insert_at("e", "debug", "2021", "ex".to_string(), "rs_01", true, 0).unwrap();
    assert_eq!(listing.len(), 1);
    let mut fresh = CompilationCache::new(1_000, "/tmp/cache.json");
    fresh.load_entries_at(listing, 50);
    let s = fresh.stats();
    assert_eq!((s.total_entries, s.default_entries, s.disk_loads), (1, 1, 1));
    assert_eq!(fresh.get_at("e", "debug", "2021", 1_000_000), Some("ex".to_string()));
    assert_eq!(fresh.get_at("m", "debug", "2021", 50), None);
}
