use cgrep::cache::{CacheEntry, CacheKey, CacheLookup, SearchCache, judge_entry};

fn make_key(query: &str) -> CacheKey {
    CacheKey {
        query: query.to_string(),
        mode: "keyword".to_string(),
        max_results: 20,
        context: 2,
        file_type: None,
        glob: None,
        exclude: None,
        profile: None,
        index_hash: None,
        embedding_model: None,
        search_root: None,
    }
}

#[test]
fn test_cache_key_hash() {
    let key1 = make_key("hello");
    let key2 = make_key("hello");
    let key3 = make_key("world");

    assert_eq!(key1.hash(), key2.hash());
    assert_ne!(key1.hash(), key3.hash());
}

#[test]
fn cache_key_json_is_compact_and_escaped() {
    let mut key = make_key("say \"hi\"\n\u{1}");
    key.file_type = Some("rust".to_string());
    assert_eq!(
        key.to_json(),
        "{\"query\":\"say \\\"hi\\\"\\n\\u0001\",\"mode\":\"keyword\",\"max_results\":20,\"context\":2,\"file_type\":\"rust\",\"glob\":null,\"exclude\":null,\"profile\":null,\"index_hash\":null,\"embedding_model\":null,\"search_root\":null}"
    );
    let expected = blake3::hash(key.to_json().as_bytes()).to_hex().to_string();
    assert_eq!(key.hash(), expected[..32]);
}

#[test]
fn cache_entry_age_counts_from_creation() {
    let key = make_key("test");
    let old = CacheEntry::new_at("data", &key, 0);
    assert!(old.age_ms() >= 10);
    assert!(!old.is_valid(10));
    let fresh = CacheEntry::new("data", &key);
    assert!(fresh.is_valid(600_000));
    assert_eq!(fresh.mode, "keyword");
    assert_eq!(fresh.key_hash, key.hash());
}

#[test]
fn entry_validity_by_clock() {
    let key = make_key("q");
    let entry = CacheEntry::new_at(vec![1u8], &key, 1_000);
    assert!(entry.is_valid_at(100, 1_050));
    assert!(!entry.is_valid_at(100, 1_100));
    assert!(entry.is_valid_at(1, 500));
    assert_eq!(entry.age_at_time(1_250), 250);
    assert_eq!(entry.age_at_time(10), 0);
    assert_eq!(judge_entry(&entry, &key.hash(), 100, 1_050), CacheLookup::Hit);
    assert_eq!(judge_entry(&entry, "other", 100, 1_050), CacheLookup::Mismatch);
    assert_eq!(judge_entry(&entry, &key.hash(), 100, 5_000), CacheLookup::Expired);
}

#[test]
fn cache_paths() {
    let cache = SearchCache::with_default_ttl("/repo");
    assert_eq!(cache.ttl_ms, 600_000);
    assert_eq!(cache.cache_dir, "/repo/.cgrep/cache/search");
    let key = make_key("hello");
    assert_eq!(cache.cache_path(&key), format!("/repo/.cgrep/cache/search/{}.json", key.hash()));
    assert!(SearchCache::is_entry_file("/x/abc.json"));
    assert!(!SearchCache::is_entry_file("/x/abc.txt"));
    assert!(cache.is_expired_age(600_001));
    assert!(!cache.is_expired_age(600_000));
}
