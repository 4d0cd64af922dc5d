use uc_cli::access_cache::AccessCache;
use uc_cli::store::{
    artifact_index_entry_matches_expected, artifact_index_lookup, cache_object_matches_expected,
    cached_object_hash_if_fresh, evict_oldest_build_entry_cache_entries,
    fingerprint_index_cache_key, load_fingerprint_index_cached, remove_build_entry_cached,
    store_build_entry_cached, store_cache_object_hash, store_fingerprint_index_cached,
    upsert_artifact_index_entry_from_metadata, ArtifactIndex, ArtifactIndexEntry, BuildCacheEntry,
    FingerprintIndex, ARTIFACT_INDEX_SCHEMA_VERSION, FINGERPRINT_INDEX_SCHEMA_VERSION,
};
use uc_cli::telemetry::evict_expired_native_compile_context_cache_entries;

fn key(s: &str) -> String {
    s.to_string()
}

#[test]
fn cache_evicts_least_recently_used_entries() {
    let mut cache: AccessCache<u32> = AccessCache::new();
    cache.insert(key("a"), 1, 10);
    cache.insert(key("b"), 2, 20);
    cache.insert(key("c"), 3, 30);
    assert!(cache.touch(&key("a"), 40));
    cache.evict_oldest(2);
    assert_eq!(cache.len(), 2);
    assert!(cache.get(&key("b")).is_none());
    assert_eq!(cache.get(&key("a")), Some(&1));
    assert_eq!(cache.get(&key("c")), Some(&3));
    cache.evict_oldest(0);
    assert_eq!(cache.len(), 0);
}

#[test]
fn cache_reads_back_what_was_written() {
    let mut cache: AccessCache<&'static str> = AccessCache::new();
    cache.insert(key("k"), "one", 1);
    cache.insert(key("k"), "two", 2);
    assert_eq!(cache.len(), 1);
    assert_eq!(cache.get(&key("k")), Some(&"two"));
    assert_eq!(cache.last_access(&key("k")), Some(2));
    cache.remove(&key("k"));
    assert!(cache.get(&key("k")).is_none());
    assert!(!cache.touch(&key("k"), 3));
}

#[test]
fn cache_expires_idle_entries() {
    let mut cache: AccessCache<u8> = AccessCache::new();
    cache.insert(key("old"), 1, 100);
    cache.insert(key("new"), 2, 900);
    cache.insert(key("future"), 3, 2_000);
    evict_expired_native_compile_context_cache_entries(&mut cache, 1_000, 0);
    assert_eq!(cache.len(), 3);
    evict_expired_native_compile_context_cache_entries(&mut cache, 1_000, 500);
    assert!(cache.get(&key("old")).is_none());
    assert!(cache.get(&key("new")).is_some());
    assert!(cache.get(&key("future")).is_some());
}

#[test]
fn fingerprint_index_cache_hit_touches_entry() {
    let mut cache = AccessCache::new();
    let k = fingerprint_index_cache_key("C:\\ws\\fingerprint\\index-v1.json");
    assert_eq!(k, "C:/ws/fingerprint/index-v1.json");
    assert!(load_fingerprint_index_cached(&mut cache, &k, 5).is_none());
    store_fingerprint_index_cached(&mut cache, k.clone(), FingerprintIndex::empty(), 5, 4);
    let hit = load_fingerprint_index_cached(&mut cache, &k, 9).unwrap();
    assert_eq!(hit.schema_version, FINGERPRINT_INDEX_SCHEMA_VERSION);
    assert_eq!(cache.last_access(&k), Some(9));
}

#[test]
fn build_entry_cache_keeps_newest_within_capacity() {
    let mut cache = AccessCache::new();
    for (i, name) in ["x", "y", "z"].iter().enumerate() {
        let entry = BuildCacheEntry {
            schema_version: 1,
            fingerprint: format!("fp{i}"),
            profile: "dev".to_string(),
            artifacts: Vec::new(),
        };
        store_build_entry_cached(&mut cache, key(name), 10, 20, entry, i as u64, 2);
    }
    assert_eq!(cache.len(), 2);
    assert!(cache.get(&key("x")).is_none());
    assert_eq!(cache.get(&key("z")).unwrap().entry.fingerprint, "fp2");
    remove_build_entry_cached(&mut cache, &key("z"));
    assert_eq!(cache.len(), 1);
    evict_oldest_build_entry_cache_entries(&mut cache, 1);
    assert_eq!(cache.len(), 1);
}

#[test]
fn object_hash_memo_answers_only_for_unchanged_files() {
    let mut memo = AccessCache::new();
    store_cache_object_hash(&mut memo, key("obj"), 10, 20, "ABCDEF", 1, 8);
    assert_eq!(
        cached_object_hash_if_fresh(&mut memo, &key("obj"), 10, 20, 2),
        Some("abcdef".to_string())
    );
    assert_eq!(cached_object_hash_if_fresh(&mut memo, &key("obj"), 11, 20, 3), None);
    assert_eq!(memo.last_access(&key("obj")), Some(3));
    assert_eq!(cached_object_hash_if_fresh(&mut memo, &key("missing"), 10, 20, 4), None);
}

#[test]
fn artifact_index_entries_prove_files_current() {
    let entry = ArtifactIndexEntry {
        size_bytes: 5,
        modified_unix_ms: 100,
        blake3_hex: "ab12".to_string(),
    };
    assert!(artifact_index_entry_matches_expected(&entry, 5, 100, "ab12", 5));
    assert!(!artifact_index_entry_matches_expected(&entry, 5, 101, "ab12", 5));
    assert!(!artifact_index_entry_matches_expected(&entry, 5, 100, "AB12", 5));
    assert!(!artifact_index_entry_matches_expected(&entry, 5, 100, "ab12", 6));
}

#[test]
fn artifact_index_upsert_replaces_or_appends() {
    let mut index = ArtifactIndex::empty();
    assert_eq!(index.schema_version, ARTIFACT_INDEX_SCHEMA_VERSION);
    upsert_artifact_index_entry_from_metadata(&mut index, "a.json", 1, 2, "aa");
    upsert_artifact_index_entry_from_metadata(&mut index, "b.json", 3, 4, "bb");
    upsert_artifact_index_entry_from_metadata(&mut index, "a.json", 5, 6, "cc");
    assert_eq!(index.entries.len(), 2);
    let a = artifact_index_lookup(&index, "a.json").unwrap();
    assert_eq!((a.size_bytes, a.modified_unix_ms, a.blake3_hex.as_str()), (5, 6, "cc"));
    assert!(artifact_index_lookup(&index, "c.json").is_none());
}

#[test]
fn cache_objects_match_by_size_and_digest_in_any_case() {
    assert!(cache_object_matches_expected(true, 4, "ABCD", "abcd", 4));
    assert!(!cache_object_matches_expected(false, 4, "abcd", "abcd", 4));
    assert!(!cache_object_matches_expected(true, 5, "abcd", "abcd", 4));
    assert!(!cache_object_matches_expected(true, 4, "abce", "abcd", 4));
}
