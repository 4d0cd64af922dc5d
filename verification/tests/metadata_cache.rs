use uc_cli::access_cache::AccessCache;
use uc_cli::metadata_cache::{
    evict_oldest_metadata_result_cache_entries, lookup_metadata_result_cached,
    metadata_cache_entry_matches, metadata_cache_file_matches, metadata_run_estimated_bytes,
    remember_metadata_result, CommandRun, MetadataResultCacheEntry, MetadataResultCacheFile,
    METADATA_RESULT_CACHE_SCHEMA_VERSION,
};

fn run(stdout: &str) -> CommandRun {
    CommandRun {
        command: vec!["scarb".to_string(), "metadata".to_string()],
        exit_code: 0,
        elapsed_ms_bits: 1.5f64.to_bits(),
        stdout: stdout.to_string(),
        stderr: "é".to_string(),
    }
}

fn entry(bytes: u64) -> MetadataResultCacheEntry {
    MetadataResultCacheEntry {
        manifest_size_bytes: 10,
        manifest_modified_unix_ms: 20,
        lock_hash: "lock".to_string(),
        workspace_manifests_hash: "ws".to_string(),
        run: run("{}"),
        estimated_bytes: bytes,
    }
}

#[test]
fn run_size_counts_output_command_and_overhead() {
    // 2 (stdout) + 2 (stderr, one two-byte char) + 5 + 8 (command) + 256
    assert_eq!(metadata_run_estimated_bytes(&run("{}")), 273);
}

#[test]
fn entries_match_only_current_inputs() {
    let e = entry(1);
    assert!(metadata_cache_entry_matches(&e, 10, 20, "lock", "ws"));
    assert!(!metadata_cache_entry_matches(&e, 11, 20, "lock", "ws"));
    assert!(!metadata_cache_entry_matches(&e, 10, 21, "lock", "ws"));
    assert!(!metadata_cache_entry_matches(&e, 10, 20, "other", "ws"));
    assert!(!metadata_cache_entry_matches(&e, 10, 20, "lock", "other"));
    let f = MetadataResultCacheFile {
        schema_version: METADATA_RESULT_CACHE_SCHEMA_VERSION,
        manifest_size_bytes: 10,
        manifest_modified_unix_ms: 20,
        lock_hash: "lock".to_string(),
        workspace_manifests_hash: String::new(),
        run: run("{}"),
    };
    assert!(metadata_cache_file_matches(&f, 10, 20, "lock", ""));
    assert!(!metadata_cache_file_matches(&f, 10, 20, "lock", "ws"));
}

#[test]
fn eviction_respects_entry_and_byte_budgets() {
    let mut cache: AccessCache<MetadataResultCacheEntry> = AccessCache::new();
    cache.insert("a".to_string(), entry(100), 1);
    cache.insert("b".to_string(), entry(100), 2);
    cache.insert("c".to_string(), entry(100), 3);
    evict_oldest_metadata_result_cache_entries(&mut cache, 10, 0);
    assert_eq!(cache.len(), 3);
    assert_eq!(cache.total_weight(), 300);
    evict_oldest_metadata_result_cache_entries(&mut cache, 10, 250);
    assert_eq!(cache.len(), 2);
    assert!(cache.get(&"a".to_string()).is_none());
    evict_oldest_metadata_result_cache_entries(&mut cache, 1, 0);
    assert_eq!(cache.len(), 1);
    assert!(cache.get(&"c".to_string()).is_some());
    evict_oldest_metadata_result_cache_entries(&mut cache, 10, 50);
    assert_eq!(cache.len(), 0);
}

#[test]
fn lookup_returns_fresh_results_and_drops_stale_ones() {
    let mut cache: AccessCache<MetadataResultCacheEntry> = AccessCache::new();
    remember_metadata_result(&mut cache, "k".to_string(), entry(10), 5, 4, 0);
    let hit = lookup_metadata_result_cached(&mut cache, &"k".to_string(), 10, 20, "lock", "ws", 9).unwrap();
    assert_eq!(hit.stdout, "{}");
    assert_eq!(f64::from_bits(hit.elapsed_ms_bits), 1.5);
    assert_eq!(cache.last_access(&"k".to_string()), Some(9));
    assert!(lookup_metadata_result_cached(&mut cache, &"k".to_string(), 10, 20, "new-lock", "ws", 10).is_none());
    assert_eq!(cache.len(), 0);
    assert!(lookup_metadata_result_cached(&mut cache, &"k".to_string(), 10, 20, "lock", "ws", 11).is_none());
}

#[test]
fn remembering_evicts_the_oldest_beyond_budget() {
    let mut cache: AccessCache<MetadataResultCacheEntry> = AccessCache::new();
    remember_metadata_result(&mut cache, "a".to_string(), entry(60), 1, 10, 100);
    remember_metadata_result(&mut cache, "b".to_string(), entry(60), 2, 10, 100);
    assert_eq!(cache.len(), 1);
    assert!(cache.get(&"b".to_string()).is_some());
}
