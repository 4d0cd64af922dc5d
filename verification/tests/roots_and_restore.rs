use uc_cli::restore::{existing_artifact_verdict, validate_cached_artifact_for_restore, ExistingArtifactVerdict};
use uc_cli::access_cache::AccessCache;
use uc_cli::deproots::{
    accept_external_path_dependency_root, collect_external_path_dependency_roots, path_within_exec,
    MAX_EXTERNAL_PATH_DEPENDENCY_ROOTS,
};
use uc_cli::errors::ErrorKind;
use uc_cli::restore::{cached_artifacts_already_materialized, ArtifactObservation};
use uc_cli::store::{
    artifact_index_cache_key, build_entry_cache_key, cache_object_hash_memo_key,
    evict_oldest_artifact_index_cache_entries, evict_oldest_cache_object_hash_memo_entries,
    evict_oldest_fingerprint_index_cache_entries, load_artifact_index_cached,
    store_artifact_index_cached, ArtifactIndex, ArtifactIndexEntry, CacheObjectHashMemoEntry,
    CachedArtifact, FingerprintIndex,
};

fn chars(s: &str) -> Vec<char> {
    s.chars().collect()
}

fn strings(v: &[&str]) -> Vec<String> {
    v.iter().map(|s| s.to_string()).collect()
}

#[test]
fn path_within_compares_whole_components() {
    assert!(path_within_exec(&chars("/a/b"), &chars("/a")));
    assert!(path_within_exec(&chars("/a"), &chars("/a")));
    assert!(path_within_exec(&chars("/a"), &chars("/")));
    assert!(!path_within_exec(&chars("/ab"), &chars("/a")));
    assert!(!path_within_exec(&chars("/a"), &chars("/a/b")));
}

#[test]
fn accepted_roots_absorb_nested_directories() {
    let mut accepted: Vec<Vec<char>> = Vec::new();
    accept_external_path_dependency_root(&mut accepted, &chars("/deps/a/b")).unwrap();
    accept_external_path_dependency_root(&mut accepted, &chars("/deps/c")).unwrap();
    accept_external_path_dependency_root(&mut accepted, &chars("/deps/a")).unwrap();
    accept_external_path_dependency_root(&mut accepted, &chars("/deps/a/x")).unwrap();
    assert_eq!(accepted, vec![chars("/deps/c"), chars("/deps/a")]);
}

#[test]
fn external_roots_are_deduplicated_and_sorted() {
    let roots = collect_external_path_dependency_roots(&strings(&[
        "/z/lib",
        "/a/lib/sub",
        "/a/lib",
        "/z/lib/inner",
        "/m",
    ]))
    .unwrap();
    assert_eq!(roots, strings(&["/a/lib", "/m", "/z/lib"]));
    assert_eq!(collect_external_path_dependency_roots(&vec![]).unwrap(), Vec::<String>::new());
}

#[test]
fn too_many_external_roots_are_refused() {
    let many: Vec<String> = (0..=MAX_EXTERNAL_PATH_DEPENDENCY_ROOTS).map(|i| format!("/d{i}")).collect();
    let e = collect_external_path_dependency_roots(&many).unwrap_err();
    assert!(matches!(e.kind, ErrorKind::TooManyExternalPathDependencyRoots { limit: 64 }));
    let exactly: Vec<String> = many[..MAX_EXTERNAL_PATH_DEPENDENCY_ROOTS].to_vec();
    assert_eq!(collect_external_path_dependency_roots(&exactly).unwrap().len(), 64);
}

fn artifact(path: &str, hash: &str, size: u64) -> CachedArtifact {
    CachedArtifact {
        relative_path: path.to_string(),
        blake3_hex: hash.to_string(),
        size_bytes: size,
        object_rel_path: format!("objects/{hash}"),
    }
}

fn index_with(path: &str, size: u64, modified: u64, hash: &str) -> ArtifactIndex {
    let mut index = ArtifactIndex::empty();
    index.entries.push((
        path.to_string(),
        ArtifactIndexEntry { size_bytes: size, modified_unix_ms: modified, blake3_hex: hash.to_string() },
    ));
    index
}

fn seen(size: u64, modified: u64) -> Option<ArtifactObservation> {
    Some(ArtifactObservation { is_file: true, size_bytes: size, modified_unix_ms: modified })
}

#[test]
fn materialized_artifacts_are_recognised() {
    let index = index_with("dev/a.json", 3, 50, "abcd");
    let artifacts = vec![artifact("dev/a.json", "abcd", 3)];
    assert_eq!(cached_artifacts_already_materialized(&index, &artifacts, &vec![seen(3, 50)]).unwrap(), true);
    assert_eq!(cached_artifacts_already_materialized(&index, &artifacts, &vec![seen(3, 51)]).unwrap(), false);
    assert_eq!(cached_artifacts_already_materialized(&index, &artifacts, &vec![None]).unwrap(), false);
    let dir = Some(ArtifactObservation { is_file: false, size_bytes: 3, modified_unix_ms: 50 });
    assert_eq!(cached_artifacts_already_materialized(&index, &artifacts, &vec![dir]).unwrap(), false);
    let other_hash = vec![artifact("dev/a.json", "beef", 3)];
    assert_eq!(cached_artifacts_already_materialized(&index, &other_hash, &vec![seen(3, 50)]).unwrap(), false);
    let unindexed = vec![artifact("dev/b.json", "abcd", 3)];
    assert_eq!(cached_artifacts_already_materialized(&index, &unindexed, &vec![seen(3, 50)]).unwrap(), false);
    assert_eq!(cached_artifacts_already_materialized(&index, &vec![], &vec![]).unwrap(), true);
}

#[test]
fn invalid_artifacts_are_errors() {
    let index = ArtifactIndex::empty();
    let bad_hash = vec![artifact("dev/a.json", "xyz", 3)];
    let e = cached_artifacts_already_materialized(&index, &bad_hash, &vec![None]).unwrap_err();
    assert!(matches!(e.kind, ErrorKind::HexDigestNotHex));
    let escaping = vec![artifact("../a.json", "abcd", 3)];
    let e = cached_artifacts_already_materialized(&index, &escaping, &vec![None]).unwrap_err();
    assert!(matches!(e.kind, ErrorKind::ArtifactPathInvalidComponent));
    let absolute = vec![artifact("/a.json", "abcd", 3)];
    let e = cached_artifacts_already_materialized(&index, &absolute, &vec![None]).unwrap_err();
    assert!(matches!(e.kind, ErrorKind::ArtifactPathAbsolute));
}

#[test]
fn cache_keys_normalise_separators() {
    assert_eq!(artifact_index_cache_key("a\\b\\c.json"), "a/b/c.json");
    assert_eq!(build_entry_cache_key("/x/y"), "/x/y");
    assert_eq!(cache_object_hash_memo_key("\\\\?\\C:\\o"), "C:/o");
}

#[test]
fn artifact_index_cache_stores_loads_and_evicts() {
    let mut cache: AccessCache<ArtifactIndex> = AccessCache::new();
    store_artifact_index_cached(&mut cache, "one".to_string(), index_with("a", 1, 1, "ab"), 10, 2);
    store_artifact_index_cached(&mut cache, "two".to_string(), ArtifactIndex::empty(), 20, 2);
    assert_eq!(load_artifact_index_cached(&mut cache, &"one".to_string(), 30).unwrap().entries.len(), 1);
    store_artifact_index_cached(&mut cache, "three".to_string(), ArtifactIndex::empty(), 40, 2);
    assert_eq!(cache.len(), 2);
    assert!(load_artifact_index_cached(&mut cache, &"two".to_string(), 50).is_none());
    evict_oldest_artifact_index_cache_entries(&mut cache, 1);
    assert_eq!(cache.len(), 1);
    assert!(cache.get(&"three".to_string()).is_some());

    let mut fp: AccessCache<FingerprintIndex> = AccessCache::new();
    fp.insert("a".to_string(), FingerprintIndex::empty(), 1);
    fp.insert("b".to_string(), FingerprintIndex::empty(), 2);
    evict_oldest_fingerprint_index_cache_entries(&mut fp, 1);
    assert!(fp.get(&"b".to_string()).is_some());
    assert_eq!(fp.len(), 1);

    let mut memo: AccessCache<CacheObjectHashMemoEntry> = AccessCache::new();
    let m = CacheObjectHashMemoEntry { size_bytes: 1, modified_unix_ms: 1, blake3_hex: "ab".to_string() };
    memo.insert("a".to_string(), m.clone(), 5);
    memo.insert("b".to_string(), m, 3);
    evict_oldest_cache_object_hash_memo_entries(&mut memo, 1);
    assert!(memo.get(&"a".to_string()).is_some());
    assert!(memo.get(&"b".to_string()).is_none());
}

#[test]
fn restore_validates_artifacts_and_judges_existing_files() {
    let good = artifact("dev\\a.json", "abcd", 3);
    assert_eq!(validate_cached_artifact_for_restore(&good).unwrap(), "dev/a.json");
    let mut bad_object = artifact("dev/a.json", "abcd", 3);
    bad_object.object_rel_path = "../x.bin".to_string();
    assert!(matches!(
        validate_cached_artifact_for_restore(&bad_object).unwrap_err().kind,
        ErrorKind::CacheObjectPathInvalidComponent
    ));
    let index = index_with("dev/a.json", 3, 50, "abcd");
    let v = |o, hash: &str, size, max| existing_artifact_verdict(&index, "dev/a.json", o, hash, size, max);
    assert_eq!(v(None, "abcd", 3, 100), ExistingArtifactVerdict::Restore);
    assert_eq!(v(seen(3, 50), "abcd", 3, 100), ExistingArtifactVerdict::InPlace);
    assert_eq!(v(seen(3, 51), "abcd", 3, 100), ExistingArtifactVerdict::HashToConfirm);
    assert_eq!(v(seen(3, 51), "abcd", 3, 2), ExistingArtifactVerdict::Restore);
    assert_eq!(v(seen(4, 50), "abcd", 3, 100), ExistingArtifactVerdict::Restore);
    let dir = Some(ArtifactObservation { is_file: false, size_bytes: 3, modified_unix_ms: 50 });
    assert_eq!(v(dir, "abcd", 3, 100), ExistingArtifactVerdict::Restore);
}
