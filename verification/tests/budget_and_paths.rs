use uc_cli::artifact_paths::{
    ensure_path_within_root, validate_cache_object_rel_path, validated_relative_artifact_path,
};
use uc_cli::budget::{
    apply_cache_eviction_outcome, cache_eviction_order, cache_usage_is_high,
    enforce_cache_size_budget, should_enforce_cache_size_budget_for_persist_index,
    should_enforce_cache_size_budget_for_state, should_enforce_cache_size_budget_now,
    CacheBudgetGate, CacheFileInfo, RemovalOutcome,
};
use uc_cli::errors::ErrorKind;
use uc_cli::paths::{
    fingerprint_key_path, is_ignored_entry, is_removable_cache_file, normalize_fingerprint_path,
    should_include_fingerprint_file,
};

fn file(path: &str, size: u64, modified_ms: u64, is_object: bool) -> CacheFileInfo {
    CacheFileInfo { path: path.to_string(), size, modified_ms, is_object }
}

#[test]
fn budget_gate_checks_every_nth_persist() {
    assert!(should_enforce_cache_size_budget_for_persist_index(5, 1));
    assert!(should_enforce_cache_size_budget_for_persist_index(8, 8));
    assert!(!should_enforce_cache_size_budget_for_persist_index(9, 8));
    assert!(should_enforce_cache_size_budget_for_state(8, 8, 1_000, 0, 0));
    assert!(!should_enforce_cache_size_budget_for_state(8, 8, 1_000, 0, 10));
    assert!(should_enforce_cache_size_budget_for_state(8, 8, 1_000, 990, 10));
    assert!(!should_enforce_cache_size_budget_for_state(8, 8, 1_000, 995, 10));
}

#[test]
fn budget_gate_starts_its_interval_on_first_chance() {
    let mut gate = CacheBudgetGate { persist_count: 0, last_enforced_ms: 0 };
    assert!(!should_enforce_cache_size_budget_now(&mut gate, 2, 100, 1_000));
    assert_eq!(gate.persist_count, 1);
    assert!(!should_enforce_cache_size_budget_now(&mut gate, 2, 100, 1_000));
    assert_eq!(gate.last_enforced_ms, 1_000);
    assert!(!should_enforce_cache_size_budget_now(&mut gate, 2, 100, 1_200));
    assert!(should_enforce_cache_size_budget_now(&mut gate, 2, 100, 1_200));
    assert_eq!(gate.last_enforced_ms, 1_200);
    let mut eager = CacheBudgetGate { persist_count: 0, last_enforced_ms: 0 };
    assert!(should_enforce_cache_size_budget_now(&mut eager, 1, 0, 5));
}

#[test]
fn eviction_prefers_objects_then_age_then_path() {
    let files = vec![
        file("/c/entries/b.json", 1, 5, false),
        file("/c/objects/aa/x", 1, 9, true),
        file("/c/objects/aa/w", 1, 9, true),
        file("/c/objects/ab/y", 1, 3, true),
        file("/c/entries/a.json", 1, 5, false),
        file("/c/entries.json", 1, 5, false),
    ];
    assert_eq!(cache_eviction_order(&files), vec![3, 2, 1, 4, 0, 5]);
}

#[test]
fn budget_plan_lists_files_only_when_over_budget() {
    let files = vec![file("/c/a", 60, 1, false), file("/c/objects/b", 50, 2, true)];
    let within = enforce_cache_size_budget(&files, 200);
    assert_eq!(within.total, 110);
    assert!(!within.over_budget && within.order.is_empty());
    let disabled = enforce_cache_size_budget(&files, 0);
    assert!(!disabled.over_budget);
    let over = enforce_cache_size_budget(&files, 100);
    assert!(over.over_budget);
    assert_eq!(over.order, vec![1, 0]);
    assert!(cache_usage_is_high(91, 100));
    assert!(!cache_usage_is_high(90, 100));
    assert!(cache_usage_is_high(u64::MAX, u64::MAX));
}

#[test]
fn eviction_outcomes_update_totals() {
    assert_eq!(apply_cache_eviction_outcome(100, 0, 30, RemovalOutcome::Removed), (70, 30));
    assert_eq!(apply_cache_eviction_outcome(100, 5, 30, RemovalOutcome::NotFound), (70, 5));
    assert_eq!(apply_cache_eviction_outcome(100, 5, 30, RemovalOutcome::Failed), (100, 5));
    assert_eq!(apply_cache_eviction_outcome(10, 0, 30, RemovalOutcome::Removed), (0, 30));
}

#[test]
fn fingerprint_paths_are_normalized() {
    assert_eq!(normalize_fingerprint_path("\\\\?\\C:\\ws\\src"), "C:/ws/src");
    assert_eq!(normalize_fingerprint_path("src/lib.cairo"), "src/lib.cairo");
    let once = normalize_fingerprint_path("a\\b");
    assert_eq!(normalize_fingerprint_path(&once), once);
    assert_eq!(fingerprint_key_path("/ws", "src/lib.cairo"), "/ws/src/lib.cairo");
    assert_eq!(fingerprint_key_path("/ws/", "src"), "/ws/src");
    assert_eq!(fingerprint_key_path("/ws", "/abs/file"), "/abs/file");
}

#[test]
fn fingerprint_walk_selects_sources_and_skips_state_dirs() {
    assert!(is_ignored_entry(false, Some("target")));
    assert!(is_ignored_entry(false, Some(".git")));
    assert!(!is_ignored_entry(true, Some("target")));
    assert!(!is_ignored_entry(false, Some("src")));
    assert!(should_include_fingerprint_file(Some("Scarb.toml")));
    assert!(should_include_fingerprint_file(Some("lib.cairo")));
    assert!(!should_include_fingerprint_file(Some("lib.CAIRO")));
    assert!(!should_include_fingerprint_file(Some(".cairo")));
    assert!(!should_include_fingerprint_file(Some("README.md")));
    assert!(!should_include_fingerprint_file(None));
    assert!(is_removable_cache_file(Some("entry.json")));
    assert!(!is_removable_cache_file(Some(".lock")));
    assert!(!is_removable_cache_file(None));
}

#[test]
fn artifact_paths_stay_relative() {
    assert_eq!(validated_relative_artifact_path("./a//b/./c.json").unwrap(), "a/b/c.json");
    assert!(matches!(
        validated_relative_artifact_path("/etc/passwd").unwrap_err().kind,
        ErrorKind::ArtifactPathAbsolute
    ));
    assert!(matches!(
        validated_relative_artifact_path("a/../../b").unwrap_err().kind,
        ErrorKind::ArtifactPathInvalidComponent
    ));
    assert!(matches!(
        validated_relative_artifact_path("./.").unwrap_err().kind,
        ErrorKind::ArtifactPathEmpty
    ));
    assert!(validate_cache_object_rel_path("ab/cdef").is_ok());
    assert!(validate_cache_object_rel_path("ab/./cdef").is_ok());
    assert!(validate_cache_object_rel_path("./ab").is_err());
    assert!(validate_cache_object_rel_path("ab/../cd").is_err());
    assert!(validate_cache_object_rel_path("/ab").is_err());
    assert!(ensure_path_within_root("/ws/target", "/ws/target/dev/a.json").is_ok());
    assert!(ensure_path_within_root("/ws/target", "/ws/target").is_ok());
    assert!(ensure_path_within_root("/ws/target", "/ws/targetx/a").is_err());
}
