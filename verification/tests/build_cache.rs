use uc_cli::artifacts::{cache_object_rel_path, is_cacheable_artifact_name};
use uc_cli::budget::{
    cache_eviction_stop, enforce_cache_size_budget, is_removable_cache_path, removable_cache_files,
    CacheFileInfo,
};
use uc_cli::build_cache::{
    build_cache_start, build_cache_step, BuildCacheAction, BuildCacheEvent, BuildCacheOptions,
    BuildCachePhase, BuildCacheState, BUILD_CACHE_SCHEMA_VERSION,
};
use uc_cli::store::BuildCacheEntry;

fn opts(shared: bool, async_persist: bool, fail: bool) -> BuildCacheOptions {
    BuildCacheOptions { use_daemon_shared_cache: shared, async_cache_persist: async_persist, fail_on_async_cache_error: fail }
}

fn entry(fp: &str, profile: &str) -> BuildCacheEntry {
    BuildCacheEntry { schema_version: BUILD_CACHE_SCHEMA_VERSION, fingerprint: fp.to_string(), profile: profile.to_string(), artifacts: vec![] }
}

fn step(s: BuildCacheState, e: BuildCacheEvent) -> (BuildCacheState, BuildCacheAction) {
    build_cache_step(s, e)
}

#[test]
fn cache_hit_when_fingerprint_matches_and_artifacts_ready() {
    let s = build_cache_start(opts(false, false, false), "dev".to_string());
    let (s, a) = step(s, BuildCacheEvent::Started { async_errors: vec![], local_cache_preexisted: true });
    assert!(matches!(a, BuildCacheAction::LoadEntry { ref warnings } if warnings.is_empty()));
    let (s, a) = step(s, BuildCacheEvent::EntryLoaded { entry: Some(entry("f1", "dev")) });
    assert!(matches!(a, BuildCacheAction::ComputeFingerprint));
    let (s, a) = step(s, BuildCacheEvent::FingerprintComputed { fingerprint: "f1".to_string() });
    assert!(matches!(a, BuildCacheAction::RestoreArtifacts));
    let (s, a) = step(s, BuildCacheEvent::ArtifactsReady { ready: true });
    assert!(matches!(a, BuildCacheAction::Finish { cache_hit: true, restored_artifacts: 0 }));
    assert_eq!(s.phase, BuildCachePhase::Done);
}

#[test]
fn fingerprint_mismatch_compiles_and_persists_after_success() {
    let s = build_cache_start(opts(false, false, false), "dev".to_string());
    let (s, _) = step(s, BuildCacheEvent::Started { async_errors: vec![], local_cache_preexisted: false });
    let (s, _) = step(s, BuildCacheEvent::EntryLoaded { entry: Some(entry("f1", "dev")) });
    let (s, a) = step(s, BuildCacheEvent::FingerprintComputed { fingerprint: "f2".to_string() });
    assert!(matches!(a, BuildCacheAction::Compile));
    let (s, a) = step(s, BuildCacheEvent::CompileFinished { exit_code: 0 });
    assert!(matches!(a, BuildCacheAction::PersistSync { also_shared: false }));
    assert_eq!(s.fingerprint.as_deref(), Some("f2"));
}

#[test]
fn failed_compile_never_persists() {
    let s = build_cache_start(opts(false, true, false), "dev".to_string());
    let (s, _) = step(s, BuildCacheEvent::Started { async_errors: vec![], local_cache_preexisted: false });
    let (s, a) = step(s, BuildCacheEvent::EntryLoaded { entry: Some(entry("f1", "release")) });
    assert!(matches!(a, BuildCacheAction::Compile));
    let (s, a) = step(s, BuildCacheEvent::CompileFinished { exit_code: 1 });
    assert!(matches!(a, BuildCacheAction::Finish { cache_hit: false, .. }));
    let (_, a) = step(s, BuildCacheEvent::PersistClaimed { claimed: true });
    assert!(matches!(a, BuildCacheAction::Ignore));
}

#[test]
fn async_persist_claims_scope_then_schedules() {
    let s = build_cache_start(opts(true, true, false), "dev".to_string());
    let (s, _) = step(s, BuildCacheEvent::Started { async_errors: vec![], local_cache_preexisted: false });
    let (s, a) = step(s, BuildCacheEvent::EntryLoaded { entry: None });
    assert!(matches!(a, BuildCacheAction::ProbeSharedEntry));
    let (s, a) = step(s, BuildCacheEvent::SharedEntryProbed { exists: false });
    assert!(matches!(a, BuildCacheAction::Compile));
    let (s, a) = step(s, BuildCacheEvent::CompileFinished { exit_code: 0 });
    assert!(matches!(a, BuildCacheAction::ComputeFingerprint));
    let (s, a) = step(s, BuildCacheEvent::FingerprintComputed { fingerprint: "f".to_string() });
    assert!(matches!(a, BuildCacheAction::ClaimAsyncPersist { shared_first: true }));
    let (_, a) = step(s, BuildCacheEvent::PersistClaimed { claimed: true });
    assert!(matches!(a, BuildCacheAction::ScheduleAsyncPersist));
}

#[test]
fn earlier_async_errors_fail_only_when_configured() {
    let s = build_cache_start(opts(false, false, true), "dev".to_string());
    let (_, a) = step(s, BuildCacheEvent::Started { async_errors: vec!["disk full".to_string()], local_cache_preexisted: true });
    assert!(matches!(a, BuildCacheAction::Fail { ref errors } if errors == &vec!["disk full".to_string()]));
    let s = build_cache_start(opts(false, false, false), "dev".to_string());
    let (_, a) = step(s, BuildCacheEvent::Started { async_errors: vec!["disk full".to_string()], local_cache_preexisted: true });
    assert!(matches!(a, BuildCacheAction::LoadEntry { ref warnings } if warnings.len() == 1));
}

#[test]
fn budget_stop_and_lock_exclusion() {
    let files = vec![
        CacheFileInfo { path: "/c/.lock".to_string(), size: 1, modified_ms: 0, is_object: false },
        CacheFileInfo { path: "/c/objects/aa/x.bin".to_string(), size: 50, modified_ms: 1, is_object: true },
        CacheFileInfo { path: "/c/build/e.json".to_string(), size: 30, modified_ms: 2, is_object: false },
        CacheFileInfo { path: "/c/objects/bb/y.bin".to_string(), size: 40, modified_ms: 3, is_object: true },
    ];
    assert!(!is_removable_cache_path("/c/.lock"));
    assert!(is_removable_cache_path("/c/objects/aa/x.bin"));
    let kept = removable_cache_files(files);
    assert_eq!(kept.len(), 3);
    let plan = enforce_cache_size_budget(&kept, 60);
    assert_eq!(plan.total, 120);
    assert_eq!(plan.order, vec![0, 2, 1]);
    assert_eq!(cache_eviction_stop(&kept, &plan, 60), 2);
    assert_eq!(cache_eviction_stop(&kept, &plan, 100), 1);
    let fits = enforce_cache_size_budget(&kept, 500);
    assert_eq!(cache_eviction_stop(&kept, &fits, 500), 0);
}

#[test]
fn cacheable_artifacts_and_object_paths() {
    assert!(is_cacheable_artifact_name("hello_Counter.contract_class.json"));
    assert!(is_cacheable_artifact_name("hello.sierra"));
    assert!(is_cacheable_artifact_name("hello.starknet_artifacts.json"));
    assert!(!is_cacheable_artifact_name("hello.json"));
    assert!(!is_cacheable_artifact_name("casm"));
    assert_eq!(cache_object_rel_path("abcdef"), "ab/abcdef.bin");
}

#[test]
fn workspace_manifests_hash_digests_paths_sizes_and_times() {
    let manifests = vec![("Scarb.toml".to_string(), 120u64, 1_700u64), ("crates/a/Scarb.toml".to_string(), 80, 9)];
    let mut h = blake3::Hasher::new();
    h.update(b"uc-metadata-workspace-manifests-v1");
    for (rel, size, mtime) in &manifests {
        h.update(rel.as_bytes());
        h.update(b"\n");
        h.update(size.to_string().as_bytes());
        h.update(b"\n");
        h.update(mtime.to_string().as_bytes());
        h.update(b"\n");
    }
    assert_eq!(
        uc_cli::metadata_cache::workspace_manifests_hash(&manifests),
        h.finalize().to_hex().to_string()
    );
}

#[test]
fn error_queue_keeps_newest_over_many_records() {
    let mut state = uc_cli::persist::AsyncPersistState::new();
    for i in 1..=40 {
        uc_cli::persist::record_async_persist_error(&mut state, format!("e{i}"), 32);
    }
    let taken = uc_cli::persist::take_async_persist_errors(&mut state);
    let expected: Vec<String> = (9..=40).map(|i| format!("e{i}")).collect();
    assert_eq!(taken, expected);
    assert!(uc_cli::persist::take_async_persist_errors(&mut state).is_empty());
}
