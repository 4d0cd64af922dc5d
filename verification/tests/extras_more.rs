use uc_cli::budget::{enforce_cache_size_budget, next_cache_eviction, CacheFileInfo};
use uc_cli::deproots::{select_external_path_dependency_roots, MAX_EXTERNAL_PATH_DEPENDENCY_ROOTS};
use uc_cli::errors::ErrorKind;
use uc_cli::logs::{metadata_cache_workspace_root_for_manifest, AncestorInfo};
use uc_cli::persist::{try_mark_async_persist_in_flight, AsyncPersistGuard, AsyncPersistState};

fn strings(v: &[&str]) -> Vec<String> {
    v.iter().map(|s| s.to_string()).collect()
}

#[test]
fn external_roots_skip_the_workspace_and_stay_flat() {
    let roots = select_external_path_dependency_roots(
        "/w",
        &strings(&["/w/crates/a", "/ext/lib/sub", "/ext/lib", "/w", "/other"]),
    )
    .unwrap();
    assert_eq!(roots, strings(&["/ext/lib", "/other"]));
    let many: Vec<String> = (0..=MAX_EXTERNAL_PATH_DEPENDENCY_ROOTS).map(|i| format!("/e{i}")).collect();
    assert!(matches!(
        select_external_path_dependency_roots("/w", &many).unwrap_err().kind,
        ErrorKind::TooManyExternalPathDependencyRoots { limit: 64 }
    ));
    let inside: Vec<String> = (0..100).map(|i| format!("/w/d{i}")).collect();
    assert!(select_external_path_dependency_roots("/w", &inside).unwrap().is_empty());
}

#[test]
fn eviction_stops_once_within_budget() {
    let files = vec![
        CacheFileInfo { path: "/c/entries/a.json".to_string(), size: 30, modified_ms: 1, is_object: false },
        CacheFileInfo { path: "/c/objects/x".to_string(), size: 50, modified_ms: 5, is_object: true },
        CacheFileInfo { path: "/c/objects/y".to_string(), size: 40, modified_ms: 2, is_object: true },
    ];
    let plan = enforce_cache_size_budget(&files, 60);
    assert!(plan.over_budget);
    assert_eq!(plan.total, 120);
    assert_eq!(next_cache_eviction(&plan, 0, 120, 60), Some(2));
    assert_eq!(next_cache_eviction(&plan, 1, 80, 60), Some(1));
    assert_eq!(next_cache_eviction(&plan, 2, 30, 60), None);
    assert_eq!(next_cache_eviction(&plan, 3, 100, 60), None);
}

#[test]
fn metadata_root_needs_a_manifest_parent() {
    let ancestors = vec![AncestorInfo {
        path: "/w".to_string(),
        has_manifest: true,
        has_lockfile: true,
        manifest_has_workspace_table: false,
    }];
    assert_eq!(metadata_cache_workspace_root_for_manifest("/w/Scarb.toml", &ancestors).unwrap(), "/w");
    assert_eq!(metadata_cache_workspace_root_for_manifest("/w/Scarb.toml", &vec![]).unwrap(), "/w");
    assert!(matches!(
        metadata_cache_workspace_root_for_manifest("/", &ancestors).unwrap_err().kind,
        ErrorKind::ManifestPathHasNoParent
    ));
}

#[test]
fn persist_guard_release_frees_its_scope() {
    let mut state = AsyncPersistState::new();
    assert!(try_mark_async_persist_in_flight(&mut state, "/w::dev"));
    let guard = AsyncPersistGuard::new("/w::dev".to_string());
    assert!(!try_mark_async_persist_in_flight(&mut state, "/w::dev"));
    guard.release(&mut state);
    assert!(try_mark_async_persist_in_flight(&mut state, "/w::dev"));
}
