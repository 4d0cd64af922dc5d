use uc_cli::access_cache::AccessCache;
use uc_cli::keys::SessionInput;
use uc_cli::session_cache::{
    copy_session_input, lookup_daemon_build_plan_cached, lookup_lock_hash_cached,
    lookup_session_input_cached, store_daemon_build_plan_cached, store_lock_hash_cached,
    store_session_input_cached, DaemonBuildPlan, DaemonBuildPlanCacheEntry,
    LockfileHashCacheEntry, SessionInputCacheEntry,
};

fn input(profile: &str) -> SessionInput {
    SessionInput {
        compiler_version: "scarb 2.14.0".to_string(),
        profile: profile.to_string(),
        offline: true,
        package: Some("demo".to_string()),
        features: vec!["a".to_string(), "b".to_string()],
        cfg_set: vec![],
        manifest_content_hash: "abc".to_string(),
        target_family: "starknet".to_string(),
        cairo_edition: None,
        cairo_lang_version: Some("2.14.0".to_string()),
        build_env_fingerprint: "env".to_string(),
    }
}

fn plan(key: &str) -> DaemonBuildPlan {
    DaemonBuildPlan {
        manifest_path: "/w/Scarb.toml".to_string(),
        workspace_root: "/w".to_string(),
        profile: "dev".to_string(),
        session_key: key.to_string(),
        strict_invalidation_key: "strict".to_string(),
    }
}

#[test]
fn copied_session_input_holds_the_same_values() {
    let original = input("release");
    let copy = copy_session_input(&original);
    assert_eq!(copy.profile, "release");
    assert_eq!(copy.features, vec!["a".to_string(), "b".to_string()]);
    assert_eq!(copy.package, Some("demo".to_string()));
    assert_eq!(copy.cairo_edition, None);
    assert!(copy.offline);
}

#[test]
fn session_input_lookup_hits_only_when_manifest_unchanged() {
    let mut cache: AccessCache<SessionInputCacheEntry> = AccessCache::new();
    let entry = SessionInputCacheEntry {
        manifest_size_bytes: 100,
        manifest_modified_unix_ms: 5,
        input: input("dev"),
    };
    store_session_input_cached(&mut cache, "k".to_string(), entry, 10, 4);
    let hit = lookup_session_input_cached(&mut cache, &"k".to_string(), 100, 5, 20);
    assert_eq!(hit.map(|i| i.profile), Some("dev".to_string()));
    assert_eq!(cache.last_access(&"k".to_string()), Some(20));
    let stale = lookup_session_input_cached(&mut cache, &"k".to_string(), 101, 5, 30);
    assert!(stale.is_none());
    assert_eq!(cache.last_access(&"k".to_string()), Some(30));
    let missing = lookup_session_input_cached(&mut cache, &"other".to_string(), 100, 5, 40);
    assert!(missing.is_none());
    assert_eq!(cache.len(), 1);
}

#[test]
fn build_plan_lookup_checks_lockfile_state() {
    let mut cache: AccessCache<DaemonBuildPlanCacheEntry> = AccessCache::new();
    let entry = DaemonBuildPlanCacheEntry {
        manifest_size_bytes: 1,
        manifest_modified_unix_ms: 2,
        lock_size_bytes: Some(3),
        lock_modified_unix_ms: Some(4),
        lock_hash: "h".to_string(),
        plan: plan("session-1"),
    };
    store_daemon_build_plan_cached(&mut cache, "p".to_string(), entry, 1, 4);
    let key = "p".to_string();
    let hit = lookup_daemon_build_plan_cached(&mut cache, &key, 1, 2, Some(3), Some(4), "h", 5);
    assert_eq!(hit.map(|p| p.session_key), Some("session-1".to_string()));
    assert!(lookup_daemon_build_plan_cached(&mut cache, &key, 1, 2, Some(3), Some(4), "x", 6).is_none());
    assert!(lookup_daemon_build_plan_cached(&mut cache, &key, 1, 2, None, Some(4), "h", 7).is_none());
    assert!(lookup_daemon_build_plan_cached(&mut cache, &key, 1, 9, Some(3), Some(4), "h", 8).is_none());
    assert_eq!(cache.last_access(&key), Some(8));
}

#[test]
fn lock_hash_lookup_and_store_evicts_oldest() {
    let mut cache: AccessCache<LockfileHashCacheEntry> = AccessCache::new();
    for (i, name) in ["a", "b", "c"].iter().enumerate() {
        let entry = LockfileHashCacheEntry {
            size_bytes: 10,
            modified_unix_ms: 20,
            change_unix_ms: Some(30),
            lock_hash: format!("hash-{name}"),
        };
        store_lock_hash_cached(&mut cache, name.to_string(), entry, i as u64, 2);
    }
    assert_eq!(cache.len(), 2);
    assert!(cache.get(&"a".to_string()).is_none());
    let hit = lookup_lock_hash_cached(&mut cache, &"b".to_string(), 10, 20, Some(30), 99);
    assert_eq!(hit, Some("hash-b".to_string()));
    let changed = lookup_lock_hash_cached(&mut cache, &"c".to_string(), 10, 20, None, 100);
    assert!(changed.is_none());
}
