use uc_cli::access_cache::AccessCache;
use uc_cli::modes::{
    daemon_backend_policy, default_native_build_mode, effective_native_mode,
    native_compile_batch_ranges, native_session_refresh_action, parse_native_build_mode,
    should_probe_local_before_daemon, BenchmarkToolArg, BuildCompileBackend, DaemonBuildBackend,
    DaemonModeArg, EngineArg, MatrixArg, NativeBuildMode, NativeSessionRefreshAction,
};
use uc_cli::telemetry::{
    evict_expired_native_compile_context_cache_entries, metadata_result_cache_stats,
    native_cache_telemetry_snapshot, native_fallback_daemon_backend_downgrade_counter,
    native_fallback_daemon_error_counter, native_fallback_local_error_counter,
    native_fallback_preflight_counter, native_fallback_telemetry_snapshot,
    native_refresh_changed_files_counter, native_refresh_full_rebuild_counter,
    native_refresh_incremental_counter, native_refresh_none_counter,
    native_refresh_removed_files_counter, native_refresh_telemetry_snapshot,
    record_native_fallback, record_native_refresh_telemetry, NativeFallbackReason,
    NativeTelemetry,
};

#[test]
fn native_build_mode_parses_trimmed_any_case() {
    assert_eq!(parse_native_build_mode("off"), NativeBuildMode::Off);
    assert_eq!(parse_native_build_mode("  REQUIRE\n"), NativeBuildMode::Require);
    assert_eq!(parse_native_build_mode("Auto"), NativeBuildMode::Auto);
    assert_eq!(parse_native_build_mode("sometimes"), NativeBuildMode::Auto);
    assert_eq!(parse_native_build_mode(""), NativeBuildMode::Auto);
    assert_eq!(default_native_build_mode(), NativeBuildMode::Auto);
}

#[test]
fn effective_mode_downgrades_only_ineligible_auto() {
    assert_eq!(effective_native_mode(NativeBuildMode::Auto, false), NativeBuildMode::Off);
    assert_eq!(effective_native_mode(NativeBuildMode::Auto, true), NativeBuildMode::Auto);
    assert_eq!(effective_native_mode(NativeBuildMode::Require, false), NativeBuildMode::Require);
    assert_eq!(effective_native_mode(NativeBuildMode::Off, true), NativeBuildMode::Off);
}

#[test]
fn backend_policy_allows_fallback_only_in_auto() {
    assert_eq!(
        daemon_backend_policy(NativeBuildMode::Auto, true),
        (BuildCompileBackend::Native, true)
    );
    assert_eq!(
        daemon_backend_policy(NativeBuildMode::Auto, false),
        (BuildCompileBackend::Scarb, false)
    );
    assert_eq!(
        daemon_backend_policy(NativeBuildMode::Require, false),
        (BuildCompileBackend::Native, false)
    );
    assert_eq!(
        daemon_backend_policy(NativeBuildMode::Off, true),
        (BuildCompileBackend::Scarb, false)
    );
}

#[test]
fn daemon_backend_converts_both_ways() {
    for b in [BuildCompileBackend::Scarb, BuildCompileBackend::Native] {
        assert_eq!(DaemonBuildBackend::from_compile_backend(b).into_compile_backend(), b);
    }
    assert_eq!(
        DaemonBuildBackend::from_compile_backend(BuildCompileBackend::Native),
        DaemonBuildBackend::Native
    );
}

#[test]
fn local_probe_depends_on_daemon_mode() {
    assert!(!should_probe_local_before_daemon(DaemonModeArg::Off, true));
    assert!(should_probe_local_before_daemon(DaemonModeArg::Auto, true));
    assert!(!should_probe_local_before_daemon(DaemonModeArg::Auto, false));
    assert!(should_probe_local_before_daemon(DaemonModeArg::Require, false));
}

#[test]
fn argument_enums_name_themselves() {
    assert_eq!(EngineArg::Scarb.as_str(), "scarb");
    assert_eq!(EngineArg::Uc.as_str(), "uc");
    assert_eq!(MatrixArg::Research.as_str(), "research");
    assert_eq!(MatrixArg::Smoke.as_str(), "smoke");
    assert_eq!(BenchmarkToolArg::Scarb.as_str(), "scarb");
    assert_eq!(BenchmarkToolArg::Uc.as_str(), "uc");
}

#[test]
fn refresh_action_picks_rebuild_incremental_or_nothing() {
    assert_eq!(
        native_session_refresh_action(true, false, 0, 0, 10),
        NativeSessionRefreshAction::FullRebuild
    );
    assert_eq!(
        native_session_refresh_action(false, false, 5, 5, 1),
        NativeSessionRefreshAction::Unchanged
    );
    assert_eq!(
        native_session_refresh_action(false, true, 3, 2, 5),
        NativeSessionRefreshAction::IncrementalChangedSet
    );
    assert_eq!(
        native_session_refresh_action(false, true, 3, 3, 5),
        NativeSessionRefreshAction::FullRebuild
    );
    assert_eq!(
        native_session_refresh_action(false, true, usize::MAX, 1, usize::MAX),
        NativeSessionRefreshAction::IncrementalChangedSet
    );
}

#[test]
fn batch_ranges_cover_all_contracts() {
    assert_eq!(native_compile_batch_ranges(0, 4), Vec::<(usize, usize)>::new());
    assert_eq!(native_compile_batch_ranges(10, 4), vec![(0, 4), (4, 8), (8, 10)]);
    assert_eq!(native_compile_batch_ranges(5, 0), vec![(0, 5)]);
    assert_eq!(native_compile_batch_ranges(3, 7), vec![(0, 3)]);
    assert_eq!(native_compile_batch_ranges(4, 1), vec![(0, 1), (1, 2), (2, 3), (3, 4)]);
}

#[test]
fn fallback_counters_count_by_reason() {
    let mut t = NativeTelemetry::new();
    record_native_fallback(&mut t, NativeFallbackReason::PreflightIneligible);
    record_native_fallback(&mut t, NativeFallbackReason::DaemonNativeError);
    record_native_fallback(&mut t, NativeFallbackReason::DaemonNativeError);
    record_native_fallback(&mut t, NativeFallbackReason::DaemonBackendDowngrade);
    assert_eq!(native_fallback_telemetry_snapshot(&t), (1, 0, 2, 1));
    assert_eq!(native_fallback_preflight_counter(&t), 1);
    assert_eq!(native_fallback_local_error_counter(&t), 0);
    assert_eq!(native_fallback_daemon_error_counter(&t), 2);
    assert_eq!(native_fallback_daemon_backend_downgrade_counter(&t), 1);
    record_native_fallback(&mut t, NativeFallbackReason::LocalNativeError);
    assert_eq!(native_fallback_local_error_counter(&t), 1);
}

#[test]
fn fallback_counter_wraps_around() {
    let mut t = NativeTelemetry::new();
    t.fallback_preflight = u64::MAX;
    record_native_fallback(&mut t, NativeFallbackReason::PreflightIneligible);
    assert_eq!(native_fallback_preflight_counter(&t), 0);
}

#[test]
fn refresh_counters_count_actions_and_files() {
    let mut t = NativeTelemetry::new();
    record_native_refresh_telemetry(&mut t, NativeSessionRefreshAction::Unchanged, 0, 0);
    record_native_refresh_telemetry(
        &mut t,
        NativeSessionRefreshAction::IncrementalChangedSet,
        3,
        1,
    );
    record_native_refresh_telemetry(&mut t, NativeSessionRefreshAction::FullRebuild, 7, 2);
    assert_eq!(native_refresh_telemetry_snapshot(&t), (1, 1, 1, 10, 3));
    assert_eq!(native_refresh_none_counter(&t), 1);
    assert_eq!(native_refresh_incremental_counter(&t), 1);
    assert_eq!(native_refresh_full_rebuild_counter(&t), 1);
    assert_eq!(native_refresh_changed_files_counter(&t), 10);
    assert_eq!(native_refresh_removed_files_counter(&t), 3);
    assert_eq!(native_fallback_telemetry_snapshot(&t), (0, 0, 0, 0));
}

#[test]
fn metadata_cache_stats_saturate() {
    assert_eq!(metadata_result_cache_stats(&vec![]), (0, 0));
    assert_eq!(metadata_result_cache_stats(&vec![10, 20, 30]), (3, 60));
    assert_eq!(metadata_result_cache_stats(&vec![u64::MAX, 1, 2]), (3, u64::MAX));
}

#[test]
fn native_cache_snapshot_reports_sizes_and_counters() {
    let mut t = NativeTelemetry::new();
    record_native_fallback(&mut t, NativeFallbackReason::LocalNativeError);
    record_native_refresh_telemetry(&mut t, NativeSessionRefreshAction::FullRebuild, 2, 1);
    let s = native_cache_telemetry_snapshot((1, 100), (2, 200), 3, (4, 400), &t);
    assert_eq!(s.session_entries, 1);
    assert_eq!(s.session_estimated_bytes, 100);
    assert_eq!(s.context_entries, 2);
    assert_eq!(s.context_estimated_bytes, 200);
    assert_eq!(s.build_locks, 3);
    assert_eq!(s.metadata_entries, 4);
    assert_eq!(s.metadata_estimated_bytes, 400);
    assert_eq!(s.refresh_full_rebuild_count, 1);
    assert_eq!(s.refresh_changed_files_total, 2);
    assert_eq!(s.refresh_removed_files_total, 1);
    assert_eq!(s.fallback_local_native_error_count, 1);
    assert_eq!(s.fallback_preflight_ineligible_count, 0);
}

#[test]
fn expired_compile_contexts_are_dropped() {
    let mut cache: AccessCache<u8> = AccessCache::new();
    cache.insert("old".to_string(), 1, 1_000);
    cache.insert("new".to_string(), 2, 9_000);
    evict_expired_native_compile_context_cache_entries(&mut cache, 10_000, 0);
    assert_eq!(cache.len(), 2);
    evict_expired_native_compile_context_cache_entries(&mut cache, 10_000, 5_000);
    assert_eq!(cache.len(), 1);
    assert!(cache.get(&"old".to_string()).is_none());
    assert_eq!(cache.get(&"new".to_string()), Some(&2));
}
