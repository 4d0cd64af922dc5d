use uc_cli::hints::{prune_daemon_local_probe_hints, DAEMON_LOCAL_PROBE_HINT_MAX_AGE_NANOS};
use uc_cli::hints::{daemon_local_native_supported_hint_path, daemon_local_probe_hint_path};
use uc_cli::errors::ErrorKind;
use uc_cli::health::{record_daemon_failure, DaemonHealth};
use uc_cli::hints::{
    daemon_local_native_supported_from_contents, daemon_local_probe_hint_from_contents,
    validate_hex_digest,
};
use uc_cli::lines::{
    lock_file_has_pid_marker, lock_file_pid, read_line_limited, should_cleanup_stale_lock_by_age,
};
use uc_cli::logs::{
    maybe_rotate_async_persist_error_log, metadata_cache_workspace_root,
    rotate_daemon_log_if_needed, AncestorInfo, DAEMON_LOG_ROTATE_BYTES,
};
use uc_cli::modes::{BuildCompileBackend, DaemonBuildBackend, DaemonModeArg};
use uc_cli::numparse::{parse_u32_str, parse_u64_str, parse_unsigned_str, parse_usize_str};
use uc_cli::persist::{
    async_persist_scope_key, clear_async_persist_in_flight, record_async_persist_error,
    take_async_persist_errors, try_mark_async_persist_in_flight, AsyncPersistState,
};
use uc_cli::protocol::{
    common_args_from_daemon_request, daemon_build_request_from_common,
    daemon_metadata_request_from_args, daemon_request_protocol_version, daemon_status_snapshot,
    effective_profile, metadata_args_from_daemon_request,
    should_capture_metadata_output_for_local_run, validate_daemon_request_protocol_version,
    BuildCommonArgs, DaemonRequest, DaemonStatusPayload, MetadataArgs,
};
use uc_cli::telemetry::{native_cache_telemetry_snapshot, NativeTelemetry};

fn common() -> BuildCommonArgs {
    BuildCommonArgs {
        manifest_path: Some("/w/Scarb.toml".to_string()),
        package: Some("pkg".to_string()),
        workspace: false,
        features: vec!["a".to_string(), "b".to_string()],
        offline: true,
        release: false,
        profile: Some("ci".to_string()),
    }
}

#[test]
fn build_request_round_trips_common_args() {
    let c = common();
    let r = daemon_build_request_from_common(
        &c,
        "/w/Scarb.toml",
        true,
        false,
        BuildCompileBackend::Native,
        true,
    );
    assert_eq!(r.protocol_version, "0.1.0");
    assert_eq!(r.manifest_path, "/w/Scarb.toml");
    assert_eq!(r.compile_backend, DaemonBuildBackend::Native);
    assert!(r.async_cache_persist);
    assert!(!r.capture_output);
    assert!(r.native_fallback_to_scarb);
    let back = common_args_from_daemon_request(&r);
    assert_eq!(back.manifest_path.as_deref(), Some("/w/Scarb.toml"));
    assert_eq!(back.package.as_deref(), Some("pkg"));
    assert_eq!(back.features, c.features);
    assert_eq!(back.offline, c.offline);
    assert_eq!(back.release, c.release);
    assert_eq!(back.profile, c.profile);
    assert_eq!(back.workspace, c.workspace);
}

#[test]
fn metadata_request_round_trips_args() {
    let args = MetadataArgs {
        manifest_path: None,
        format_version: 1,
        daemon_mode: DaemonModeArg::Require,
        offline: true,
        global_cache_dir: Some("/cache".to_string()),
        report_path: Some("/r.json".to_string()),
    };
    assert!(should_capture_metadata_output_for_local_run(&args));
    let r = daemon_metadata_request_from_args(&args, "/w/Scarb.toml", true);
    assert_eq!(r.protocol_version, "0.1.0");
    assert_eq!(r.format_version, 1);
    assert!(r.capture_output);
    let back = metadata_args_from_daemon_request(&r);
    assert_eq!(back.manifest_path.as_deref(), Some("/w/Scarb.toml"));
    assert_eq!(back.daemon_mode, DaemonModeArg::Off);
    assert_eq!(back.global_cache_dir.as_deref(), Some("/cache"));
    assert!(back.report_path.is_none());
    assert!(!should_capture_metadata_output_for_local_run(&back));
}

#[test]
fn profile_prefers_release_then_named_then_dev() {
    let mut c = common();
    assert_eq!(effective_profile(&c), "ci");
    c.release = true;
    assert_eq!(effective_profile(&c), "release");
    c.release = false;
    c.profile = None;
    assert_eq!(effective_profile(&c), "dev");
}

#[test]
fn request_protocol_version_is_checked() {
    assert!(daemon_request_protocol_version(&DaemonRequest::Ping).is_none());
    assert!(validate_daemon_request_protocol_version(&DaemonRequest::Shutdown).is_ok());
    let mut r = daemon_build_request_from_common(
        &common(),
        "/w/Scarb.toml",
        false,
        false,
        BuildCompileBackend::Scarb,
        false,
    );
    let ok = DaemonRequest::Build { payload: r.clone() };
    assert_eq!(daemon_request_protocol_version(&ok), Some("0.1.0"));
    assert!(validate_daemon_request_protocol_version(&ok).is_ok());
    r.protocol_version = "9.9.9".to_string();
    let bad = DaemonRequest::Build { payload: r };
    let e = validate_daemon_request_protocol_version(&bad).unwrap_err();
    match e.kind {
        ErrorKind::DaemonProtocolMismatch { daemon_version } => assert_eq!(daemon_version, "9.9.9"),
        other => panic!("unexpected error {other:?}"),
    }
}

#[test]
fn status_snapshot_reports_health_and_caches() {
    let base = DaemonStatusPayload {
        pid: 42,
        started_at_epoch_ms: 7,
        socket_path: "/tmp/uc.sock".to_string(),
        protocol_version: "0.1.0".to_string(),
        healthy: true,
        total_requests: 0,
        failed_requests: 0,
        rate_limited_requests: 0,
        last_error: None,
        native_compile_session_cache_entries: 0,
        native_compile_session_cache_estimated_bytes: 0,
        native_compile_context_cache_entries: 0,
        native_compile_context_cache_estimated_bytes: 0,
        native_compile_session_build_locks: 0,
        metadata_result_cache_entries: 0,
        metadata_result_cache_estimated_bytes: 0,
        native_refresh_none_count: 0,
        native_refresh_incremental_count: 0,
        native_refresh_full_rebuild_count: 0,
        native_refresh_changed_files_total: 0,
        native_refresh_removed_files_total: 0,
        native_fallback_preflight_ineligible_count: 0,
        native_fallback_local_native_error_count: 0,
        native_fallback_daemon_native_error_count: 0,
        native_fallback_daemon_backend_downgrade_count: 0,
    };
    let mut health = DaemonHealth::new();
    for i in 0..3 {
        record_daemon_failure(&mut health, "boom".to_string(), 100 + i);
    }
    let cache = native_cache_telemetry_snapshot((1, 2), (3, 4), 5, (6, 7), &NativeTelemetry::new());
    let s = daemon_status_snapshot(&base, &health, &cache);
    assert_eq!(s.pid, 42);
    assert_eq!(s.socket_path, "/tmp/uc.sock");
    assert!(!s.healthy);
    assert_eq!(s.failed_requests, 3);
    assert_eq!(s.last_error.as_deref(), Some("boom"));
    assert_eq!(s.native_compile_session_cache_entries, 1);
    assert_eq!(s.metadata_result_cache_estimated_bytes, 7);
    assert_eq!(s.native_compile_session_build_locks, 5);
}

#[test]
fn line_reader_stops_at_newline_and_limit() {
    let (line, used) = read_line_limited(b"hello\nworld", 16).unwrap();
    assert_eq!(line, "hello");
    assert_eq!(used, 6);
    let (line, used) = read_line_limited(b"abc", 3).unwrap();
    assert_eq!(line, "abc");
    assert_eq!(used, 3);
    let (line, used) = read_line_limited(b"", 3).unwrap();
    assert_eq!(line, "");
    assert_eq!(used, 0);
    let e = read_line_limited(b"abcd\n", 3).unwrap_err();
    assert!(matches!(e.kind, ErrorKind::LineTooLong { max_bytes: 3 }));
    let e = read_line_limited(&[0xff, 0xfe, b'\n'], 8).unwrap_err();
    assert!(matches!(e.kind, ErrorKind::LineNotUtf8));
}

#[test]
fn lock_file_pid_reads_first_pid_line() {
    assert_eq!(lock_file_pid("host=x\npid= 1234 \n"), Some(1234));
    assert_eq!(lock_file_pid("pid=abc\npid=7\n"), Some(7));
    assert_eq!(lock_file_pid("  pid=5\n"), None);
    assert_eq!(lock_file_pid("pid=99999999999\n"), None);
    assert_eq!(lock_file_pid(""), None);
    assert!(lock_file_has_pid_marker("x\n  pid=abc"));
    assert!(!lock_file_has_pid_marker("x\npi d=1\n"));
}

#[test]
fn stale_lock_cleanup_needs_dead_owner_and_age() {
    assert!(!should_cleanup_stale_lock_by_age(true, 1_000_000));
    assert!(!should_cleanup_stale_lock_by_age(false, 300_000));
    assert!(should_cleanup_stale_lock_by_age(false, 300_001));
}

#[test]
fn hex_digest_validation_errors() {
    assert!(validate_hex_digest("abCD09", 2).is_ok());
    let e = validate_hex_digest("a", 2).unwrap_err();
    assert!(matches!(e.kind, ErrorKind::HexDigestTooShort { len: 1, min_len: 2 }));
    let e = validate_hex_digest("zz", 2).unwrap_err();
    assert!(matches!(e.kind, ErrorKind::HexDigestNotHex));
}

#[test]
fn probe_hint_accepts_only_other_session_keys() {
    let key = "a".repeat(64);
    let other = "b".repeat(64);
    assert_eq!(
        daemon_local_probe_hint_from_contents(&format!("  {other}\n"), &key),
        Some(other.clone())
    );
    assert_eq!(daemon_local_probe_hint_from_contents(&key, &key), None);
    assert_eq!(daemon_local_probe_hint_from_contents("   ", &key), None);
    assert_eq!(daemon_local_probe_hint_from_contents("abc", &key), None);
    assert_eq!(daemon_local_probe_hint_from_contents(&"g".repeat(64), &key), None);
}

#[test]
fn native_support_hint_reads_truthy_values() {
    assert!(daemon_local_native_supported_from_contents("1"));
    assert!(daemon_local_native_supported_from_contents(" yes\n"));
    assert!(!daemon_local_native_supported_from_contents("FALSE"));
    assert!(!daemon_local_native_supported_from_contents("off"));
    assert!(!daemon_local_native_supported_from_contents("0"));
    assert!(!daemon_local_native_supported_from_contents("no"));
    assert!(!daemon_local_native_supported_from_contents("  "));
}

#[test]
fn log_rotation_thresholds() {
    assert!(!maybe_rotate_async_persist_error_log(0, Some(100)));
    assert!(!maybe_rotate_async_persist_error_log(100, None));
    assert!(!maybe_rotate_async_persist_error_log(100, Some(99)));
    assert!(maybe_rotate_async_persist_error_log(100, Some(100)));
    assert!(!rotate_daemon_log_if_needed(None));
    assert!(!rotate_daemon_log_if_needed(Some(DAEMON_LOG_ROTATE_BYTES - 1)));
    assert!(rotate_daemon_log_if_needed(Some(DAEMON_LOG_ROTATE_BYTES)));
    assert_eq!(DAEMON_LOG_ROTATE_BYTES, 10 * 1024 * 1024);
}

fn ancestor(path: &str, manifest: bool, lock: bool, ws: bool) -> AncestorInfo {
    AncestorInfo {
        path: path.to_string(),
        has_manifest: manifest,
        has_lockfile: lock,
        manifest_has_workspace_table: ws,
    }
}

#[test]
fn metadata_workspace_root_is_first_rooted_ancestor() {
    let ancestors = vec![
        ancestor("/w/crates/a", true, false, true),
        ancestor("/w/crates", false, false, false),
        ancestor("/w", true, false, true),
    ];
    assert_eq!(metadata_cache_workspace_root("/w/crates/a", &ancestors), "/w");
    let with_lock = vec![ancestor("/w/crates/a", true, true, false), ancestor("/w", true, true, true)];
    assert_eq!(metadata_cache_workspace_root("/w/crates/a", &with_lock), "/w/crates/a");
    let none = vec![ancestor("/x", false, true, false)];
    assert_eq!(metadata_cache_workspace_root("/x", &none), "/x");
}

#[test]
fn persist_scope_and_in_flight_claims() {
    assert_eq!(async_persist_scope_key("/w", "dev"), "/w::dev");
    let mut state = AsyncPersistState::new();
    assert!(try_mark_async_persist_in_flight(&mut state, "/w::dev"));
    assert!(!try_mark_async_persist_in_flight(&mut state, "/w::dev"));
    assert!(try_mark_async_persist_in_flight(&mut state, "/w::release"));
    clear_async_persist_in_flight(&mut state, "/w::dev");
    assert!(try_mark_async_persist_in_flight(&mut state, "/w::dev"));
}

#[test]
fn persist_error_queue_keeps_newest() {
    let mut state = AsyncPersistState::new();
    assert!(record_async_persist_error(&mut state, "e1".to_string(), 2).is_empty());
    assert!(record_async_persist_error(&mut state, "e2".to_string(), 2).is_empty());
    assert_eq!(record_async_persist_error(&mut state, "e3".to_string(), 2), vec!["e1".to_string()]);
    assert_eq!(take_async_persist_errors(&mut state), vec!["e2".to_string(), "e3".to_string()]);
    assert!(take_async_persist_errors(&mut state).is_empty());
    assert_eq!(
        record_async_persist_error(&mut state, "e4".to_string(), 0),
        vec!["e4".to_string()]
    );
}

#[test]
fn unsigned_parsing_matches_str_parse() {
    assert_eq!(parse_u64_str("42"), Some(42));
    assert_eq!(parse_u64_str("+7"), Some(7));
    assert_eq!(parse_u64_str(""), None);
    assert_eq!(parse_u64_str("+"), None);
    assert_eq!(parse_u64_str("-1"), None);
    assert_eq!(parse_u64_str(" 1"), None);
    assert_eq!(parse_u64_str("18446744073709551615"), Some(u64::MAX));
    assert_eq!(parse_u64_str("18446744073709551616"), None);
    assert_eq!(parse_u32_str("4294967295"), Some(u32::MAX));
    assert_eq!(parse_u32_str("4294967296"), None);
    assert_eq!(parse_usize_str("0012"), Some(12));
    assert_eq!(parse_unsigned_str("255", 255), Some(255));
    assert_eq!(parse_unsigned_str("256", 255), None);
    for s in ["0", "17", "+3", "x", "1_0", "99999999999"] {
        assert_eq!(parse_u32_str(s), s.parse::<u32>().ok(), "{s}");
    }
}

fn hint(name: &str, modified: Option<u128>) -> uc_cli::hints::HintFileInfo {
    uc_cli::hints::HintFileInfo { file_name: name.to_string(), modified_nanos: modified }
}

#[test]
fn hint_pruning_drops_expired_and_oldest_beyond_limit() {
    let now: u128 = 10 * DAEMON_LOCAL_PROBE_HINT_MAX_AGE_NANOS;
    let fresh = now - 1_000;
    let entries = vec![
        hint("a.fallback-session-key", Some(now - DAEMON_LOCAL_PROBE_HINT_MAX_AGE_NANOS - 1)),
        hint("b.native-supported", Some(fresh)),
        hint("notes.txt", Some(0)),
        hint("c.fallback-session-key", None),
        hint("d.fallback-session-key", Some(now + 5)),
    ];
    assert_eq!(
        prune_daemon_local_probe_hints(&entries, now),
        vec![true, false, false, false, false]
    );
    // 258 surviving hints: the two oldest go, ties broken by directory order
    let mut many = Vec::new();
    for i in 0..258u128 {
        let t = if i < 3 { fresh - 100 } else { fresh + i };
        many.push(hint(&format!("{i}.fallback-session-key"), Some(t)));
    }
    let removed = prune_daemon_local_probe_hints(&many, now);
    assert_eq!(removed.iter().filter(|r| **r).count(), 2);
    assert!(removed[0] && removed[1] && !removed[2]);
}

#[test]
fn hint_paths_need_a_session_key() {
    let key = "ab".repeat(32);
    assert_eq!(
        daemon_local_probe_hint_path("/w", &key).unwrap(),
        format!("/w/.uc/cache/probe-hints/{key}.fallback-session-key")
    );
    assert_eq!(
        daemon_local_native_supported_hint_path("/w/", &key).unwrap(),
        format!("/w/.uc/cache/probe-hints/{key}.native-supported")
    );
    assert!(daemon_local_probe_hint_path("/w", "abc").is_err());
}
