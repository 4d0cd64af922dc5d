use uc_cli::settings::{
    MAX_NATIVE_CRATE_CACHE_BLOB_BYTES,
    build_entry_cache_max_entries,
    cache_budget_enforce_every,
    cache_budget_min_interval_ms,
    daemon_build_read_timeout,
    daemon_capture_output_enabled,
    daemon_client_write_timeout,
    daemon_control_read_timeout,
    daemon_max_connection_handlers,
    daemon_request_read_timeout,
    daemon_request_write_timeout,
    daemon_response_size_limit_bytes,
    default_daemon_capture_output,
    fail_on_async_cache_error,
    fingerprint_index_cache_max_entries,
    max_cache_bytes,
    max_fingerprint_file_bytes,
    max_fingerprint_files,
    native_crate_cache_max_bytes,
    native_max_casm_bytecode_size,
    parse_env_bool,
    parse_env_u64,
    parse_env_usize,
    should_log_phase_telemetry,
    timeout_duration_from_secs,
};

#[test]
fn numeric_settings_parse_like_str_parse() {
    assert_eq!(parse_env_u64(None, 7), 7);
    assert_eq!(parse_env_u64(Some("42"), 7), 42);
    assert_eq!(parse_env_u64(Some("+42"), 7), 42);
    assert_eq!(parse_env_u64(Some(" 42"), 7), 7);
    assert_eq!(parse_env_u64(Some("-1"), 7), 7);
    assert_eq!(parse_env_u64(Some(""), 7), 7);
    assert_eq!(parse_env_u64(Some("18446744073709551615"), 7), u64::MAX);
    assert_eq!(parse_env_u64(Some("18446744073709551616"), 7), 7);
    assert_eq!(parse_env_usize(Some("12abc"), 3), 3);
}

#[test]
fn boolean_settings_accept_common_spellings() {
    for raw in ["1", "true", "YES", " on "] {
        assert!(parse_env_bool(Some(raw), false), "{raw}");
    }
    for raw in ["0", "False", "no", "OFF\n"] {
        assert!(!parse_env_bool(Some(raw), true), "{raw}");
    }
    assert!(parse_env_bool(Some("maybe"), true));
    assert!(!parse_env_bool(Some("maybe"), false));
    assert!(parse_env_bool(None, true));
}

#[test]
fn getters_use_their_defaults() {
    assert_eq!(max_fingerprint_files(None), 50_000);
    assert_eq!(max_fingerprint_file_bytes(None), 16 * 1024 * 1024);
    assert_eq!(max_cache_bytes(None), 10 * 1024 * 1024 * 1024);
    assert_eq!(cache_budget_min_interval_ms(None), 300_000);
    assert_eq!(fingerprint_index_cache_max_entries(None), 512);
    assert_eq!(native_max_casm_bytecode_size(None), 81_290);
    assert!(daemon_capture_output_enabled(None));
    assert!(!fail_on_async_cache_error(None));
    assert!(default_daemon_capture_output());
}

#[test]
fn capacity_getters_never_go_below_one() {
    assert_eq!(cache_budget_enforce_every(Some("0")), 1);
    assert_eq!(build_entry_cache_max_entries(Some("0")), 1);
    assert_eq!(daemon_max_connection_handlers(Some("0")), 1);
    assert_eq!(build_entry_cache_max_entries(Some("9")), 9);
    assert_eq!(max_fingerprint_files(Some("0")), 0);
}

#[test]
fn crate_cache_budget_has_a_floor_of_one_blob() {
    assert_eq!(native_crate_cache_max_bytes(None), 512 * 1024 * 1024);
    assert_eq!(native_crate_cache_max_bytes(Some("1")), MAX_NATIVE_CRATE_CACHE_BLOB_BYTES);
    assert_eq!(native_crate_cache_max_bytes(Some("999999999999")), 999_999_999_999);
}

#[test]
fn timeouts_treat_zero_as_none() {
    assert_eq!(timeout_duration_from_secs(0), None);
    assert_eq!(timeout_duration_from_secs(5), Some(5));
    assert_eq!(daemon_control_read_timeout(None), Some(120));
    assert_eq!(daemon_build_read_timeout(None), None);
    assert_eq!(daemon_client_write_timeout(Some("0")), None);
    assert_eq!(daemon_request_read_timeout(true, Some("9"), Some("3")), Some(9));
    assert_eq!(daemon_request_read_timeout(false, Some("9"), Some("3")), Some(3));
    assert_eq!(daemon_request_write_timeout(None), Some(30));
}

#[test]
fn response_limit_covers_captured_output() {
    let mib = 1024 * 1024;
    assert_eq!(daemon_response_size_limit_bytes(None, 16 * mib, 16 * mib), 40 * mib as usize);
    assert_eq!(daemon_response_size_limit_bytes(Some("1"), 16 * mib, 16 * mib), 40 * mib as usize);
    assert_eq!(daemon_response_size_limit_bytes(Some("1"), 0, 0), 8 * mib as usize);
    assert_eq!(
        daemon_response_size_limit_bytes(Some("100000000"), 0, 0),
        100_000_000
    );
    assert_eq!(
        daemon_response_size_limit_bytes(None, u64::MAX, 1),
        usize::MAX
    );
}

#[test]
fn phase_timing_is_off_unless_enabled() {
    assert!(!should_log_phase_telemetry(None));
    assert!(!should_log_phase_telemetry(Some("off")));
    assert!(should_log_phase_telemetry(Some("yes")));
}
