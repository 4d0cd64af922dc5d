use uc_cli::modes::{
    daemon_backend_policy, effective_native_mode, should_probe_local_before_daemon,
    BuildCompileBackend, DaemonModeArg, NativeBuildMode,
};

#[test]
fn should_probe_local_before_daemon_follows_mode_policy() {
    assert!(
        !should_probe_local_before_daemon(DaemonModeArg::Off, false),
        "daemon off should never probe local pre-daemon path"
    );
    assert!(
        !should_probe_local_before_daemon(DaemonModeArg::Off, true),
        "daemon off should never probe local pre-daemon path"
    );

    assert!(
        !should_probe_local_before_daemon(DaemonModeArg::Auto, false),
        "daemon auto should skip pre-daemon probe when daemon socket is unavailable"
    );
    assert!(
        should_probe_local_before_daemon(DaemonModeArg::Auto, true),
        "daemon auto should probe local cache when daemon socket is available"
    );

    assert!(
        should_probe_local_before_daemon(DaemonModeArg::Require, false),
        "daemon require should still probe local cache first to preserve cache-hit fast path"
    );
    assert!(
        should_probe_local_before_daemon(DaemonModeArg::Require, true),
        "daemon require should probe local cache when daemon is available"
    );
}

#[test]
fn effective_native_mode_downgrades_auto_when_preflight_is_ineligible() {
    assert_eq!(
        effective_native_mode(NativeBuildMode::Auto, true),
        NativeBuildMode::Auto
    );
    assert_eq!(
        effective_native_mode(NativeBuildMode::Auto, false),
        NativeBuildMode::Off
    );
    assert_eq!(
        effective_native_mode(NativeBuildMode::Off, false),
        NativeBuildMode::Off
    );
    assert_eq!(
        effective_native_mode(NativeBuildMode::Require, false),
        NativeBuildMode::Require
    );
}

#[test]
fn daemon_backend_policy_matches_effective_native_mode() {
    assert_eq!(
        daemon_backend_policy(NativeBuildMode::Off, false),
        (BuildCompileBackend::Scarb, false)
    );
    assert_eq!(
        daemon_backend_policy(NativeBuildMode::Auto, true),
        (BuildCompileBackend::Native, true)
    );
    assert_eq!(
        daemon_backend_policy(NativeBuildMode::Auto, false),
        (BuildCompileBackend::Scarb, false)
    );
    assert_eq!(
        daemon_backend_policy(NativeBuildMode::Require, false),
        (BuildCompileBackend::Native, false)
    );
}
