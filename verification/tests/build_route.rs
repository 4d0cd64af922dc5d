use uc_cli::build_route::{
    build_route_start, build_route_step, BuildRouteAction, BuildRouteEvent, BuildRouteState,
    FallbackReason, KeyRef, RouteFailure, RoutePhase,
};
use uc_cli::modes::{
    daemon_response_backend_accepted, BuildCompileBackend, DaemonBuildBackend, DaemonModeArg, EngineArg,
    NativeBuildMode,
};

fn step(s: BuildRouteState, e: BuildRouteEvent) -> (BuildRouteState, BuildRouteAction) {
    build_route_step(s, e)
}

fn key(k: &str) -> BuildRouteEvent {
    BuildRouteEvent::SessionKey { key: k.to_string() }
}

fn done() -> BuildRouteEvent {
    BuildRouteEvent::Done
}

/// Feeds `Done` until the queue is empty; returns the actions it gave.
fn drain(mut s: BuildRouteState, first: BuildRouteAction) -> (BuildRouteState, Vec<BuildRouteAction>) {
    let mut out = vec![first];
    while s.phase == RoutePhase::Draining {
        let (n, a) = step(s, done());
        s = n;
        out.push(a);
    }
    (s, out)
}

fn finish(k: KeyRef, daemon_used: bool, probe_hit: bool) -> BuildRouteAction {
    BuildRouteAction::Finish { key: k, daemon_used, probe_hit }
}

#[test]
fn scarb_engine_builds_directly() {
    let s = build_route_start(EngineArg::Scarb, DaemonModeArg::Require, NativeBuildMode::Require);
    let (s, a) = step(s, BuildRouteEvent::Begin);
    assert_eq!(a, BuildRouteAction::RunScarbDirect);
    let (s, a) = step(s, BuildRouteEvent::LocalBuild { ok: true, fallback_allowed: false });
    assert_eq!(a, finish(KeyRef::NoKey, false, false));
    assert_eq!(s.phase, RoutePhase::Done);
}

#[test]
fn daemon_off_native_off_builds_locally_with_scarb() {
    let s = build_route_start(EngineArg::Uc, DaemonModeArg::Off, NativeBuildMode::Off);
    let (s, a) = step(s, BuildRouteEvent::Begin);
    assert_eq!(a, BuildRouteAction::ResolveSessionKey { backend: BuildCompileBackend::Scarb });
    let (s, a) = step(s, key("k-scarb"));
    assert_eq!(a, BuildRouteAction::RunLocal { backend: BuildCompileBackend::Scarb, key: KeyRef::Scarb });
    assert_eq!(s.scarb_key.as_deref(), Some("k-scarb"));
    let (s, a) = step(s, BuildRouteEvent::LocalBuild { ok: true, fallback_allowed: false });
    assert_eq!(a, finish(KeyRef::Scarb, false, false));
    assert_eq!(s.phase, RoutePhase::Done);
}

#[test]
fn auto_ineligible_preflight_reports_fallback_then_builds_with_scarb() {
    let s = build_route_start(EngineArg::Uc, DaemonModeArg::Off, NativeBuildMode::Auto);
    let (s, a) = step(s, BuildRouteEvent::Begin);
    assert_eq!(a, BuildRouteAction::Preflight);
    let (s, a) = step(s, BuildRouteEvent::Preflight { eligible: false, fallback_allowed: true });
    assert_eq!(
        a,
        BuildRouteAction::ReportFallback { reason: FallbackReason::PreflightIneligible { daemon_off: true } }
    );
    assert!(!s.native_auto_eligible);
    let (s, a) = step(s, done());
    assert_eq!(a, BuildRouteAction::ResolveSessionKey { backend: BuildCompileBackend::Scarb });
    let (_, a) = step(s, key("k"));
    assert_eq!(a, BuildRouteAction::RunLocal { backend: BuildCompileBackend::Scarb, key: KeyRef::Scarb });
}

#[test]
fn preflight_error_without_fallback_stops() {
    let s = build_route_start(EngineArg::Uc, DaemonModeArg::Auto, NativeBuildMode::Auto);
    let (s, _) = step(s, BuildRouteEvent::Begin);
    let (s, a) = step(s, BuildRouteEvent::Preflight { eligible: false, fallback_allowed: false });
    assert_eq!(a, BuildRouteAction::Fail { kind: RouteFailure::PreflightRefused });
    assert_eq!(s.phase, RoutePhase::Done);
}

#[test]
fn daemon_auto_without_socket_builds_locally() {
    let s = build_route_start(EngineArg::Uc, DaemonModeArg::Auto, NativeBuildMode::Off);
    let (s, a) = step(s, BuildRouteEvent::Begin);
    assert_eq!(a, BuildRouteAction::CheckDaemonSocket);
    let (_, a) = step(s, BuildRouteEvent::DaemonSocket { available: false });
    assert_eq!(a, BuildRouteAction::ResolveSessionKey { backend: BuildCompileBackend::Scarb });
}

#[test]
fn daemon_require_probes_local_cache_first_and_hits() {
    let s = build_route_start(EngineArg::Uc, DaemonModeArg::Require, NativeBuildMode::Off);
    let (s, a) = step(s, BuildRouteEvent::Begin);
    assert_eq!(a, BuildRouteAction::ResolveSessionKey { backend: BuildCompileBackend::Scarb });
    let (s, a) = step(s, key("p"));
    assert_eq!(a, BuildRouteAction::ProbeLocalCache { key: KeyRef::Primary, include_scarb_fallback: false });
    let (s, a) = step(s, BuildRouteEvent::LocalProbe { hit: true });
    assert_eq!(a, finish(KeyRef::Primary, false, true));
    assert_eq!(s.phase, RoutePhase::Done);
}

#[test]
fn daemon_require_miss_calls_daemon_for_scarb() {
    let s = build_route_start(EngineArg::Uc, DaemonModeArg::Require, NativeBuildMode::Off);
    let (s, _) = step(s, BuildRouteEvent::Begin);
    let (s, _) = step(s, key("p"));
    let (s, a) = step(s, BuildRouteEvent::LocalProbe { hit: false });
    assert_eq!(
        a,
        BuildRouteAction::CallDaemon {
            backend: BuildCompileBackend::Scarb,
            native_fallback_to_scarb: false,
            fallback_to_local: false,
        }
    );
    let (s, a) = step(s, BuildRouteEvent::DaemonResponse { response: Some((DaemonBuildBackend::Scarb, "p".to_string())) });
    assert_eq!(a, BuildRouteAction::ClearProbeHint);
    let (s, rest) = drain(s, a);
    assert_eq!(rest, vec![BuildRouteAction::ClearProbeHint, finish(KeyRef::Response, true, false)]);
    assert_eq!(s.response_key.as_deref(), Some("p"));
    assert_eq!(s.phase, RoutePhase::Done);
}

#[test]
fn daemon_require_unavailable_fails() {
    let s = build_route_start(EngineArg::Uc, DaemonModeArg::Require, NativeBuildMode::Require);
    let (s, a) = step(s, BuildRouteEvent::Begin);
    assert_eq!(a, BuildRouteAction::ResolveSessionKey { backend: BuildCompileBackend::Native });
    let (s, _) = step(s, key("n"));
    let (s, a) = step(s, BuildRouteEvent::LocalProbe { hit: false });
    assert_eq!(
        a,
        BuildRouteAction::CallDaemon {
            backend: BuildCompileBackend::Native,
            native_fallback_to_scarb: false,
            fallback_to_local: false,
        }
    );
    let (s, a) = step(s, BuildRouteEvent::DaemonResponse { response: None });
    assert_eq!(a, BuildRouteAction::Fail { kind: RouteFailure::DaemonUnavailable });
    assert_eq!(s.phase, RoutePhase::Done);
}

#[test]
fn daemon_auto_unavailable_falls_back_to_local_native() {
    let s = build_route_start(EngineArg::Uc, DaemonModeArg::Auto, NativeBuildMode::Require);
    let (s, _) = step(s, BuildRouteEvent::Begin);
    let (s, a) = step(s, BuildRouteEvent::DaemonSocket { available: true });
    assert_eq!(a, BuildRouteAction::ResolveSessionKey { backend: BuildCompileBackend::Native });
    let (s, _) = step(s, key("n"));
    let (s, a) = step(s, BuildRouteEvent::LocalProbe { hit: false });
    assert_eq!(
        a,
        BuildRouteAction::CallDaemon {
            backend: BuildCompileBackend::Native,
            native_fallback_to_scarb: false,
            fallback_to_local: true,
        }
    );
    let (s, a) = step(s, BuildRouteEvent::DaemonResponse { response: None });
    assert_eq!(a, BuildRouteAction::ResolveSessionKey { backend: BuildCompileBackend::Native });
    let (s, a) = step(s, key("n"));
    assert_eq!(a, BuildRouteAction::RunLocal { backend: BuildCompileBackend::Native, key: KeyRef::Primary });
    let (_, a) = step(s, BuildRouteEvent::LocalBuild { ok: false, fallback_allowed: true });
    assert_eq!(a, BuildRouteAction::Fail { kind: RouteFailure::NativeRequiredFailed });
}

#[test]
fn auto_mode_reads_hints_and_probes_scarb_key_after_primary_miss() {
    let s = build_route_start(EngineArg::Uc, DaemonModeArg::Require, NativeBuildMode::Auto);
    let (s, a) = step(s, BuildRouteEvent::Begin);
    assert_eq!(a, BuildRouteAction::Preflight);
    let (s, a) = step(s, BuildRouteEvent::Preflight { eligible: true, fallback_allowed: true });
    assert_eq!(a, BuildRouteAction::ResolveSessionKey { backend: BuildCompileBackend::Native });
    let (s, a) = step(s, key("native-key"));
    assert_eq!(a, BuildRouteAction::ReadNativeSupportedHint);
    let (s, a) = step(s, BuildRouteEvent::NativeSupportedHint { supported: false });
    assert_eq!(a, BuildRouteAction::ReadProbeHint);
    let (s, a) = step(s, BuildRouteEvent::ProbeHint { hinted: None });
    assert_eq!(a, BuildRouteAction::ProbeLocalCache { key: KeyRef::Primary, include_scarb_fallback: true });
    let (s, a) = step(s, BuildRouteEvent::LocalProbe { hit: false });
    assert_eq!(a, BuildRouteAction::ResolveSessionKey { backend: BuildCompileBackend::Scarb });
    let (s, a) = step(s, key("scarb-key"));
    assert_eq!(a, BuildRouteAction::ProbeLocalCache { key: KeyRef::Scarb, include_scarb_fallback: true });
    let (s, a) = step(s, BuildRouteEvent::LocalProbe { hit: true });
    let (s, acts) = drain(s, a);
    assert_eq!(
        acts,
        vec![
            BuildRouteAction::PersistProbeHint { hinted: KeyRef::Scarb },
            BuildRouteAction::ClearNativeSupportedHint,
            finish(KeyRef::Scarb, false, true),
        ]
    );
    assert_eq!(s.phase, RoutePhase::Done);
}

#[test]
fn auto_mode_with_native_supported_hint_skips_scarb_probe() {
    let s = build_route_start(EngineArg::Uc, DaemonModeArg::Require, NativeBuildMode::Auto);
    let (s, _) = step(s, BuildRouteEvent::Begin);
    let (s, _) = step(s, BuildRouteEvent::Preflight { eligible: true, fallback_allowed: true });
    let (s, _) = step(s, key("nk"));
    let (s, a) = step(s, BuildRouteEvent::NativeSupportedHint { supported: true });
    assert_eq!(a, BuildRouteAction::ProbeLocalCache { key: KeyRef::Primary, include_scarb_fallback: true });
    let (s, a) = step(s, BuildRouteEvent::LocalProbe { hit: false });
    assert_eq!(
        a,
        BuildRouteAction::CallDaemon {
            backend: BuildCompileBackend::Native,
            native_fallback_to_scarb: true,
            fallback_to_local: false,
        }
    );
    // The daemon fell back to Scarb under another key: record the hint.
    let (s, a) = step(s, BuildRouteEvent::DaemonResponse { response: Some((DaemonBuildBackend::Scarb, "sk".to_string())) });
    let (_, acts) = drain(s, a);
    assert_eq!(
        acts,
        vec![
            BuildRouteAction::PersistProbeHint { hinted: KeyRef::Response },
            BuildRouteAction::ClearNativeSupportedHint,
            finish(KeyRef::Response, true, false),
        ]
    );
}

#[test]
fn daemon_native_answer_under_primary_key_records_native_support() {
    let s = build_route_start(EngineArg::Uc, DaemonModeArg::Require, NativeBuildMode::Auto);
    let (s, _) = step(s, BuildRouteEvent::Begin);
    let (s, _) = step(s, BuildRouteEvent::Preflight { eligible: true, fallback_allowed: true });
    let (s, _) = step(s, key("nk"));
    let (s, _) = step(s, BuildRouteEvent::NativeSupportedHint { supported: true });
    let (s, _) = step(s, BuildRouteEvent::LocalProbe { hit: false });
    let (s, a) = step(s, BuildRouteEvent::DaemonResponse { response: Some((DaemonBuildBackend::Native, "nk".to_string())) });
    let (_, acts) = drain(s, a);
    assert_eq!(
        acts,
        vec![
            BuildRouteAction::ClearProbeHint,
            BuildRouteAction::PersistNativeSupportedHint,
            finish(KeyRef::Response, true, false),
        ]
    );
}

#[test]
fn probe_hint_equal_to_scarb_key_probes_scarb_cache_first() {
    let s = build_route_start(EngineArg::Uc, DaemonModeArg::Require, NativeBuildMode::Auto);
    let (s, _) = step(s, BuildRouteEvent::Begin);
    let (s, _) = step(s, BuildRouteEvent::Preflight { eligible: true, fallback_allowed: true });
    let (s, _) = step(s, key("nk"));
    let (s, _) = step(s, BuildRouteEvent::NativeSupportedHint { supported: false });
    let (s, a) = step(s, BuildRouteEvent::ProbeHint { hinted: Some("sk".to_string()) });
    assert_eq!(a, BuildRouteAction::ResolveSessionKey { backend: BuildCompileBackend::Scarb });
    let (s, a) = step(s, key("sk"));
    assert_eq!(a, BuildRouteAction::ProbeLocalCache { key: KeyRef::Scarb, include_scarb_fallback: true });
    let (s, a) = step(s, BuildRouteEvent::LocalProbe { hit: true });
    assert_eq!(a, finish(KeyRef::Scarb, false, true));
    assert_eq!(s.phase, RoutePhase::Done);
}

#[test]
fn stale_probe_hint_is_rewritten_before_primary_probe() {
    let s = build_route_start(EngineArg::Uc, DaemonModeArg::Require, NativeBuildMode::Auto);
    let (s, _) = step(s, BuildRouteEvent::Begin);
    let (s, _) = step(s, BuildRouteEvent::Preflight { eligible: true, fallback_allowed: true });
    let (s, _) = step(s, key("nk"));
    let (s, _) = step(s, BuildRouteEvent::NativeSupportedHint { supported: false });
    let (s, _) = step(s, BuildRouteEvent::ProbeHint { hinted: Some("old".to_string()) });
    let (s, a) = step(s, key("sk"));
    assert_eq!(a, BuildRouteAction::PersistProbeHint { hinted: KeyRef::Scarb });
    let (_, a) = step(s, done());
    assert_eq!(a, BuildRouteAction::ProbeLocalCache { key: KeyRef::Primary, include_scarb_fallback: true });
}

#[test]
fn local_native_failure_with_fallback_reports_and_builds_with_scarb() {
    let s = build_route_start(EngineArg::Uc, DaemonModeArg::Off, NativeBuildMode::Auto);
    let (s, _) = step(s, BuildRouteEvent::Begin);
    let (s, a) = step(s, BuildRouteEvent::Preflight { eligible: true, fallback_allowed: true });
    assert_eq!(a, BuildRouteAction::ResolveSessionKey { backend: BuildCompileBackend::Native });
    let (s, a) = step(s, key("nk"));
    assert_eq!(a, BuildRouteAction::ReadProbeHint);
    let (s, a) = step(s, BuildRouteEvent::ProbeHint { hinted: None });
    assert_eq!(a, BuildRouteAction::RunLocal { backend: BuildCompileBackend::Native, key: KeyRef::Primary });
    let (s, a) = step(s, BuildRouteEvent::LocalBuild { ok: false, fallback_allowed: true });
    assert_eq!(a, BuildRouteAction::ReportFallback { reason: FallbackReason::NativeCompileError });
    let (s, a) = step(s, done());
    assert_eq!(a, BuildRouteAction::ResolveSessionKey { backend: BuildCompileBackend::Scarb });
    let (s, a) = step(s, key("sk"));
    assert_eq!(a, BuildRouteAction::RunLocal { backend: BuildCompileBackend::Scarb, key: KeyRef::Scarb });
    let (s, a) = step(s, BuildRouteEvent::LocalBuild { ok: true, fallback_allowed: false });
    let (s, acts) = drain(s, a);
    assert_eq!(
        acts,
        vec![
            BuildRouteAction::PersistProbeHint { hinted: KeyRef::Scarb },
            BuildRouteAction::ClearNativeSupportedHint,
            finish(KeyRef::Scarb, false, false),
        ]
    );
    assert_eq!(s.phase, RoutePhase::Done);
}

#[test]
fn local_native_failure_without_fallback_stops() {
    let s = build_route_start(EngineArg::Uc, DaemonModeArg::Off, NativeBuildMode::Auto);
    let (s, _) = step(s, BuildRouteEvent::Begin);
    let (s, _) = step(s, BuildRouteEvent::Preflight { eligible: true, fallback_allowed: true });
    let (s, _) = step(s, key("nk"));
    let (s, _) = step(s, BuildRouteEvent::ProbeHint { hinted: None });
    let (s, a) = step(s, BuildRouteEvent::LocalBuild { ok: false, fallback_allowed: false });
    assert_eq!(a, BuildRouteAction::Fail { kind: RouteFailure::NativeFailed });
    assert_eq!(s.phase, RoutePhase::Done);
}

#[test]
fn local_native_success_records_native_support() {
    let s = build_route_start(EngineArg::Uc, DaemonModeArg::Off, NativeBuildMode::Auto);
    let (s, _) = step(s, BuildRouteEvent::Begin);
    let (s, _) = step(s, BuildRouteEvent::Preflight { eligible: true, fallback_allowed: true });
    let (s, _) = step(s, key("nk"));
    let (s, _) = step(s, BuildRouteEvent::ProbeHint { hinted: None });
    let (s, a) = step(s, BuildRouteEvent::LocalBuild { ok: true, fallback_allowed: false });
    let (_, acts) = drain(s, a);
    assert_eq!(
        acts,
        vec![
            BuildRouteAction::ClearProbeHint,
            BuildRouteAction::PersistNativeSupportedHint,
            finish(KeyRef::Primary, false, false),
        ]
    );
}

fn local_auto_build_with_hint(hinted: &str, scarb_key: &str) -> (BuildRouteState, Vec<BuildRouteAction>) {
    let s = build_route_start(EngineArg::Uc, DaemonModeArg::Off, NativeBuildMode::Auto);
    let (s, _) = step(s, BuildRouteEvent::Begin);
    let (s, _) = step(s, BuildRouteEvent::Preflight { eligible: true, fallback_allowed: true });
    let (s, _) = step(s, key("nk"));
    let (s, a) = step(s, BuildRouteEvent::ProbeHint { hinted: Some(hinted.to_string()) });
    assert_eq!(a, BuildRouteAction::ResolveSessionKey { backend: BuildCompileBackend::Scarb });
    let (s, a) = step(s, key(scarb_key));
    assert_eq!(a, BuildRouteAction::RunLocal { backend: BuildCompileBackend::Scarb, key: KeyRef::Scarb });
    let (s, a) = step(s, BuildRouteEvent::LocalBuild { ok: true, fallback_allowed: false });
    drain(s, a)
}

#[test]
fn local_probe_hint_routes_straight_to_scarb() {
    // The hint already names the Scarb key: only the native-supported hint is cleared.
    let (s, acts) = local_auto_build_with_hint("sk", "sk");
    assert_eq!(acts, vec![BuildRouteAction::ClearNativeSupportedHint, finish(KeyRef::Scarb, false, false)]);
    assert_eq!(s.phase, RoutePhase::Done);
    // A stale hint is rewritten to the current Scarb key.
    let (s, acts) = local_auto_build_with_hint("old", "sk");
    assert_eq!(
        acts,
        vec![
            BuildRouteAction::PersistProbeHint { hinted: KeyRef::Scarb },
            BuildRouteAction::ClearNativeSupportedHint,
            finish(KeyRef::Scarb, false, false),
        ]
    );
    assert_eq!(s.scarb_key.as_deref(), Some("sk"));
}

#[test]
fn unexpected_event_is_ignored() {
    let s = build_route_start(EngineArg::Uc, DaemonModeArg::Off, NativeBuildMode::Off);
    let (s, a) = step(s, BuildRouteEvent::LocalProbe { hit: true });
    assert_eq!(a, BuildRouteAction::Ignore);
    assert_eq!(s.phase, RoutePhase::Start);
}

#[test]
fn daemon_answer_backend_must_fit_the_request() {
    assert!(daemon_response_backend_accepted(BuildCompileBackend::Scarb, false, DaemonBuildBackend::Scarb));
    assert!(!daemon_response_backend_accepted(BuildCompileBackend::Scarb, true, DaemonBuildBackend::Native));
    assert!(daemon_response_backend_accepted(BuildCompileBackend::Native, false, DaemonBuildBackend::Native));
    assert!(daemon_response_backend_accepted(BuildCompileBackend::Native, true, DaemonBuildBackend::Scarb));
    assert!(!daemon_response_backend_accepted(BuildCompileBackend::Native, false, DaemonBuildBackend::Scarb));
}
