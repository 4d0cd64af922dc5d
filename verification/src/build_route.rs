use vstd::prelude::*;
use crate::modes::{
    backend_policy, daemon_backend_policy, effective_mode, effective_native_mode, probe_local_first,
    should_probe_local_before_daemon, BuildCompileBackend, DaemonBuildBackend, DaemonModeArg,
    EngineArg, NativeBuildMode,
};
use crate::text::str_eq;

verus! {

/// Which session key an action or a result refers to.
#[derive(Clone, Copy, Debug, PartialEq, Eq, Structural)]
pub enum KeyRef {
    /// No session key (a direct Scarb build).
    NoKey,
    /// The primary key: the daemon backend's, or the native one.
    Primary,
    /// The key of a Scarb-backed build.
    Scarb,
    /// The key the daemon answered with.
    Response,
}

/// Why a build fell back to Scarb.
#[derive(Clone, Copy, Debug, PartialEq, Eq, Structural)]
pub enum FallbackReason {
    /// The native preflight found the project ineligible (auto mode); the
    /// flag says whether the daemon is off.
    PreflightIneligible { daemon_off: bool },
    /// The native compile failed with an error that allows the fallback.
    NativeCompileError,
}

/// Why a build stops.
#[derive(Clone, Copy, Debug, PartialEq, Eq, Structural)]
pub enum RouteFailure {
    /// The native preflight failed with an error that allows no fallback.
    PreflightRefused,
    /// The daemon mode is require but the daemon is unavailable.
    DaemonUnavailable,
    /// The native mode is require but the native build failed.
    NativeRequiredFailed,
    /// The native build failed with an error that allows no fallback.
    NativeFailed,
}

/// What the driver does next.
#[derive(Clone, Copy, Debug, PartialEq, Eq, Structural)]
pub enum BuildRouteAction {
    /// Build with Scarb directly (the `scarb` engine).
    RunScarbDirect,
    /// Run the native preflight.
    Preflight,
    /// Check whether the daemon socket exists.
    CheckDaemonSocket,
    /// Compute the session key for a backend.
    ResolveSessionKey { backend: BuildCompileBackend },
    /// Read the native-supported hint of the primary key.
    ReadNativeSupportedHint,
    /// Read the probe hint of the primary key.
    ReadProbeHint,
    /// Look in the local cache under a key.
    ProbeLocalCache { key: KeyRef, include_scarb_fallback: bool },
    /// Ask the daemon to build.
    CallDaemon { backend: BuildCompileBackend, native_fallback_to_scarb: bool, fallback_to_local: bool },
    /// Build locally with a backend under a key.
    RunLocal { backend: BuildCompileBackend, key: KeyRef },
    /// Record that the primary key's build is served under `hinted`.
    PersistProbeHint { hinted: KeyRef },
    /// Remove the primary key's probe hint.
    ClearProbeHint,
    /// Record that the primary key builds natively.
    PersistNativeSupportedHint,
    /// Remove the primary key's native-supported hint.
    ClearNativeSupportedHint,
    /// Report that the build falls back to Scarb.
    ReportFallback { reason: FallbackReason },
    /// Stop the build.
    Fail { kind: RouteFailure },
    /// The build is over: under this key, through the daemon or not, and
    /// whether a local cache probe served it.
    Finish { key: KeyRef, daemon_used: bool, probe_hit: bool },
    /// The event does not fit the phase; nothing changes.
    Ignore,
}

/// What the driver reports.
pub enum BuildRouteEvent {
    /// The build starts.
    Begin,
    /// The native preflight: whether the project is eligible, and, if not,
    /// whether its error allows falling back to Scarb.
    Preflight { eligible: bool, fallback_allowed: bool },
    /// Whether the daemon socket exists.
    DaemonSocket { available: bool },
    /// The session key that was asked for.
    SessionKey { key: String },
    /// Whether the native-supported hint is set.
    NativeSupportedHint { supported: bool },
    /// The probe hint (a key other than the primary one), if any.
    ProbeHint { hinted: Option<String> },
    /// Whether the local cache probe hit.
    LocalProbe { hit: bool },
    /// The daemon's answer (the backend it used and its session key), or
    /// none when it was unavailable.
    DaemonResponse { response: Option<(DaemonBuildBackend, String)> },
    /// A local build: whether it succeeded and, if not, whether its error
    /// allows falling back to Scarb.
    LocalBuild { ok: bool, fallback_allowed: bool },
    /// The last action (one that reports nothing) is done.
    Done,
}

/// Where the routing of a build stands.
#[derive(Clone, Copy, Debug, PartialEq, Eq, Structural)]
pub enum RoutePhase {
    Start,
    AwaitScarbDirect,
    AwaitPreflight,
    AfterPreflightReport,
    AwaitSocket,
    AwaitPrimaryKey,
    AwaitNativeSupportedHint,
    AwaitProbeHint,
    AwaitScarbKeyForHint,
    AfterHintPersist,
    AwaitProbeScarbHinted,
    AwaitProbePrimary,
    AwaitScarbKeyForProbe,
    AwaitProbeScarb,
    AwaitDaemon,
    AwaitLocalScarbKey,
    AwaitLocalScarbRun,
    AwaitNativeKey,
    AwaitNativeRequiredRun,
    AwaitLocalProbeHint,
    AwaitHintedScarbKey,
    AwaitHintedScarbRun,
    AwaitNativeRun,
    AfterNativeFallbackReport,
    AwaitFallbackScarbKey,
    AwaitFallbackScarbRun,
    Draining,
    Done,
}

/// The state of a build's routing.
pub struct BuildRouteState {
    pub phase: RoutePhase,
    pub engine: EngineArg,
    pub daemon_mode: DaemonModeArg,
    pub configured_native_mode: NativeBuildMode,
    pub native_auto_eligible: bool,
    pub primary_key: Option<String>,
    pub scarb_key: Option<String>,
    pub hinted_key: Option<String>,
    pub response_key: Option<String>,
    pub native_supported: bool,
    pub tried_scarb_probe: bool,
    /// Actions queued behind the current one.
    pub next1: Option<BuildRouteAction>,
    pub next2: Option<BuildRouteAction>,
}

/// A build that has not started.
pub open spec fn route_initial(engine: EngineArg, daemon_mode: DaemonModeArg, configured: NativeBuildMode) -> BuildRouteState {
    BuildRouteState {
        phase: RoutePhase::Start,
        engine,
        daemon_mode,
        configured_native_mode: configured,
        native_auto_eligible: true,
        primary_key: None,
        scarb_key: None,
        hinted_key: None,
        response_key: None,
        native_supported: false,
        tried_scarb_probe: false,
        next1: None,
        next2: None,
    }
}

/// Whether both keys are present and equal.
pub open spec fn same_keys(a: Option<String>, b: Option<String>) -> bool {
    a is Some && b is Some && a->0@ == b->0@
}

/// The backend the daemon is asked for, and whether a native failure may
/// fall back to Scarb.
pub open spec fn policy(s: BuildRouteState) -> (BuildCompileBackend, bool) {
    backend_policy(s.configured_native_mode, s.native_auto_eligible)
}

/// Three actions in a row: the first now, the others queued.
pub open spec fn emit3(s: BuildRouteState, a: BuildRouteAction, b: BuildRouteAction, c: BuildRouteAction) -> (BuildRouteState, BuildRouteAction) {
    (BuildRouteState { phase: RoutePhase::Draining, next1: Some(b), next2: Some(c), ..s }, a)
}

/// Two actions in a row.
pub open spec fn emit2(s: BuildRouteState, a: BuildRouteAction, b: BuildRouteAction) -> (BuildRouteState, BuildRouteAction) {
    (BuildRouteState { phase: RoutePhase::Draining, next1: Some(b), next2: None, ..s }, a)
}

/// The last action.
pub open spec fn finish(s: BuildRouteState, a: BuildRouteAction) -> (BuildRouteState, BuildRouteAction) {
    (BuildRouteState { phase: RoutePhase::Done, next1: None, next2: None, ..s }, a)
}

/// A local build in the effective native mode: Scarb when it is off,
/// otherwise native (auto first reads the probe hint).
pub open spec fn local_start(s: BuildRouteState) -> (BuildRouteState, BuildRouteAction) {
    if effective_mode(s.configured_native_mode, s.native_auto_eligible) == NativeBuildMode::Off {
        (
            BuildRouteState { phase: RoutePhase::AwaitLocalScarbKey, ..s },
            BuildRouteAction::ResolveSessionKey { backend: BuildCompileBackend::Scarb },
        )
    } else {
        (
            BuildRouteState { phase: RoutePhase::AwaitNativeKey, ..s },
            BuildRouteAction::ResolveSessionKey { backend: BuildCompileBackend::Native },
        )
    }
}

/// The daemon route: the primary key for the daemon's backend first.
pub open spec fn daemon_start(s: BuildRouteState) -> (BuildRouteState, BuildRouteAction) {
    (
        BuildRouteState { phase: RoutePhase::AwaitPrimaryKey, ..s },
        BuildRouteAction::ResolveSessionKey { backend: policy(s).0 },
    )
}

/// After the preflight: by daemon mode.
pub open spec fn route(s: BuildRouteState) -> (BuildRouteState, BuildRouteAction) {
    match s.daemon_mode {
        DaemonModeArg::Off => local_start(s),
        DaemonModeArg::Auto => (BuildRouteState { phase: RoutePhase::AwaitSocket, ..s }, BuildRouteAction::CheckDaemonSocket),
        DaemonModeArg::Require => daemon_start(s),
    }
}

/// Probe the local cache under the primary key.
pub open spec fn probe_primary(s: BuildRouteState) -> (BuildRouteState, BuildRouteAction) {
    (
        BuildRouteState { phase: RoutePhase::AwaitProbePrimary, ..s },
        BuildRouteAction::ProbeLocalCache { key: KeyRef::Primary, include_scarb_fallback: policy(s).1 },
    )
}

/// Ask the daemon.
pub open spec fn call_daemon(s: BuildRouteState) -> (BuildRouteState, BuildRouteAction) {
    (
        BuildRouteState { phase: RoutePhase::AwaitDaemon, ..s },
        BuildRouteAction::CallDaemon {
            backend: policy(s).0,
            native_fallback_to_scarb: policy(s).1,
            fallback_to_local: s.daemon_mode == DaemonModeArg::Auto,
        },
    )
}

/// After the primary key missed: the Scarb key's cache too, when a Scarb
/// fallback is possible, no native-supported hint is set and it was not
/// probed yet; else the daemon.
pub open spec fn after_primary_miss(s: BuildRouteState) -> (BuildRouteState, BuildRouteAction) {
    if policy(s).1 && !s.native_supported && !s.tried_scarb_probe {
        if s.scarb_key is Some {
            if !same_keys(s.scarb_key, s.primary_key) {
                (
                    BuildRouteState { phase: RoutePhase::AwaitProbeScarb, ..s },
                    BuildRouteAction::ProbeLocalCache { key: KeyRef::Scarb, include_scarb_fallback: true },
                )
            } else {
                call_daemon(s)
            }
        } else {
            (
                BuildRouteState { phase: RoutePhase::AwaitScarbKeyForProbe, ..s },
                BuildRouteAction::ResolveSessionKey { backend: BuildCompileBackend::Scarb },
            )
        }
    } else {
        call_daemon(s)
    }
}

/// The next state and action of a build's routing.
pub open spec fn build_route_next(s: BuildRouteState, e: BuildRouteEvent) -> (BuildRouteState, BuildRouteAction) {
    match (s.phase, e) {
        (RoutePhase::Start, BuildRouteEvent::Begin) => {
            if s.engine == EngineArg::Scarb {
                (BuildRouteState { phase: RoutePhase::AwaitScarbDirect, ..s }, BuildRouteAction::RunScarbDirect)
            } else if s.configured_native_mode == NativeBuildMode::Auto {
                (BuildRouteState { phase: RoutePhase::AwaitPreflight, ..s }, BuildRouteAction::Preflight)
            } else {
                route(s)
            }
        },
        (RoutePhase::AwaitScarbDirect, BuildRouteEvent::LocalBuild { .. }) => finish(
            s,
            BuildRouteAction::Finish { key: KeyRef::NoKey, daemon_used: false, probe_hit: false },
        ),
        (RoutePhase::AwaitPreflight, BuildRouteEvent::Preflight { eligible, fallback_allowed }) => {
            if eligible {
                route(BuildRouteState { native_auto_eligible: true, ..s })
            } else if !fallback_allowed {
                finish(s, BuildRouteAction::Fail { kind: RouteFailure::PreflightRefused })
            } else {
                (
                    BuildRouteState { phase: RoutePhase::AfterPreflightReport, native_auto_eligible: false, ..s },
                    BuildRouteAction::ReportFallback {
                        reason: FallbackReason::PreflightIneligible { daemon_off: s.daemon_mode == DaemonModeArg::Off },
                    },
                )
            }
        },
        (RoutePhase::AfterPreflightReport, BuildRouteEvent::Done) => route(s),
        (RoutePhase::AwaitSocket, BuildRouteEvent::DaemonSocket { available }) => {
            if probe_local_first(s.daemon_mode, available) {
                daemon_start(s)
            } else {
                local_start(s)
            }
        },
        (RoutePhase::AwaitPrimaryKey, BuildRouteEvent::SessionKey { key }) => {
            let s1 = BuildRouteState { primary_key: Some(key), ..s };
            if policy(s).1 {
                (BuildRouteState { phase: RoutePhase::AwaitNativeSupportedHint, ..s1 }, BuildRouteAction::ReadNativeSupportedHint)
            } else {
                probe_primary(s1)
            }
        },
        (RoutePhase::AwaitNativeSupportedHint, BuildRouteEvent::NativeSupportedHint { supported }) => {
            let s1 = BuildRouteState { native_supported: supported, ..s };
            if !supported {
                (BuildRouteState { phase: RoutePhase::AwaitProbeHint, ..s1 }, BuildRouteAction::ReadProbeHint)
            } else {
                probe_primary(s1)
            }
        },
        (RoutePhase::AwaitProbeHint, BuildRouteEvent::ProbeHint { hinted }) => {
            let s1 = BuildRouteState { hinted_key: hinted, ..s };
            if s1.hinted_key is Some {
                (
                    BuildRouteState { phase: RoutePhase::AwaitScarbKeyForHint, ..s1 },
                    BuildRouteAction::ResolveSessionKey { backend: BuildCompileBackend::Scarb },
                )
            } else {
                probe_primary(s1)
            }
        },
        (RoutePhase::AwaitScarbKeyForHint, BuildRouteEvent::SessionKey { key }) => {
            let s1 = BuildRouteState { scarb_key: Some(key), ..s };
            if !same_keys(s.hinted_key, s1.scarb_key) {
                (
                    BuildRouteState { phase: RoutePhase::AfterHintPersist, ..s1 },
                    BuildRouteAction::PersistProbeHint { hinted: KeyRef::Scarb },
                )
            } else {
                (
                    BuildRouteState { phase: RoutePhase::AwaitProbeScarbHinted, tried_scarb_probe: true, ..s1 },
                    BuildRouteAction::ProbeLocalCache { key: KeyRef::Scarb, include_scarb_fallback: true },
                )
            }
        },
        (RoutePhase::AfterHintPersist, BuildRouteEvent::Done) => probe_primary(s),
        (RoutePhase::AwaitProbeScarbHinted, BuildRouteEvent::LocalProbe { hit }) => {
            if hit {
                finish(s, BuildRouteAction::Finish { key: KeyRef::Scarb, daemon_used: false, probe_hit: true })
            } else {
                probe_primary(s)
            }
        },
        (RoutePhase::AwaitProbePrimary, BuildRouteEvent::LocalProbe { hit }) => {
            if hit {
                if policy(s).1 {
                    emit3(
                        s,
                        BuildRouteAction::ClearProbeHint,
                        BuildRouteAction::PersistNativeSupportedHint,
                        BuildRouteAction::Finish { key: KeyRef::Primary, daemon_used: false, probe_hit: true },
                    )
                } else {
                    finish(s, BuildRouteAction::Finish { key: KeyRef::Primary, daemon_used: false, probe_hit: true })
                }
            } else {
                after_primary_miss(s)
            }
        },
        (RoutePhase::AwaitScarbKeyForProbe, BuildRouteEvent::SessionKey { key }) => {
            let s1 = BuildRouteState { scarb_key: Some(key), ..s };
            if !same_keys(s1.scarb_key, s.primary_key) {
                (
                    BuildRouteState { phase: RoutePhase::AwaitProbeScarb, ..s1 },
                    BuildRouteAction::ProbeLocalCache { key: KeyRef::Scarb, include_scarb_fallback: true },
                )
            } else {
                call_daemon(s1)
            }
        },
        (RoutePhase::AwaitProbeScarb, BuildRouteEvent::LocalProbe { hit }) => {
            if hit {
                emit3(
                    s,
                    BuildRouteAction::PersistProbeHint { hinted: KeyRef::Scarb },
                    BuildRouteAction::ClearNativeSupportedHint,
                    BuildRouteAction::Finish { key: KeyRef::Scarb, daemon_used: false, probe_hit: true },
                )
            } else {
                call_daemon(s)
            }
        },
        (RoutePhase::AwaitDaemon, BuildRouteEvent::DaemonResponse { response }) => match response {
            None => if s.daemon_mode == DaemonModeArg::Require {
                finish(s, BuildRouteAction::Fail { kind: RouteFailure::DaemonUnavailable })
            } else {
                local_start(s)
            },
            Some((backend, key)) => {
                let s1 = BuildRouteState { response_key: Some(key), ..s };
                let done = BuildRouteAction::Finish { key: KeyRef::Response, daemon_used: true, probe_hit: false };
                if policy(s).1 && backend == DaemonBuildBackend::Scarb && !same_keys(s1.response_key, s.primary_key) {
                    emit3(
                        s1,
                        BuildRouteAction::PersistProbeHint { hinted: KeyRef::Response },
                        BuildRouteAction::ClearNativeSupportedHint,
                        done,
                    )
                } else if same_keys(s1.response_key, s.primary_key) {
                    if backend == DaemonBuildBackend::Native {
                        emit3(s1, BuildRouteAction::ClearProbeHint, BuildRouteAction::PersistNativeSupportedHint, done)
                    } else {
                        emit2(s1, BuildRouteAction::ClearProbeHint, done)
                    }
                } else {
                    finish(s1, done)
                }
            },
        },
        (RoutePhase::AwaitLocalScarbKey, BuildRouteEvent::SessionKey { key }) => (
            BuildRouteState { phase: RoutePhase::AwaitLocalScarbRun, scarb_key: Some(key), ..s },
            BuildRouteAction::RunLocal { backend: BuildCompileBackend::Scarb, key: KeyRef::Scarb },
        ),
        (RoutePhase::AwaitLocalScarbRun, BuildRouteEvent::LocalBuild { .. }) => finish(
            s,
            BuildRouteAction::Finish { key: KeyRef::Scarb, daemon_used: false, probe_hit: false },
        ),
        (RoutePhase::AwaitNativeKey, BuildRouteEvent::SessionKey { key }) => {
            let s1 = BuildRouteState { primary_key: Some(key), ..s };
            if effective_mode(s.configured_native_mode, s.native_auto_eligible) == NativeBuildMode::Require {
                (
                    BuildRouteState { phase: RoutePhase::AwaitNativeRequiredRun, ..s1 },
                    BuildRouteAction::RunLocal { backend: BuildCompileBackend::Native, key: KeyRef::Primary },
                )
            } else {
                (BuildRouteState { phase: RoutePhase::AwaitLocalProbeHint, ..s1 }, BuildRouteAction::ReadProbeHint)
            }
        },
        (RoutePhase::AwaitNativeRequiredRun, BuildRouteEvent::LocalBuild { ok, .. }) => {
            if ok {
                finish(s, BuildRouteAction::Finish { key: KeyRef::Primary, daemon_used: false, probe_hit: false })
            } else {
                finish(s, BuildRouteAction::Fail { kind: RouteFailure::NativeRequiredFailed })
            }
        },
        (RoutePhase::AwaitLocalProbeHint, BuildRouteEvent::ProbeHint { hinted }) => {
            let s1 = BuildRouteState { hinted_key: hinted, ..s };
            if s1.hinted_key is Some {
                (
                    BuildRouteState { phase: RoutePhase::AwaitHintedScarbKey, ..s1 },
                    BuildRouteAction::ResolveSessionKey { backend: BuildCompileBackend::Scarb },
                )
            } else {
                (
                    BuildRouteState { phase: RoutePhase::AwaitNativeRun, ..s1 },
                    BuildRouteAction::RunLocal { backend: BuildCompileBackend::Native, key: KeyRef::Primary },
                )
            }
        },
        (RoutePhase::AwaitHintedScarbKey, BuildRouteEvent::SessionKey { key }) => (
            BuildRouteState { phase: RoutePhase::AwaitHintedScarbRun, scarb_key: Some(key), ..s },
            BuildRouteAction::RunLocal { backend: BuildCompileBackend::Scarb, key: KeyRef::Scarb },
        ),
        (RoutePhase::AwaitHintedScarbRun, BuildRouteEvent::LocalBuild { .. }) => {
            let done = BuildRouteAction::Finish { key: KeyRef::Scarb, daemon_used: false, probe_hit: false };
            if !same_keys(s.hinted_key, s.scarb_key) {
                emit3(s, BuildRouteAction::PersistProbeHint { hinted: KeyRef::Scarb }, BuildRouteAction::ClearNativeSupportedHint, done)
            } else {
                emit2(s, BuildRouteAction::ClearNativeSupportedHint, done)
            }
        },
        (RoutePhase::AwaitNativeRun, BuildRouteEvent::LocalBuild { ok, fallback_allowed }) => {
            if ok {
                emit3(
                    s,
                    BuildRouteAction::ClearProbeHint,
                    BuildRouteAction::PersistNativeSupportedHint,
                    BuildRouteAction::Finish { key: KeyRef::Primary, daemon_used: false, probe_hit: false },
                )
            } else if !fallback_allowed {
                finish(s, BuildRouteAction::Fail { kind: RouteFailure::NativeFailed })
            } else {
                (
                    BuildRouteState { phase: RoutePhase::AfterNativeFallbackReport, ..s },
                    BuildRouteAction::ReportFallback { reason: FallbackReason::NativeCompileError },
                )
            }
        },
        (RoutePhase::AfterNativeFallbackReport, BuildRouteEvent::Done) => (
            BuildRouteState { phase: RoutePhase::AwaitFallbackScarbKey, ..s },
            BuildRouteAction::ResolveSessionKey { backend: BuildCompileBackend::Scarb },
        ),
        (RoutePhase::AwaitFallbackScarbKey, BuildRouteEvent::SessionKey { key }) => (
            BuildRouteState { phase: RoutePhase::AwaitFallbackScarbRun, scarb_key: Some(key), ..s },
            BuildRouteAction::RunLocal { backend: BuildCompileBackend::Scarb, key: KeyRef::Scarb },
        ),
        (RoutePhase::AwaitFallbackScarbRun, BuildRouteEvent::LocalBuild { .. }) => emit3(
            s,
            BuildRouteAction::PersistProbeHint { hinted: KeyRef::Scarb },
            BuildRouteAction::ClearNativeSupportedHint,
            BuildRouteAction::Finish { key: KeyRef::Scarb, daemon_used: false, probe_hit: false },
        ),
        (RoutePhase::Draining, BuildRouteEvent::Done) => match s.next1 {
            Some(a) => (
                BuildRouteState {
                    phase: if s.next2 is Some {
                        RoutePhase::Draining
                    } else {
                        RoutePhase::Done
                    },
                    next1: s.next2,
                    next2: None,
                    ..s
                },
                a,
            ),
            None => (s, BuildRouteAction::Ignore),
        },
        (_, _) => (s, BuildRouteAction::Ignore),
    }
}

/// A build's routing before it starts.
pub fn build_route_start(engine: EngineArg, daemon_mode: DaemonModeArg, configured: NativeBuildMode) -> (s: BuildRouteState)
    ensures
        s == route_initial(engine, daemon_mode, configured),
{
    BuildRouteState {
        phase: RoutePhase::Start,
        engine,
        daemon_mode,
        configured_native_mode: configured,
        native_auto_eligible: true,
        primary_key: None,
        scarb_key: None,
        hinted_key: None,
        response_key: None,
        native_supported: false,
        tried_scarb_probe: false,
        next1: None,
        next2: None,
    }
}

fn same_keys_exec(a: &Option<String>, b: &Option<String>) -> (r: bool)
    ensures
        r == same_keys(*a, *b),
{
    match (a, b) {
        (Some(x), Some(y)) => str_eq(x.as_str(), y.as_str()),
        _ => false,
    }
}

fn policy_exec(s: &BuildRouteState) -> (r: (BuildCompileBackend, bool))
    ensures
        r == policy(*s),
{
    daemon_backend_policy(s.configured_native_mode, s.native_auto_eligible)
}

fn emit3_exec(s: BuildRouteState, a: BuildRouteAction, b: BuildRouteAction, c: BuildRouteAction) -> (r: (BuildRouteState, BuildRouteAction))
    ensures
        r == emit3(s, a, b, c),
{
    (BuildRouteState { phase: RoutePhase::Draining, next1: Some(b), next2: Some(c), ..s }, a)
}

fn emit2_exec(s: BuildRouteState, a: BuildRouteAction, b: BuildRouteAction) -> (r: (BuildRouteState, BuildRouteAction))
    ensures
        r == emit2(s, a, b),
{
    (BuildRouteState { phase: RoutePhase::Draining, next1: Some(b), next2: None, ..s }, a)
}

fn finish_exec(s: BuildRouteState, a: BuildRouteAction) -> (r: (BuildRouteState, BuildRouteAction))
    ensures
        r == finish(s, a),
{
    (BuildRouteState { phase: RoutePhase::Done, next1: None, next2: None, ..s }, a)
}

fn local_start_exec(s: BuildRouteState) -> (r: (BuildRouteState, BuildRouteAction))
    ensures
        r == local_start(s),
{
    if effective_native_mode(s.configured_native_mode, s.native_auto_eligible) == NativeBuildMode::Off {
        (
            BuildRouteState { phase: RoutePhase::AwaitLocalScarbKey, ..s },
            BuildRouteAction::ResolveSessionKey { backend: BuildCompileBackend::Scarb },
        )
    } else {
        (
            BuildRouteState { phase: RoutePhase::AwaitNativeKey, ..s },
            BuildRouteAction::ResolveSessionKey { backend: BuildCompileBackend::Native },
        )
    }
}

fn daemon_start_exec(s: BuildRouteState) -> (r: (BuildRouteState, BuildRouteAction))
    ensures
        r == daemon_start(s),
{
    let p = policy_exec(&s);
    (BuildRouteState { phase: RoutePhase::AwaitPrimaryKey, ..s }, BuildRouteAction::ResolveSessionKey { backend: p.0 })
}

fn route_exec(s: BuildRouteState) -> (r: (BuildRouteState, BuildRouteAction))
    ensures
        r == route(s),
{
    match s.daemon_mode {
        DaemonModeArg::Off => local_start_exec(s),
        DaemonModeArg::Auto => (BuildRouteState { phase: RoutePhase::AwaitSocket, ..s }, BuildRouteAction::CheckDaemonSocket),
        DaemonModeArg::Require => daemon_start_exec(s),
    }
}

fn probe_primary_exec(s: BuildRouteState) -> (r: (BuildRouteState, BuildRouteAction))
    ensures
        r == probe_primary(s),
{
    let p = policy_exec(&s);
    (
        BuildRouteState { phase: RoutePhase::AwaitProbePrimary, ..s },
        BuildRouteAction::ProbeLocalCache { key: KeyRef::Primary, include_scarb_fallback: p.1 },
    )
}

fn call_daemon_exec(s: BuildRouteState) -> (r: (BuildRouteState, BuildRouteAction))
    ensures
        r == call_daemon(s),
{
    let p = policy_exec(&s);
    let to_local = s.daemon_mode == DaemonModeArg::Auto;
    (
        BuildRouteState { phase: RoutePhase::AwaitDaemon, ..s },
        BuildRouteAction::CallDaemon { backend: p.0, native_fallback_to_scarb: p.1, fallback_to_local: to_local },
    )
}

fn after_primary_miss_exec(s: BuildRouteState) -> (r: (BuildRouteState, BuildRouteAction))
    ensures
        r == after_primary_miss(s),
{
    let p = policy_exec(&s);
    if p.1 && !s.native_supported && !s.tried_scarb_probe {
        if s.scarb_key.is_some() {
            if !same_keys_exec(&s.scarb_key, &s.primary_key) {
                (
                    BuildRouteState { phase: RoutePhase::AwaitProbeScarb, ..s },
                    BuildRouteAction::ProbeLocalCache { key: KeyRef::Scarb, include_scarb_fallback: true },
                )
            } else {
                call_daemon_exec(s)
            }
        } else {
            (
                BuildRouteState { phase: RoutePhase::AwaitScarbKeyForProbe, ..s },
                BuildRouteAction::ResolveSessionKey { backend: BuildCompileBackend::Scarb },
            )
        }
    } else {
        call_daemon_exec(s)
    }
}

/// One step of a build's routing: from the state and what the driver
/// reports, the next state and what the driver does next (see
/// `build_route_next`).
pub fn build_route_step(state: BuildRouteState, event: BuildRouteEvent) -> (r: (BuildRouteState, BuildRouteAction))
    ensures
        r == build_route_next(state, event),
{
    let s = state;
    match (s.phase, event) {
        (RoutePhase::Start, BuildRouteEvent::Begin) => {
            if s.engine == EngineArg::Scarb {
                (BuildRouteState { phase: RoutePhase::AwaitScarbDirect, ..s }, BuildRouteAction::RunScarbDirect)
            } else if s.configured_native_mode == NativeBuildMode::Auto {
                (BuildRouteState { phase: RoutePhase::AwaitPreflight, ..s }, BuildRouteAction::Preflight)
            } else {
                route_exec(s)
            }
        },
        (RoutePhase::AwaitScarbDirect, BuildRouteEvent::LocalBuild { .. }) => finish_exec(
            s,
            BuildRouteAction::Finish { key: KeyRef::NoKey, daemon_used: false, probe_hit: false },
        ),
        (RoutePhase::AwaitPreflight, BuildRouteEvent::Preflight { eligible, fallback_allowed }) => {
            if eligible {
                route_exec(BuildRouteState { native_auto_eligible: true, ..s })
            } else if !fallback_allowed {
                finish_exec(s, BuildRouteAction::Fail { kind: RouteFailure::PreflightRefused })
            } else {
                let off = s.daemon_mode == DaemonModeArg::Off;
                (
                    BuildRouteState { phase: RoutePhase::AfterPreflightReport, native_auto_eligible: false, ..s },
                    BuildRouteAction::ReportFallback { reason: FallbackReason::PreflightIneligible { daemon_off: off } },
                )
            }
        },
        (RoutePhase::AfterPreflightReport, BuildRouteEvent::Done) => route_exec(s),
        (RoutePhase::AwaitSocket, BuildRouteEvent::DaemonSocket { available }) => {
            if should_probe_local_before_daemon(s.daemon_mode, available) {
                daemon_start_exec(s)
            } else {
                local_start_exec(s)
            }
        },
        (RoutePhase::AwaitPrimaryKey, BuildRouteEvent::SessionKey { key }) => {
            let p = policy_exec(&s);
            let s1 = BuildRouteState { primary_key: Some(key), ..s };
            if p.1 {
                (BuildRouteState { phase: RoutePhase::AwaitNativeSupportedHint, ..s1 }, BuildRouteAction::ReadNativeSupportedHint)
            } else {
                probe_primary_exec(s1)
            }
        },
        (RoutePhase::AwaitNativeSupportedHint, BuildRouteEvent::NativeSupportedHint { supported }) => {
            let s1 = BuildRouteState { native_supported: supported, ..s };
            if !supported {
                (BuildRouteState { phase: RoutePhase::AwaitProbeHint, ..s1 }, BuildRouteAction::ReadProbeHint)
            } else {
                probe_primary_exec(s1)
            }
        },
        (RoutePhase::AwaitProbeHint, BuildRouteEvent::ProbeHint { hinted }) => {
            let s1 = BuildRouteState { hinted_key: hinted, ..s };
            if s1.hinted_key.is_some() {
                (
                    BuildRouteState { phase: RoutePhase::AwaitScarbKeyForHint, ..s1 },
                    BuildRouteAction::ResolveSessionKey { backend: BuildCompileBackend::Scarb },
                )
            } else {
                probe_primary_exec(s1)
            }
        },
        (RoutePhase::AwaitScarbKeyForHint, BuildRouteEvent::SessionKey { key }) => {
            let s1 = BuildRouteState { scarb_key: Some(key), ..s };
            if !same_keys_exec(&s1.hinted_key, &s1.scarb_key) {
                (
                    BuildRouteState { phase: RoutePhase::AfterHintPersist, ..s1 },
                    BuildRouteAction::PersistProbeHint { hinted: KeyRef::Scarb },
                )
            } else {
                (
                    BuildRouteState { phase: RoutePhase::AwaitProbeScarbHinted, tried_scarb_probe: true, ..s1 },
                    BuildRouteAction::ProbeLocalCache { key: KeyRef::Scarb, include_scarb_fallback: true },
                )
            }
        },
        (RoutePhase::AfterHintPersist, BuildRouteEvent::Done) => probe_primary_exec(s),
        (RoutePhase::AwaitProbeScarbHinted, BuildRouteEvent::LocalProbe { hit }) => {
            if hit {
                finish_exec(s, BuildRouteAction::Finish { key: KeyRef::Scarb, daemon_used: false, probe_hit: true })
            } else {
                probe_primary_exec(s)
            }
        },
        (RoutePhase::AwaitProbePrimary, BuildRouteEvent::LocalProbe { hit }) => {
            if hit {
                let p = policy_exec(&s);
                if p.1 {
                    emit3_exec(
                        s,
                        BuildRouteAction::ClearProbeHint,
                        BuildRouteAction::PersistNativeSupportedHint,
                        BuildRouteAction::Finish { key: KeyRef::Primary, daemon_used: false, probe_hit: true },
                    )
                } else {
                    finish_exec(s, BuildRouteAction::Finish { key: KeyRef::Primary, daemon_used: false, probe_hit: true })
                }
            } else {
                after_primary_miss_exec(s)
            }
        },
        (RoutePhase::AwaitScarbKeyForProbe, BuildRouteEvent::SessionKey { key }) => {
            let s1 = BuildRouteState { scarb_key: Some(key), ..s };
            if !same_keys_exec(&s1.scarb_key, &s1.primary_key) {
                (
                    BuildRouteState { phase: RoutePhase::AwaitProbeScarb, ..s1 },
                    BuildRouteAction::ProbeLocalCache { key: KeyRef::Scarb, include_scarb_fallback: true },
                )
            } else {
                call_daemon_exec(s1)
            }
        },
        (RoutePhase::AwaitProbeScarb, BuildRouteEvent::LocalProbe { hit }) => {
            if hit {
                emit3_exec(
                    s,
                    BuildRouteAction::PersistProbeHint { hinted: KeyRef::Scarb },
                    BuildRouteAction::ClearNativeSupportedHint,
                    BuildRouteAction::Finish { key: KeyRef::Scarb, daemon_used: false, probe_hit: true },
                )
            } else {
                call_daemon_exec(s)
            }
        },
        (RoutePhase::AwaitDaemon, BuildRouteEvent::DaemonResponse { response }) => match response {
            None => if s.daemon_mode == DaemonModeArg::Require {
                finish_exec(s, BuildRouteAction::Fail { kind: RouteFailure::DaemonUnavailable })
            } else {
                local_start_exec(s)
            },
            Some((backend, key)) => {
                let p = policy_exec(&s);
                let s1 = BuildRouteState { response_key: Some(key), ..s };
                let done = BuildRouteAction::Finish { key: KeyRef::Response, daemon_used: true, probe_hit: false };
                let same = same_keys_exec(&s1.response_key, &s1.primary_key);
                if p.1 && backend == DaemonBuildBackend::Scarb && !same {
                    emit3_exec(
                        s1,
                        BuildRouteAction::PersistProbeHint { hinted: KeyRef::Response },
                        BuildRouteAction::ClearNativeSupportedHint,
                        done,
                    )
                } else if same {
                    if backend == DaemonBuildBackend::Native {
                        emit3_exec(s1, BuildRouteAction::ClearProbeHint, BuildRouteAction::PersistNativeSupportedHint, done)
                    } else {
                        emit2_exec(s1, BuildRouteAction::ClearProbeHint, done)
                    }
                } else {
                    finish_exec(s1, done)
                }
            },
        },
        (RoutePhase::AwaitLocalScarbKey, BuildRouteEvent::SessionKey { key }) => (
            BuildRouteState { phase: RoutePhase::AwaitLocalScarbRun, scarb_key: Some(key), ..s },
            BuildRouteAction::RunLocal { backend: BuildCompileBackend::Scarb, key: KeyRef::Scarb },
        ),
        (RoutePhase::AwaitLocalScarbRun, BuildRouteEvent::LocalBuild { .. }) => finish_exec(
            s,
            BuildRouteAction::Finish { key: KeyRef::Scarb, daemon_used: false, probe_hit: false },
        ),
        (RoutePhase::AwaitNativeKey, BuildRouteEvent::SessionKey { key }) => {
            let m = effective_native_mode(s.configured_native_mode, s.native_auto_eligible);
            let s1 = BuildRouteState { primary_key: Some(key), ..s };
            if m == NativeBuildMode::Require {
                (
                    BuildRouteState { phase: RoutePhase::AwaitNativeRequiredRun, ..s1 },
                    BuildRouteAction::RunLocal { backend: BuildCompileBackend::Native, key: KeyRef::Primary },
                )
            } else {
                (BuildRouteState { phase: RoutePhase::AwaitLocalProbeHint, ..s1 }, BuildRouteAction::ReadProbeHint)
            }
        },
        (RoutePhase::AwaitNativeRequiredRun, BuildRouteEvent::LocalBuild { ok, .. }) => {
            if ok {
                finish_exec(s, BuildRouteAction::Finish { key: KeyRef::Primary, daemon_used: false, probe_hit: false })
            } else {
                finish_exec(s, BuildRouteAction::Fail { kind: RouteFailure::NativeRequiredFailed })
            }
        },
        (RoutePhase::AwaitLocalProbeHint, BuildRouteEvent::ProbeHint { hinted }) => {
            let s1 = BuildRouteState { hinted_key: hinted, ..s };
            if s1.hinted_key.is_some() {
                (
                    BuildRouteState { phase: RoutePhase::AwaitHintedScarbKey, ..s1 },
                    BuildRouteAction::ResolveSessionKey { backend: BuildCompileBackend::Scarb },
                )
            } else {
                (
                    BuildRouteState { phase: RoutePhase::AwaitNativeRun, ..s1 },
                    BuildRouteAction::RunLocal { backend: BuildCompileBackend::Native, key: KeyRef::Primary },
                )
            }
        },
        (RoutePhase::AwaitHintedScarbKey, BuildRouteEvent::SessionKey { key }) => (
            BuildRouteState { phase: RoutePhase::AwaitHintedScarbRun, scarb_key: Some(key), ..s },
            BuildRouteAction::RunLocal { backend: BuildCompileBackend::Scarb, key: KeyRef::Scarb },
        ),
        (RoutePhase::AwaitHintedScarbRun, BuildRouteEvent::LocalBuild { .. }) => {
            let done = BuildRouteAction::Finish { key: KeyRef::Scarb, daemon_used: false, probe_hit: false };
            if !same_keys_exec(&s.hinted_key, &s.scarb_key) {
                emit3_exec(s, BuildRouteAction::PersistProbeHint { hinted: KeyRef::Scarb }, BuildRouteAction::ClearNativeSupportedHint, done)
            } else {
                emit2_exec(s, BuildRouteAction::ClearNativeSupportedHint, done)
            }
        },
        (RoutePhase::AwaitNativeRun, BuildRouteEvent::LocalBuild { ok, fallback_allowed }) => {
            if ok {
                emit3_exec(
                    s,
                    BuildRouteAction::ClearProbeHint,
                    BuildRouteAction::PersistNativeSupportedHint,
                    BuildRouteAction::Finish { key: KeyRef::Primary, daemon_used: false, probe_hit: false },
                )
            } else if !fallback_allowed {
                finish_exec(s, BuildRouteAction::Fail { kind: RouteFailure::NativeFailed })
            } else {
                (
                    BuildRouteState { phase: RoutePhase::AfterNativeFallbackReport, ..s },
                    BuildRouteAction::ReportFallback { reason: FallbackReason::NativeCompileError },
                )
            }
        },
        (RoutePhase::AfterNativeFallbackReport, BuildRouteEvent::Done) => (
            BuildRouteState { phase: RoutePhase::AwaitFallbackScarbKey, ..s },
            BuildRouteAction::ResolveSessionKey { backend: BuildCompileBackend::Scarb },
        ),
        (RoutePhase::AwaitFallbackScarbKey, BuildRouteEvent::SessionKey { key }) => (
            BuildRouteState { phase: RoutePhase::AwaitFallbackScarbRun, scarb_key: Some(key), ..s },
            BuildRouteAction::RunLocal { backend: BuildCompileBackend::Scarb, key: KeyRef::Scarb },
        ),
        (RoutePhase::AwaitFallbackScarbRun, BuildRouteEvent::LocalBuild { .. }) => emit3_exec(
            s,
            BuildRouteAction::PersistProbeHint { hinted: KeyRef::Scarb },
            BuildRouteAction::ClearNativeSupportedHint,
            BuildRouteAction::Finish { key: KeyRef::Scarb, daemon_used: false, probe_hit: false },
        ),
        (RoutePhase::Draining, BuildRouteEvent::Done) => match s.next1 {
            Some(a) => {
                let last = s.next2.is_none();
                let n2 = s.next2;
                (
                    BuildRouteState {
                        phase: if last {
                            RoutePhase::Done
                        } else {
                            RoutePhase::Draining
                        },
                        next1: n2,
                        next2: None,
                        ..s
                    },
                    a,
                )
            },
            None => (s, BuildRouteAction::Ignore),
        },
        (_, _) => (s, BuildRouteAction::Ignore),
    }
}


/// The phases that only a build routed to the daemon goes through.
pub open spec fn daemon_phase(p: RoutePhase) -> bool {
    p == RoutePhase::AwaitPrimaryKey || p == RoutePhase::AwaitNativeSupportedHint || p
        == RoutePhase::AwaitProbeHint || p == RoutePhase::AwaitScarbKeyForHint || p
        == RoutePhase::AfterHintPersist || p == RoutePhase::AwaitProbeScarbHinted || p
        == RoutePhase::AwaitProbePrimary || p == RoutePhase::AwaitScarbKeyForProbe || p
        == RoutePhase::AwaitProbeScarb || p == RoutePhase::AwaitDaemon
}

/// An action that only records or reports what happened: the only kind
/// that waits in the queue.
pub open spec fn bookkeeping(a: BuildRouteAction) -> bool {
    a is PersistProbeHint || a is ClearProbeHint || a is PersistNativeSupportedHint
        || a is ClearNativeSupportedHint || a is Finish
}

/// What holds of every state that a build's routing reaches from its start.
pub open spec fn route_inv(s: BuildRouteState) -> bool {
    &&& s.phase == RoutePhase::AwaitSocket ==> s.daemon_mode == DaemonModeArg::Auto
    &&& daemon_phase(s.phase) ==> s.daemon_mode != DaemonModeArg::Off
    &&& s.engine == EngineArg::Scarb ==> (s.phase == RoutePhase::Start || s.phase
        == RoutePhase::AwaitScarbDirect || s.phase == RoutePhase::Done)
    &&& s.phase == RoutePhase::AwaitScarbDirect ==> s.engine == EngineArg::Scarb
    &&& (s.phase == RoutePhase::AwaitNativeKey || s.phase == RoutePhase::AwaitLocalProbeHint) ==> effective_mode(
        s.configured_native_mode,
        s.native_auto_eligible,
    ) != NativeBuildMode::Off
    &&& s.phase == RoutePhase::Draining ==> s.next1 is Some
    &&& s.phase != RoutePhase::Draining ==> s.next1 is None && s.next2 is None
    &&& s.next1 matches Some(a) ==> bookkeeping(a)
    &&& s.next2 matches Some(a) ==> bookkeeping(a)
}

/// Whether a step emits an action now or queues it.
pub open spec fn emits(r: (BuildRouteState, BuildRouteAction), a: BuildRouteAction) -> bool {
    r.1 == a || r.0.next1 == Some(a) || r.0.next2 == Some(a)
}

/// A build starts in a state of the invariant.
pub proof fn lemma_route_initial_inv(engine: EngineArg, daemon_mode: DaemonModeArg, configured: NativeBuildMode)
    ensures
        route_inv(route_initial(engine, daemon_mode, configured)),
{
}

/// Every step keeps the invariant and the build's configuration (engine,
/// daemon mode, configured native mode); only the preflight changes the
/// native eligibility. The daemon is asked only by a build on the `uc`
/// engine whose daemon mode is not off, right after a local cache probe
/// missed, for the backend of the effective native mode and with a Scarb
/// fallback exactly when that mode is auto; it may fall back to a local
/// build exactly in daemon mode auto.
#[verifier::rlimit(50)]
pub proof fn lemma_route_step(s: BuildRouteState, e: BuildRouteEvent)
    requires
        route_inv(s),
    ensures
        route_inv(build_route_next(s, e).0),
        build_route_next(s, e).0.engine == s.engine,
        build_route_next(s, e).0.daemon_mode == s.daemon_mode,
        build_route_next(s, e).0.configured_native_mode == s.configured_native_mode,
        s.phase != RoutePhase::AwaitPreflight ==> build_route_next(s, e).0.native_auto_eligible
            == s.native_auto_eligible,
        build_route_next(s, e).1 is CallDaemon ==> {
            &&& s.engine != EngineArg::Scarb
            &&& s.daemon_mode != DaemonModeArg::Off
            &&& (s.phase == RoutePhase::AwaitProbePrimary || s.phase == RoutePhase::AwaitProbeScarb
                || s.phase == RoutePhase::AwaitScarbKeyForProbe)
            &&& build_route_next(s, e).1 == (BuildRouteAction::CallDaemon {
                backend: policy(s).0,
                native_fallback_to_scarb: policy(s).1,
                fallback_to_local: s.daemon_mode == DaemonModeArg::Auto,
            })
        },
{
}

/// A native build that fails is never recorded as native: with an error
/// that allows it, the build reports the fallback to Scarb; otherwise it
/// stops. Only a native build that succeeds clears the probe hint, records
/// native support and finishes under its own key.
pub proof fn lemma_native_run_outcome(s: BuildRouteState, ok: bool, fallback_allowed: bool)
    requires
        route_inv(s),
        s.phase == RoutePhase::AwaitNativeRun,
    ensures
        ok ==> build_route_next(s, BuildRouteEvent::LocalBuild { ok, fallback_allowed }).1
            == BuildRouteAction::ClearProbeHint,
        ok ==> build_route_next(s, BuildRouteEvent::LocalBuild { ok, fallback_allowed }).0.next1
            == Some(BuildRouteAction::PersistNativeSupportedHint),
        ok ==> build_route_next(s, BuildRouteEvent::LocalBuild { ok, fallback_allowed }).0.next2
            == Some(BuildRouteAction::Finish { key: KeyRef::Primary, daemon_used: false, probe_hit: false }),
        !ok && fallback_allowed ==> build_route_next(
            s,
            BuildRouteEvent::LocalBuild { ok, fallback_allowed },
        ).1 == (BuildRouteAction::ReportFallback { reason: FallbackReason::NativeCompileError }),
        !ok && !fallback_allowed ==> build_route_next(
            s,
            BuildRouteEvent::LocalBuild { ok, fallback_allowed },
        ).1 == (BuildRouteAction::Fail { kind: RouteFailure::NativeFailed }),
        !ok ==> !emits(
            build_route_next(s, BuildRouteEvent::LocalBuild { ok, fallback_allowed }),
            BuildRouteAction::PersistNativeSupportedHint,
        ),
{
}

/// A reported native fallback builds with Scarb under the Scarb key,
/// records that the primary key is served by it, clears the
/// native-supported hint and finishes under the Scarb key: a fallback is
/// reported as a fallback, never as a native success.
pub proof fn lemma_native_fallback_builds_with_scarb(
    s: BuildRouteState,
    key: String,
    ok: bool,
    fallback_allowed: bool,
)
    requires
        s.phase == RoutePhase::AwaitNativeRun,
    ensures
        ({
            let r1 = build_route_next(s, BuildRouteEvent::LocalBuild { ok: false, fallback_allowed: true });
            let r2 = build_route_next(r1.0, BuildRouteEvent::Done);
            let r3 = build_route_next(r2.0, BuildRouteEvent::SessionKey { key });
            let r4 = build_route_next(r3.0, BuildRouteEvent::LocalBuild { ok, fallback_allowed });
            &&& r1.1 == (BuildRouteAction::ReportFallback { reason: FallbackReason::NativeCompileError })
            &&& r2.1 == (BuildRouteAction::ResolveSessionKey { backend: BuildCompileBackend::Scarb })
            &&& r3.1 == (BuildRouteAction::RunLocal { backend: BuildCompileBackend::Scarb, key: KeyRef::Scarb })
            &&& r3.0.scarb_key == Some(key)
            &&& r4.1 == (BuildRouteAction::PersistProbeHint { hinted: KeyRef::Scarb })
            &&& r4.0.next1 == Some(BuildRouteAction::ClearNativeSupportedHint)
            &&& r4.0.next2 == Some(
                BuildRouteAction::Finish { key: KeyRef::Scarb, daemon_used: false, probe_hit: false },
            )
        }),
{
}

/// A local cache probe that hit.
pub open spec fn probe_hit(e: BuildRouteEvent) -> bool {
    match e {
        BuildRouteEvent::LocalProbe { hit } => hit,
        _ => false,
    }
}

/// A daemon answer from the native backend under the given key.
pub open spec fn native_answer_under(e: BuildRouteEvent, key: Option<String>) -> bool {
    match e {
        BuildRouteEvent::DaemonResponse { response: Some((b, k)) } => b == DaemonBuildBackend::Native
            && same_keys(Some(k), key),
        _ => false,
    }
}

/// A local build that succeeded.
pub open spec fn build_ok(e: BuildRouteEvent) -> bool {
    match e {
        BuildRouteEvent::LocalBuild { ok, .. } => ok,
        _ => false,
    }
}

/// Native support is recorded for the primary key only when a build under
/// it succeeded natively: a local cache hit for a build that may fall back,
/// a daemon answer from the native backend under the primary key, or a
/// local native build that succeeded.
#[verifier::rlimit(50)]
pub proof fn lemma_native_supported_only_on_success(s: BuildRouteState, e: BuildRouteEvent)
    requires
        route_inv(s),
        s.phase != RoutePhase::Draining,
        emits(build_route_next(s, e), BuildRouteAction::PersistNativeSupportedHint),
    ensures
        (s.phase == RoutePhase::AwaitProbePrimary && policy(s).1 && probe_hit(e)) || (s.phase
            == RoutePhase::AwaitDaemon && native_answer_under(e, s.primary_key)) || (s.phase
            == RoutePhase::AwaitNativeRun && build_ok(e)),
{
}

/// When the daemon gives no answer, a build in daemon mode require stops
/// with "daemon unavailable"; in auto mode it builds locally in the
/// effective native mode.
pub proof fn lemma_daemon_unavailable(s: BuildRouteState)
    requires
        s.phase == RoutePhase::AwaitDaemon,
    ensures
        s.daemon_mode == DaemonModeArg::Require ==> build_route_next(
            s,
            BuildRouteEvent::DaemonResponse { response: None },
        ).1 == (BuildRouteAction::Fail { kind: RouteFailure::DaemonUnavailable }),
        s.daemon_mode != DaemonModeArg::Require ==> build_route_next(
            s,
            BuildRouteEvent::DaemonResponse { response: None },
        ) == local_start(s),
{
}

/// In native mode require a failed native build stops the build; nothing
/// falls back to Scarb.
pub proof fn lemma_native_require_never_falls_back(s: BuildRouteState, fallback_allowed: bool)
    requires
        s.phase == RoutePhase::AwaitNativeRequiredRun,
    ensures
        build_route_next(s, BuildRouteEvent::LocalBuild { ok: false, fallback_allowed }).1 == (
        BuildRouteAction::Fail { kind: RouteFailure::NativeRequiredFailed }),
        build_route_next(s, BuildRouteEvent::LocalBuild { ok: true, fallback_allowed }).1 == (
        BuildRouteAction::Finish { key: KeyRef::Primary, daemon_used: false, probe_hit: false }),
{
}

/// The preflight in native mode auto: an eligible project keeps the native
/// route; an ineligible one stops when its error allows no fallback, and
/// otherwise reports the fallback and from then on builds (and asks the
/// daemon) with Scarb and no native fallback.
pub proof fn lemma_preflight_outcome(s: BuildRouteState, eligible: bool, fallback_allowed: bool)
    requires
        s.phase == RoutePhase::AwaitPreflight,
        s.configured_native_mode == NativeBuildMode::Auto,
    ensures
        eligible ==> build_route_next(s, BuildRouteEvent::Preflight { eligible, fallback_allowed })
            == route(BuildRouteState { native_auto_eligible: true, ..s }),
        !eligible && !fallback_allowed ==> build_route_next(
            s,
            BuildRouteEvent::Preflight { eligible, fallback_allowed },
        ).1 == (BuildRouteAction::Fail { kind: RouteFailure::PreflightRefused }),
        !eligible && fallback_allowed ==> build_route_next(
            s,
            BuildRouteEvent::Preflight { eligible, fallback_allowed },
        ).1 == (BuildRouteAction::ReportFallback {
            reason: FallbackReason::PreflightIneligible { daemon_off: s.daemon_mode == DaemonModeArg::Off },
        }),
        !eligible && fallback_allowed ==> policy(
            build_route_next(s, BuildRouteEvent::Preflight { eligible, fallback_allowed }).0,
        ) == (BuildCompileBackend::Scarb, false),
{
}

/// A local cache probe that missed.
pub open spec fn probe_missed(e: BuildRouteEvent) -> bool {
    match e {
        BuildRouteEvent::LocalProbe { hit } => !hit,
        _ => false,
    }
}

/// A daemon call that got no answer.
pub open spec fn no_daemon_answer(e: BuildRouteEvent) -> bool {
    match e {
        BuildRouteEvent::DaemonResponse { response } => response is None,
        _ => false,
    }
}

/// A daemon call that got an answer.
pub open spec fn daemon_answered(e: BuildRouteEvent) -> bool {
    match e {
        BuildRouteEvent::DaemonResponse { response } => response is Some,
        _ => false,
    }
}

/// A local build that ran (whatever its outcome).
pub open spec fn local_build_ran(e: BuildRouteEvent) -> bool {
    e is LocalBuild
}

/// A local build that failed, and whether its error allows the Scarb
/// fallback.
pub open spec fn build_failed(e: BuildRouteEvent, fallback: bool) -> bool {
    match e {
        BuildRouteEvent::LocalBuild { ok, fallback_allowed } => !ok && fallback_allowed == fallback,
        _ => false,
    }
}

/// A preflight that found the project ineligible, and whether its error
/// allows the Scarb fallback.
pub open spec fn preflight_ineligible(e: BuildRouteEvent, fallback: bool) -> bool {
    match e {
        BuildRouteEvent::Preflight { eligible, fallback_allowed } => !eligible && fallback_allowed == fallback,
        _ => false,
    }
}

/// A miss in the Scarb cache named by the probe hint does not end the
/// build: the primary key's cache is probed next (and after it, when that
/// misses too, the daemon is asked).
pub proof fn lemma_hinted_scarb_miss_probes_primary(s: BuildRouteState)
    requires
        s.phase == RoutePhase::AwaitProbeScarbHinted,
    ensures
        build_route_next(s, BuildRouteEvent::LocalProbe { hit: false }).1 == (BuildRouteAction::ProbeLocalCache {
            key: KeyRef::Primary,
            include_scarb_fallback: policy(s).1,
        }),
        build_route_next(s, BuildRouteEvent::LocalProbe { hit: false }).0.phase == RoutePhase::AwaitProbePrimary,
        build_route_next(s, BuildRouteEvent::LocalProbe { hit: true }).1 == (BuildRouteAction::Finish {
            key: KeyRef::Scarb,
            daemon_used: false,
            probe_hit: true,
        }),
{
}

/// A missed local cache probe never ends the build: it leads to another
/// probe, to the Scarb session key for one, or to the daemon.
pub proof fn lemma_probe_miss_goes_on(s: BuildRouteState, e: BuildRouteEvent)
    requires
        probe_missed(e),
        s.phase == RoutePhase::AwaitProbeScarbHinted || s.phase == RoutePhase::AwaitProbePrimary || s.phase
            == RoutePhase::AwaitProbeScarb,
    ensures
        build_route_next(s, e).1 is ProbeLocalCache || build_route_next(s, e).1 is CallDaemon
            || build_route_next(s, e).1 == (BuildRouteAction::ResolveSessionKey {
            backend: BuildCompileBackend::Scarb,
        }),
        build_route_next(s, e).0.phase != RoutePhase::Done,
        s.phase == RoutePhase::AwaitProbeScarb ==> build_route_next(s, e).1 is CallDaemon,
{
}

/// Every way a build stops with an error has its cause: the daemon is
/// unavailable only when it gave no answer in daemon mode require; the
/// preflight refuses only on an ineligible project whose error allows no
/// fallback; a native build in mode require fails only when it failed;
/// any other native failure stops the build only when its error allows no
/// fallback.
pub proof fn lemma_failures_have_causes(s: BuildRouteState, e: BuildRouteEvent)
    requires
        route_inv(s),
    ensures
        build_route_next(s, e).1 == (BuildRouteAction::Fail { kind: RouteFailure::DaemonUnavailable }) ==> (s.phase
            == RoutePhase::AwaitDaemon && s.daemon_mode == DaemonModeArg::Require && no_daemon_answer(e)),
        build_route_next(s, e).1 == (BuildRouteAction::Fail { kind: RouteFailure::PreflightRefused }) ==> (s.phase
            == RoutePhase::AwaitPreflight && preflight_ineligible(e, false)),
        build_route_next(s, e).1 == (BuildRouteAction::Fail { kind: RouteFailure::NativeRequiredFailed }) ==> (
        s.phase == RoutePhase::AwaitNativeRequiredRun && e is LocalBuild && !build_ok(e)),
        build_route_next(s, e).1 == (BuildRouteAction::Fail { kind: RouteFailure::NativeFailed }) ==> (s.phase
            == RoutePhase::AwaitNativeRun && build_failed(e, false)),
        build_route_next(s, e).1 is Fail ==> build_route_next(s, e).0.phase == RoutePhase::Done,
{
}

/// A fallback to Scarb is reported only for an ineligible preflight whose
/// error allows it, or for a failed native build whose error allows it.
pub proof fn lemma_fallback_reports_have_causes(s: BuildRouteState, e: BuildRouteEvent)
    requires
        route_inv(s),
        build_route_next(s, e).1 is ReportFallback,
    ensures
        (s.phase == RoutePhase::AwaitPreflight && preflight_ineligible(e, true)) || (s.phase
            == RoutePhase::AwaitNativeRun && build_failed(e, true)),
{
}

/// How a build finishes tells what served it: a finish through the daemon
/// is under the daemon's answer key, right after the daemon answered; a
/// finish from a cache probe follows a probe that hit; any other finish
/// follows a local build that ran; a finish with no key is a build on the
/// `scarb` engine.
#[verifier::rlimit(50)]
pub proof fn lemma_finish_has_cause(
    s: BuildRouteState,
    e: BuildRouteEvent,
    key: KeyRef,
    daemon_used: bool,
    from_probe: bool,
)
    requires
        route_inv(s),
        s.phase != RoutePhase::Draining,
        emits(build_route_next(s, e), BuildRouteAction::Finish { key, daemon_used, probe_hit: from_probe }),
    ensures
        daemon_used <==> key == KeyRef::Response,
        daemon_used ==> s.phase == RoutePhase::AwaitDaemon && daemon_answered(e) && !from_probe,
        from_probe ==> (s.phase == RoutePhase::AwaitProbeScarbHinted || s.phase == RoutePhase::AwaitProbePrimary
            || s.phase == RoutePhase::AwaitProbeScarb) && probe_hit(e),
        !daemon_used && !from_probe ==> local_build_ran(e),
        key == KeyRef::NoKey ==> s.engine == EngineArg::Scarb && s.phase == RoutePhase::AwaitScarbDirect,
{
}

/// A daemon answer from the Scarb backend under a key other than `key`.
pub open spec fn scarb_answer_not_under(e: BuildRouteEvent, key: Option<String>) -> bool {
    match e {
        BuildRouteEvent::DaemonResponse { response: Some((b, k)) } => b == DaemonBuildBackend::Scarb
            && !same_keys(Some(k), key),
        _ => false,
    }
}

/// A daemon answer under `key`, from either backend.
pub open spec fn answer_under(e: BuildRouteEvent, key: Option<String>) -> bool {
    match e {
        BuildRouteEvent::DaemonResponse { response: Some((_, k)) } => same_keys(Some(k), key),
        _ => false,
    }
}

/// The probe hint and the native-supported hint change only for a reason.
/// The probe hint names the daemon's answer key only when the daemon,
/// asked for native with the Scarb fallback, answered from Scarb under
/// another key; it names the Scarb key only after the Scarb key was
/// resolved against a different hint, or after a Scarb build or Scarb cache
/// hit served the build. The probe hint is cleared only when the primary
/// key served the build (a cache hit, a daemon answer under it, or a native
/// build that succeeded). The native-supported hint is cleared only when
/// Scarb served the build.
#[verifier::rlimit(50)]
pub proof fn lemma_hint_updates_have_causes(s: BuildRouteState, e: BuildRouteEvent)
    requires
        route_inv(s),
        s.phase != RoutePhase::Draining,
    ensures
        emits(build_route_next(s, e), BuildRouteAction::PersistProbeHint { hinted: KeyRef::Response })
            ==> s.phase == RoutePhase::AwaitDaemon && policy(s).1 && scarb_answer_not_under(e, s.primary_key),
        emits(build_route_next(s, e), BuildRouteAction::PersistProbeHint { hinted: KeyRef::Scarb }) ==> (
        s.phase == RoutePhase::AwaitScarbKeyForHint && e is SessionKey) || (s.phase
            == RoutePhase::AwaitProbeScarb && probe_hit(e)) || (s.phase == RoutePhase::AwaitHintedScarbRun
            && local_build_ran(e)) || (s.phase == RoutePhase::AwaitFallbackScarbRun && local_build_ran(e)),
        !emits(build_route_next(s, e), BuildRouteAction::PersistProbeHint { hinted: KeyRef::Primary }),
        !emits(build_route_next(s, e), BuildRouteAction::PersistProbeHint { hinted: KeyRef::NoKey }),
        emits(build_route_next(s, e), BuildRouteAction::ClearProbeHint) ==> (s.phase
            == RoutePhase::AwaitProbePrimary && probe_hit(e)) || (s.phase == RoutePhase::AwaitDaemon
            && answer_under(e, s.primary_key)) || (s.phase == RoutePhase::AwaitNativeRun && build_ok(e)),
        emits(build_route_next(s, e), BuildRouteAction::ClearNativeSupportedHint) ==> (s.phase
            == RoutePhase::AwaitProbeScarb && probe_hit(e)) || (s.phase == RoutePhase::AwaitDaemon
            && policy(s).1 && scarb_answer_not_under(e, s.primary_key)) || (s.phase
            == RoutePhase::AwaitHintedScarbRun && local_build_ran(e)) || (s.phase
            == RoutePhase::AwaitFallbackScarbRun && local_build_ran(e)),
{
}

/// How a build starts: the `scarb` engine builds with Scarb directly;
/// native mode auto runs the preflight first; otherwise daemon mode off
/// resolves the key of the local backend (Scarb when native is off, native
/// otherwise), daemon mode auto checks the daemon socket, and daemon mode
/// require resolves the key of the daemon's backend.
pub proof fn lemma_build_start(engine: EngineArg, daemon_mode: DaemonModeArg, configured: NativeBuildMode)
    ensures
        ({
            let r = build_route_next(route_initial(engine, daemon_mode, configured), BuildRouteEvent::Begin);
            &&& engine == EngineArg::Scarb ==> r.1 == BuildRouteAction::RunScarbDirect
            &&& engine == EngineArg::Uc && configured == NativeBuildMode::Auto ==> r.1 == BuildRouteAction::Preflight
            &&& engine == EngineArg::Uc && configured != NativeBuildMode::Auto && daemon_mode
                == DaemonModeArg::Auto ==> r.1 == BuildRouteAction::CheckDaemonSocket
            &&& engine == EngineArg::Uc && configured == NativeBuildMode::Off && daemon_mode
                != DaemonModeArg::Auto ==> r.1 == (BuildRouteAction::ResolveSessionKey {
                backend: BuildCompileBackend::Scarb,
            })
            &&& engine == EngineArg::Uc && configured == NativeBuildMode::Require && daemon_mode
                != DaemonModeArg::Auto ==> r.1 == (BuildRouteAction::ResolveSessionKey {
                backend: BuildCompileBackend::Native,
            })
        }),
{
}

/// With a daemon socket in daemon mode auto the build goes the daemon's way
/// (the key of the daemon's backend, then a local probe); without one it
/// builds locally: Scarb when native is off or the project is ineligible,
/// native otherwise.
pub proof fn lemma_socket_decides(s: BuildRouteState, available: bool)
    requires
        s.phase == RoutePhase::AwaitSocket,
        s.daemon_mode == DaemonModeArg::Auto,
    ensures
        available ==> build_route_next(s, BuildRouteEvent::DaemonSocket { available }).0.phase
            == RoutePhase::AwaitPrimaryKey,
        available ==> build_route_next(s, BuildRouteEvent::DaemonSocket { available }).1 == (
        BuildRouteAction::ResolveSessionKey { backend: policy(s).0 }),
        !available ==> build_route_next(s, BuildRouteEvent::DaemonSocket { available }).1 == (
        BuildRouteAction::ResolveSessionKey {
            backend: if s.configured_native_mode == NativeBuildMode::Off || (s.configured_native_mode
                == NativeBuildMode::Auto && !s.native_auto_eligible) {
                BuildCompileBackend::Scarb
            } else {
                BuildCompileBackend::Native
            },
        }),
        !available ==> build_route_next(s, BuildRouteEvent::DaemonSocket { available }).0.phase
            != RoutePhase::AwaitPrimaryKey,
{
}

/// A native build, local or through the daemon, is asked for only when the
/// effective native mode is not off; a Scarb fallback is allowed only in
/// an effective auto mode.
pub proof fn lemma_native_only_when_enabled(s: BuildRouteState, e: BuildRouteEvent)
    requires
        route_inv(s),
    ensures
        build_route_next(s, e).1 matches BuildRouteAction::RunLocal { backend, .. } ==> (backend
            == BuildCompileBackend::Native ==> !(s.configured_native_mode == NativeBuildMode::Off || (
        s.configured_native_mode == NativeBuildMode::Auto && !s.native_auto_eligible))),
        build_route_next(s, e).1 matches BuildRouteAction::CallDaemon { backend, native_fallback_to_scarb, .. }
            ==> (backend == BuildCompileBackend::Native <==> !(s.configured_native_mode == NativeBuildMode::Off
            || (s.configured_native_mode == NativeBuildMode::Auto && !s.native_auto_eligible))) && (
        native_fallback_to_scarb <==> (s.configured_native_mode == NativeBuildMode::Auto
            && s.native_auto_eligible)),
{
}

} // verus!
