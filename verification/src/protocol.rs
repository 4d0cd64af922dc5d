use vstd::prelude::*;
use crate::errors::{ErrorKind, UcError};
use crate::health::{
    maybe_auto_recover_daemon_health, rate_limit_message, record_daemon_rate_limit, recovers, sat_inc,
    DaemonHealth,
};
use crate::modes::{daemon_backend_of, BuildCompileBackend, DaemonBuildBackend, DaemonModeArg};
use crate::rate_limit::{expired_prefix, DaemonRateLimiter, DAEMON_MAX_REQUESTS_PER_WINDOW};
use crate::telemetry::NativeCacheTelemetrySnapshot;
use crate::text::{chars_of, string_from_chars};
use crate::versions::{validate_daemon_protocol_version, DAEMON_PROTOCOL_VERSION};

verus! {

/// The build options shared by the build commands.
#[derive(Debug, Clone)]
pub struct BuildCommonArgs {
    pub manifest_path: Option<String>,
    pub package: Option<String>,
    pub workspace: bool,
    pub features: Vec<String>,
    pub offline: bool,
    pub release: bool,
    pub profile: Option<String>,
}

/// The options of `uc metadata`.
#[derive(Debug, Clone)]
pub struct MetadataArgs {
    pub manifest_path: Option<String>,
    pub format_version: u32,
    pub daemon_mode: DaemonModeArg,
    pub offline: bool,
    pub global_cache_dir: Option<String>,
    pub report_path: Option<String>,
}

/// A build request to the daemon.
#[derive(Debug, Clone)]
pub struct DaemonBuildRequest {
    pub protocol_version: String,
    pub manifest_path: String,
    pub package: Option<String>,
    pub workspace: bool,
    pub features: Vec<String>,
    pub offline: bool,
    pub release: bool,
    pub profile: Option<String>,
    pub async_cache_persist: bool,
    pub capture_output: bool,
    pub compile_backend: DaemonBuildBackend,
    pub native_fallback_to_scarb: bool,
}

/// A metadata request to the daemon.
#[derive(Debug, Clone)]
pub struct DaemonMetadataRequest {
    pub protocol_version: String,
    pub manifest_path: String,
    pub format_version: u32,
    pub offline: bool,
    pub global_cache_dir: Option<String>,
    pub capture_output: bool,
}

/// A request to the daemon.
#[derive(Debug, Clone)]
pub enum DaemonRequest {
    Ping,
    Shutdown,
    Build { payload: DaemonBuildRequest },
    Metadata { payload: DaemonMetadataRequest },
}

/// What the daemon reports about itself.
#[derive(Debug, Clone)]
pub struct DaemonStatusPayload {
    pub pid: u32,
    pub started_at_epoch_ms: u64,
    pub socket_path: String,
    pub protocol_version: String,
    pub healthy: bool,
    pub total_requests: u64,
    pub failed_requests: u64,
    pub rate_limited_requests: u64,
    pub last_error: Option<String>,
    pub native_compile_session_cache_entries: u64,
    pub native_compile_session_cache_estimated_bytes: u64,
    pub native_compile_context_cache_entries: u64,
    pub native_compile_context_cache_estimated_bytes: u64,
    pub native_compile_session_build_locks: u64,
    pub metadata_result_cache_entries: u64,
    pub metadata_result_cache_estimated_bytes: u64,
    pub native_refresh_none_count: u64,
    pub native_refresh_incremental_count: u64,
    pub native_refresh_full_rebuild_count: u64,
    pub native_refresh_changed_files_total: u64,
    pub native_refresh_removed_files_total: u64,
    pub native_fallback_preflight_ineligible_count: u64,
    pub native_fallback_local_native_error_count: u64,
    pub native_fallback_daemon_native_error_count: u64,
    pub native_fallback_daemon_backend_downgrade_count: u64,
}

fn copy_string(s: &String) -> (c: String)
    ensures
        c@ == s@,
{
    let v = chars_of(s.as_str());
    string_from_chars(&v)
}

fn copy_opt(s: &Option<String>) -> (c: Option<String>)
    ensures
        match s {
            Some(x) => c is Some && c->0@ == x@,
            None => c is None,
        },
{
    match s {
        Some(x) => Some(copy_string(x)),
        None => None,
    }
}

fn copy_strings(v: &Vec<String>) -> (c: Vec<String>)
    ensures
        c@.len() == v@.len(),
        forall|i: int| 0 <= i < v@.len() ==> (#[trigger] c@[i])@ == v@[i]@,
{
    let mut c: Vec<String> = Vec::new();
    let mut i: usize = 0;
    while i < v.len()
        invariant
            i <= v@.len(),
            c@.len() == i,
            forall|j: int| 0 <= j < i ==> (#[trigger] c@[j])@ == v@[j]@,
        decreases v@.len() - i,
    {
        c.push(copy_string(&v[i]));
        i = i + 1;
    }
    c
}

pub open spec fn same_opt(a: Option<String>, b: Option<String>) -> bool {
    match (a, b) {
        (Some(x), Some(y)) => x@ == y@,
        (None, None) => true,
        _ => false,
    }
}

pub open spec fn same_strings(a: Seq<String>, b: Seq<String>) -> bool {
    a.len() == b.len() && forall|i: int| 0 <= i < a.len() ==> (#[trigger] a[i])@ == b[i]@
}

/// The daemon build request for a build with these options.
pub fn daemon_build_request_from_common(
    common: &BuildCommonArgs,
    manifest_path: &str,
    async_cache_persist: bool,
    capture_output: bool,
    compile_backend: BuildCompileBackend,
    native_fallback_to_scarb: bool,
) -> (r: DaemonBuildRequest)
    ensures
        r.protocol_version@ == DAEMON_PROTOCOL_VERSION@,
        r.manifest_path@ == manifest_path@,
        same_opt(r.package, common.package),
        r.workspace == common.workspace,
        same_strings(r.features@, common.features@),
        r.offline == common.offline,
        r.release == common.release,
        same_opt(r.profile, common.profile),
        r.async_cache_persist == async_cache_persist,
        r.capture_output == capture_output,
        r.compile_backend == daemon_backend_of(compile_backend),
        r.native_fallback_to_scarb == native_fallback_to_scarb,
{
    let mp = chars_of(manifest_path);
    DaemonBuildRequest {
        protocol_version: String::from_str(DAEMON_PROTOCOL_VERSION),
        manifest_path: string_from_chars(&mp),
        package: copy_opt(&common.package),
        workspace: common.workspace,
        features: copy_strings(&common.features),
        offline: common.offline,
        release: common.release,
        profile: copy_opt(&common.profile),
        async_cache_persist,
        capture_output,
        compile_backend: DaemonBuildBackend::from_compile_backend(compile_backend),
        native_fallback_to_scarb,
    }
}

/// The build options that a daemon build request carries.
pub fn common_args_from_daemon_request(request: &DaemonBuildRequest) -> (c: BuildCommonArgs)
    ensures
        c.manifest_path is Some && c.manifest_path->0@ == request.manifest_path@,
        same_opt(c.package, request.package),
        c.workspace == request.workspace,
        same_strings(c.features@, request.features@),
        c.offline == request.offline,
        c.release == request.release,
        same_opt(c.profile, request.profile),
{
    BuildCommonArgs {
        manifest_path: Some(copy_string(&request.manifest_path)),
        package: copy_opt(&request.package),
        workspace: request.workspace,
        features: copy_strings(&request.features),
        offline: request.offline,
        release: request.release,
        profile: copy_opt(&request.profile),
    }
}

/// The daemon metadata request for `uc metadata` with these options.
pub fn daemon_metadata_request_from_args(
    args: &MetadataArgs,
    manifest_path: &str,
    capture_output: bool,
) -> (r: DaemonMetadataRequest)
    ensures
        r.protocol_version@ == DAEMON_PROTOCOL_VERSION@,
        r.manifest_path@ == manifest_path@,
        r.format_version == args.format_version,
        r.offline == args.offline,
        same_opt(r.global_cache_dir, args.global_cache_dir),
        r.capture_output == capture_output,
{
    let mp = chars_of(manifest_path);
    DaemonMetadataRequest {
        protocol_version: String::from_str(DAEMON_PROTOCOL_VERSION),
        manifest_path: string_from_chars(&mp),
        format_version: args.format_version,
        offline: args.offline,
        global_cache_dir: copy_opt(&args.global_cache_dir),
        capture_output,
    }
}

/// The `uc metadata` options that a daemon metadata request carries; the
/// daemon runs them locally and writes no report.
pub fn metadata_args_from_daemon_request(request: &DaemonMetadataRequest) -> (a: MetadataArgs)
    ensures
        a.manifest_path is Some && a.manifest_path->0@ == request.manifest_path@,
        a.format_version == request.format_version,
        a.daemon_mode == DaemonModeArg::Off,
        a.offline == request.offline,
        same_opt(a.global_cache_dir, request.global_cache_dir),
        a.report_path is None,
{
    MetadataArgs {
        manifest_path: Some(copy_string(&request.manifest_path)),
        format_version: request.format_version,
        daemon_mode: DaemonModeArg::Off,
        offline: request.offline,
        global_cache_dir: copy_opt(&request.global_cache_dir),
        report_path: None,
    }
}

/// Whether a local `uc metadata` run buffers its output: only when a report
/// is written.
pub fn should_capture_metadata_output_for_local_run(args: &MetadataArgs) -> (b: bool)
    ensures
        b == args.report_path is Some,
{
    args.report_path.is_some()
}

/// The build profile: `release` for release builds, else the named
/// profile, else `dev`.
pub fn effective_profile(common: &BuildCommonArgs) -> (p: String)
    ensures
        common.release ==> p@ == "release"@,
        !common.release ==> match common.profile {
            Some(q) => p@ == q@,
            None => p@ == "dev"@,
        },
{
    if common.release {
        return String::from_str("release");
    }
    match &common.profile {
        Some(q) => copy_string(q),
        None => String::from_str("dev"),
    }
}

/// The protocol version that a request states, if it states one.
pub open spec fn stated_protocol_version(request: DaemonRequest) -> Option<Seq<char>> {
    match request {
        DaemonRequest::Build { payload } => Some(payload.protocol_version@),
        DaemonRequest::Metadata { payload } => Some(payload.protocol_version@),
        _ => None,
    }
}

/// The protocol version of a build or metadata request.
pub fn daemon_request_protocol_version(request: &DaemonRequest) -> (v: Option<&str>)
    ensures
        match stated_protocol_version(*request) {
            Some(s) => v is Some && v->0@ == s,
            None => v is None,
        },
{
    match request {
        DaemonRequest::Build { payload } => Some(payload.protocol_version.as_str()),
        DaemonRequest::Metadata { payload } => Some(payload.protocol_version.as_str()),
        DaemonRequest::Ping => None,
        DaemonRequest::Shutdown => None,
    }
}

/// Accepts requests that state no protocol version or this one.
pub fn validate_daemon_request_protocol_version(request: &DaemonRequest) -> (r: Result<(), UcError>)
    ensures
        match stated_protocol_version(*request) {
            None => r is Ok,
            Some(v) => if v == DAEMON_PROTOCOL_VERSION@ {
                r is Ok
            } else {
                r is Err && (r->Err_0.kind matches ErrorKind::DaemonProtocolMismatch {
                    daemon_version: d,
                } && d@ == v)
            },
        },
{
    match daemon_request_protocol_version(request) {
        None => Ok(()),
        Some(v) => validate_daemon_protocol_version(v),
    }
}

/// The daemon's status report: its fixed facts from `base`, health from
/// `health` (healthy below three failures in a row), and the native cache
/// report.
pub fn daemon_status_snapshot(
    base: &DaemonStatusPayload,
    health: &DaemonHealth,
    native_cache: &NativeCacheTelemetrySnapshot,
) -> (s: DaemonStatusPayload)
    ensures
        s.pid == base.pid,
        s.started_at_epoch_ms == base.started_at_epoch_ms,
        s.socket_path@ == base.socket_path@,
        s.protocol_version@ == base.protocol_version@,
        s.healthy == health.is_healthy(),
        s.total_requests == health.total_requests,
        s.failed_requests == health.failed_requests,
        s.rate_limited_requests == health.rate_limited_requests,
        same_opt(s.last_error, health.last_error),
        s.native_compile_session_cache_entries == native_cache.session_entries,
        s.native_compile_session_cache_estimated_bytes == native_cache.session_estimated_bytes,
        s.native_compile_context_cache_entries == native_cache.context_entries,
        s.native_compile_context_cache_estimated_bytes == native_cache.context_estimated_bytes,
        s.native_compile_session_build_locks == native_cache.build_locks,
        s.metadata_result_cache_entries == native_cache.metadata_entries,
        s.metadata_result_cache_estimated_bytes == native_cache.metadata_estimated_bytes,
        s.native_refresh_none_count == native_cache.refresh_none_count,
        s.native_refresh_incremental_count == native_cache.refresh_incremental_count,
        s.native_refresh_full_rebuild_count == native_cache.refresh_full_rebuild_count,
        s.native_refresh_changed_files_total == native_cache.refresh_changed_files_total,
        s.native_refresh_removed_files_total == native_cache.refresh_removed_files_total,
        s.native_fallback_preflight_ineligible_count
            == native_cache.fallback_preflight_ineligible_count,
        s.native_fallback_local_native_error_count
            == native_cache.fallback_local_native_error_count,
        s.native_fallback_daemon_native_error_count
            == native_cache.fallback_daemon_native_error_count,
        s.native_fallback_daemon_backend_downgrade_count
            == native_cache.fallback_daemon_backend_downgrade_count,
{
    DaemonStatusPayload {
        pid: base.pid,
        started_at_epoch_ms: base.started_at_epoch_ms,
        socket_path: copy_string(&base.socket_path),
        protocol_version: copy_string(&base.protocol_version),
        healthy: health.consecutive_failures < 3,
        total_requests: health.total_requests,
        failed_requests: health.failed_requests,
        rate_limited_requests: health.rate_limited_requests,
        last_error: copy_opt(&health.last_error),
        native_compile_session_cache_entries: native_cache.session_entries,
        native_compile_session_cache_estimated_bytes: native_cache.session_estimated_bytes,
        native_compile_context_cache_entries: native_cache.context_entries,
        native_compile_context_cache_estimated_bytes: native_cache.context_estimated_bytes,
        native_compile_session_build_locks: native_cache.build_locks,
        metadata_result_cache_entries: native_cache.metadata_entries,
        metadata_result_cache_estimated_bytes: native_cache.metadata_estimated_bytes,
        native_refresh_none_count: native_cache.refresh_none_count,
        native_refresh_incremental_count: native_cache.refresh_incremental_count,
        native_refresh_full_rebuild_count: native_cache.refresh_full_rebuild_count,
        native_refresh_changed_files_total: native_cache.refresh_changed_files_total,
        native_refresh_removed_files_total: native_cache.refresh_removed_files_total,
        native_fallback_preflight_ineligible_count: native_cache.fallback_preflight_ineligible_count,
        native_fallback_local_native_error_count: native_cache.fallback_local_native_error_count,
        native_fallback_daemon_native_error_count: native_cache.fallback_daemon_native_error_count,
        native_fallback_daemon_backend_downgrade_count: native_cache.fallback_daemon_backend_downgrade_count,
    }
}

/// What the daemon does with a request line before decoding it.
#[derive(Clone, Copy, Debug, PartialEq, Eq, Structural)]
pub enum Admission {
    /// A blank line: the connection is closed without an answer.
    Skip,
    /// Refused by the rate limiter; answered with the rate limit error.
    RateLimited,
    /// Decoded and served.
    Proceed,
}

/// The health of a daemon after a request arriving at `now_ms` gave it its
/// chance to recover.
pub open spec fn health_after_recovery(h: DaemonHealth, now_ms: u64) -> DaemonHealth {
    if recovers(h, now_ms) {
        DaemonHealth { consecutive_failures: 0, last_error: None, last_failure_at_ms: None, ..h }
    } else {
        h
    }
}

/// The requests that the limiter still counts at `now_ms`: those allowed
/// less than a window before it.
pub open spec fn limiter_window_at(limiter: DaemonRateLimiter, now_ms: u64) -> Seq<u64> {
    limiter.events().skip(expired_prefix(limiter.events(), now_ms) as int)
}

/// Admits a request line arriving at `now_ms`: a blank line is skipped
/// without touching any state; otherwise an unhealthy daemon first gets its
/// chance to recover, then the rate limiter decides, and a refusal is
/// counted as a rate-limited failure.
pub fn screen_daemon_request(
    health: &mut DaemonHealth,
    limiter: &mut DaemonRateLimiter,
    line_is_blank: bool,
    now_ms: u64,
) -> (a: Admission)
    requires
        old(health).wf(),
        old(limiter).wf(),
    ensures
        final(health).wf(),
        final(limiter).wf(),
        line_is_blank ==> a == Admission::Skip && *final(health) == *old(health) && *final(limiter)
            == *old(limiter),
        !line_is_blank ==> a != Admission::Skip,
        !line_is_blank ==> (a == Admission::Proceed <==> limiter_window_at(*old(limiter), now_ms).len()
            < DAEMON_MAX_REQUESTS_PER_WINDOW),
        !line_is_blank ==> final(limiter).events() == (if a == Admission::Proceed {
            limiter_window_at(*old(limiter), now_ms).push(now_ms)
        } else {
            limiter_window_at(*old(limiter), now_ms)
        }),
        a == Admission::Proceed ==> *final(health) == health_after_recovery(*old(health), now_ms),
        a == Admission::RateLimited ==> ({
            let h1 = health_after_recovery(*old(health), now_ms);
            &&& final(health).total_requests == sat_inc(h1.total_requests)
            &&& final(health).failed_requests == sat_inc(h1.failed_requests)
            &&& final(health).rate_limited_requests == sat_inc(h1.rate_limited_requests)
            &&& final(health).consecutive_failures == sat_inc(h1.consecutive_failures)
            &&& final(health).last_error is Some
            &&& final(health).last_error->0@ == rate_limit_message()
            &&& final(health).last_failure_at_ms == Some(now_ms)
        }),
        !line_is_blank ==> final(limiter).allowed_history() == (if a == Admission::Proceed {
            old(limiter).allowed_history().push(now_ms)
        } else {
            old(limiter).allowed_history()
        }),
{
    if line_is_blank {
        return Admission::Skip;
    }
    maybe_auto_recover_daemon_health(health, now_ms);
    if !limiter.allow(now_ms) {
        record_daemon_rate_limit(health, now_ms);
        return Admission::RateLimited;
    }
    Admission::Proceed
}

} // verus!
