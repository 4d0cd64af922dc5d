use vstd::prelude::*;
use crate::access_cache::{is_fresh, AccessCache};
use crate::modes::NativeSessionRefreshAction;

verus! {

/// Why a native build fell back to Scarb.
#[derive(Clone, Copy, Debug, PartialEq, Eq, Structural)]
pub enum NativeFallbackReason {
    PreflightIneligible,
    LocalNativeError,
    DaemonNativeError,
    DaemonBackendDowngrade,
}

/// The process-wide native build counters. Like the atomic counters they
/// stand for, they wrap around on overflow.
#[derive(Clone, Copy, Debug)]
pub struct NativeTelemetry {
    pub refresh_none: u64,
    pub refresh_incremental: u64,
    pub refresh_full_rebuild: u64,
    pub refresh_changed_files: u64,
    pub refresh_removed_files: u64,
    pub fallback_preflight: u64,
    pub fallback_local_error: u64,
    pub fallback_daemon_error: u64,
    pub fallback_daemon_backend_downgrade: u64,
}

/// What the daemon reports about its native caches and counters.
#[derive(Clone, Copy, Debug)]
pub struct NativeCacheTelemetrySnapshot {
    pub session_entries: u64,
    pub session_estimated_bytes: u64,
    pub context_entries: u64,
    pub context_estimated_bytes: u64,
    pub build_locks: u64,
    pub metadata_entries: u64,
    pub metadata_estimated_bytes: u64,
    pub refresh_none_count: u64,
    pub refresh_incremental_count: u64,
    pub refresh_full_rebuild_count: u64,
    pub refresh_changed_files_total: u64,
    pub refresh_removed_files_total: u64,
    pub fallback_preflight_ineligible_count: u64,
    pub fallback_local_native_error_count: u64,
    pub fallback_daemon_native_error_count: u64,
    pub fallback_daemon_backend_downgrade_count: u64,
}

/// `x + y` modulo 2^64.
pub open spec fn wrap_add(x: u64, y: u64) -> u64 {
    ((x as int + y as int) % 0x1_0000_0000_0000_0000) as u64
}

impl NativeTelemetry {
    /// Counters that have counted nothing.
    pub fn new() -> (t: Self)
        ensures
            t.refresh_none == 0 && t.refresh_incremental == 0 && t.refresh_full_rebuild == 0,
            t.refresh_changed_files == 0 && t.refresh_removed_files == 0,
            t.fallback_preflight == 0 && t.fallback_local_error == 0,
            t.fallback_daemon_error == 0 && t.fallback_daemon_backend_downgrade == 0,
    {
        NativeTelemetry {
            refresh_none: 0,
            refresh_incremental: 0,
            refresh_full_rebuild: 0,
            refresh_changed_files: 0,
            refresh_removed_files: 0,
            fallback_preflight: 0,
            fallback_local_error: 0,
            fallback_daemon_error: 0,
            fallback_daemon_backend_downgrade: 0,
        }
    }
}

/// Sessions that needed no refresh.
pub fn native_refresh_none_counter(t: &NativeTelemetry) -> (c: u64)
    ensures
        c == t.refresh_none,
{
    t.refresh_none
}

/// Sessions refreshed by their changed set.
pub fn native_refresh_incremental_counter(t: &NativeTelemetry) -> (c: u64)
    ensures
        c == t.refresh_incremental,
{
    t.refresh_incremental
}

/// Sessions rebuilt in full.
pub fn native_refresh_full_rebuild_counter(t: &NativeTelemetry) -> (c: u64)
    ensures
        c == t.refresh_full_rebuild,
{
    t.refresh_full_rebuild
}

/// Changed files seen by session refreshes.
pub fn native_refresh_changed_files_counter(t: &NativeTelemetry) -> (c: u64)
    ensures
        c == t.refresh_changed_files,
{
    t.refresh_changed_files
}

/// Removed files seen by session refreshes.
pub fn native_refresh_removed_files_counter(t: &NativeTelemetry) -> (c: u64)
    ensures
        c == t.refresh_removed_files,
{
    t.refresh_removed_files
}

/// Fallbacks because the preflight found the project ineligible.
pub fn native_fallback_preflight_counter(t: &NativeTelemetry) -> (c: u64)
    ensures
        c == t.fallback_preflight,
{
    t.fallback_preflight
}

/// Fallbacks after a local native build error.
pub fn native_fallback_local_error_counter(t: &NativeTelemetry) -> (c: u64)
    ensures
        c == t.fallback_local_error,
{
    t.fallback_local_error
}

/// Fallbacks after a daemon native build error.
pub fn native_fallback_daemon_error_counter(t: &NativeTelemetry) -> (c: u64)
    ensures
        c == t.fallback_daemon_error,
{
    t.fallback_daemon_error
}

/// Fallbacks because the daemon downgraded the backend.
pub fn native_fallback_daemon_backend_downgrade_counter(t: &NativeTelemetry) -> (c: u64)
    ensures
        c == t.fallback_daemon_backend_downgrade,
{
    t.fallback_daemon_backend_downgrade
}

/// Counts one fallback under its reason.
pub fn record_native_fallback(t: &mut NativeTelemetry, reason: NativeFallbackReason)
    ensures
        *final(t) == (match reason {
            NativeFallbackReason::PreflightIneligible => NativeTelemetry {
                fallback_preflight: wrap_add(old(t).fallback_preflight, 1),
                ..*old(t)
            },
            NativeFallbackReason::LocalNativeError => NativeTelemetry {
                fallback_local_error: wrap_add(old(t).fallback_local_error, 1),
                ..*old(t)
            },
            NativeFallbackReason::DaemonNativeError => NativeTelemetry {
                fallback_daemon_error: wrap_add(old(t).fallback_daemon_error, 1),
                ..*old(t)
            },
            NativeFallbackReason::DaemonBackendDowngrade => NativeTelemetry {
                fallback_daemon_backend_downgrade: wrap_add(
                    old(t).fallback_daemon_backend_downgrade,
                    1,
                ),
                ..*old(t)
            },
        }),
{
    match reason {
        NativeFallbackReason::PreflightIneligible => {
            t.fallback_preflight = t.fallback_preflight.wrapping_add(1);
        },
        NativeFallbackReason::LocalNativeError => {
            t.fallback_local_error = t.fallback_local_error.wrapping_add(1);
        },
        NativeFallbackReason::DaemonNativeError => {
            t.fallback_daemon_error = t.fallback_daemon_error.wrapping_add(1);
        },
        NativeFallbackReason::DaemonBackendDowngrade => {
            t.fallback_daemon_backend_downgrade = t.fallback_daemon_backend_downgrade.wrapping_add(
                1,
            );
        },
    }
}

/// The fallback counters: preflight, local error, daemon error, downgrade.
pub fn native_fallback_telemetry_snapshot(t: &NativeTelemetry) -> (r: (u64, u64, u64, u64))
    ensures
        r == (
            t.fallback_preflight,
            t.fallback_local_error,
            t.fallback_daemon_error,
            t.fallback_daemon_backend_downgrade,
        ),
{
    (
        t.fallback_preflight,
        t.fallback_local_error,
        t.fallback_daemon_error,
        t.fallback_daemon_backend_downgrade,
    )
}

/// Counts one session refresh under its action, with its changed and
/// removed files.
pub fn record_native_refresh_telemetry(
    t: &mut NativeTelemetry,
    action: NativeSessionRefreshAction,
    changed_files: usize,
    removed_files: usize,
)
    ensures
        final(t).refresh_none == (if action == NativeSessionRefreshAction::Unchanged {
            wrap_add(old(t).refresh_none, 1)
        } else {
            old(t).refresh_none
        }),
        final(t).refresh_incremental == (if action
            == NativeSessionRefreshAction::IncrementalChangedSet {
            wrap_add(old(t).refresh_incremental, 1)
        } else {
            old(t).refresh_incremental
        }),
        final(t).refresh_full_rebuild == (if action == NativeSessionRefreshAction::FullRebuild {
            wrap_add(old(t).refresh_full_rebuild, 1)
        } else {
            old(t).refresh_full_rebuild
        }),
        final(t).refresh_changed_files == wrap_add(
            old(t).refresh_changed_files,
            changed_files as u64,
        ),
        final(t).refresh_removed_files == wrap_add(
            old(t).refresh_removed_files,
            removed_files as u64,
        ),
        final(t).fallback_preflight == old(t).fallback_preflight,
        final(t).fallback_local_error == old(t).fallback_local_error,
        final(t).fallback_daemon_error == old(t).fallback_daemon_error,
        final(t).fallback_daemon_backend_downgrade == old(t).fallback_daemon_backend_downgrade,
{
    match action {
        NativeSessionRefreshAction::Unchanged => {
            t.refresh_none = t.refresh_none.wrapping_add(1);
        },
        NativeSessionRefreshAction::IncrementalChangedSet => {
            t.refresh_incremental = t.refresh_incremental.wrapping_add(1);
        },
        NativeSessionRefreshAction::FullRebuild => {
            t.refresh_full_rebuild = t.refresh_full_rebuild.wrapping_add(1);
        },
    }
    t.refresh_changed_files = t.refresh_changed_files.wrapping_add(changed_files as u64);
    t.refresh_removed_files = t.refresh_removed_files.wrapping_add(removed_files as u64);
}

/// The refresh counters: unchanged, incremental, full rebuild, changed
/// files, removed files.
pub fn native_refresh_telemetry_snapshot(t: &NativeTelemetry) -> (r: (u64, u64, u64, u64, u64))
    ensures
        r == (
            t.refresh_none,
            t.refresh_incremental,
            t.refresh_full_rebuild,
            t.refresh_changed_files,
            t.refresh_removed_files,
        ),
{
    (
        t.refresh_none,
        t.refresh_incremental,
        t.refresh_full_rebuild,
        t.refresh_changed_files,
        t.refresh_removed_files,
    )
}

/// The sum of `s`.
pub open spec fn seq_sum(s: Seq<u64>) -> nat
    decreases s.len(),
{
    if s.len() == 0 {
        0
    } else {
        seq_sum(s.drop_last()) + (s.last() as nat)
    }
}

/// The number of entries of a cache and their estimated bytes summed, the
/// sum saturating at `u64::MAX`.
pub fn metadata_result_cache_stats(estimated_bytes: &Vec<u64>) -> (r: (u64, u64))
    ensures
        r.0 == estimated_bytes@.len(),
        r.1 == (if seq_sum(estimated_bytes@) > u64::MAX {
            u64::MAX as nat
        } else {
            seq_sum(estimated_bytes@)
        }),
{
    let mut total: u64 = 0;
    let mut i: usize = 0;
    while i < estimated_bytes.len()
        invariant
            i <= estimated_bytes@.len(),
            total == (if seq_sum(estimated_bytes@.take(i as int)) > u64::MAX {
                u64::MAX as nat
            } else {
                seq_sum(estimated_bytes@.take(i as int))
            }),
        decreases estimated_bytes@.len() - i,
    {
        assert(estimated_bytes@.take(i + 1).drop_last() =~= estimated_bytes@.take(i as int));
        total = total.saturating_add(estimated_bytes[i]);
        i = i + 1;
    }
    assert(estimated_bytes@.take(i as int) =~= estimated_bytes@);
    (estimated_bytes.len() as u64, total)
}

/// Drops the compile contexts idle for longer than `ttl_ms` (none when it
/// is zero).
pub fn evict_expired_native_compile_context_cache_entries<V>(
    cache: &mut AccessCache<V>,
    now_ms: u64,
    ttl_ms: u64,
)
    requires
        old(cache).wf(),
    ensures
        final(cache).wf(),
        ttl_ms == 0 ==> final(cache)@ == old(cache)@,
        ttl_ms != 0 ==> final(cache)@ == old(cache)@.restrict(
            old(cache)@.dom().filter(|k: Seq<char>| is_fresh(now_ms, old(cache)@[k].1, ttl_ms)),
        ),
{
    cache.retain_fresh(now_ms, ttl_ms);
}

/// Assembles the daemon's native cache report from the cache sizes and the
/// counters.
pub fn native_cache_telemetry_snapshot(
    session: (u64, u64),
    context: (u64, u64),
    build_locks: u64,
    metadata: (u64, u64),
    t: &NativeTelemetry,
) -> (s: NativeCacheTelemetrySnapshot)
    ensures
        s == (NativeCacheTelemetrySnapshot {
            session_entries: session.0,
            session_estimated_bytes: session.1,
            context_entries: context.0,
            context_estimated_bytes: context.1,
            build_locks,
            metadata_entries: metadata.0,
            metadata_estimated_bytes: metadata.1,
            refresh_none_count: t.refresh_none,
            refresh_incremental_count: t.refresh_incremental,
            refresh_full_rebuild_count: t.refresh_full_rebuild,
            refresh_changed_files_total: t.refresh_changed_files,
            refresh_removed_files_total: t.refresh_removed_files,
            fallback_preflight_ineligible_count: t.fallback_preflight,
            fallback_local_native_error_count: t.fallback_local_error,
            fallback_daemon_native_error_count: t.fallback_daemon_error,
            fallback_daemon_backend_downgrade_count: t.fallback_daemon_backend_downgrade,
        }),
{
    let (refresh_none_count, refresh_incremental_count, refresh_full_rebuild_count, refresh_changed_files_total, refresh_removed_files_total) =
        native_refresh_telemetry_snapshot(t);
    let (fallback_preflight_ineligible_count, fallback_local_native_error_count, fallback_daemon_native_error_count, fallback_daemon_backend_downgrade_count) =
        native_fallback_telemetry_snapshot(t);
    NativeCacheTelemetrySnapshot {
        session_entries: session.0,
        session_estimated_bytes: session.1,
        context_entries: context.0,
        context_estimated_bytes: context.1,
        build_locks,
        metadata_entries: metadata.0,
        metadata_estimated_bytes: metadata.1,
        refresh_none_count,
        refresh_incremental_count,
        refresh_full_rebuild_count,
        refresh_changed_files_total,
        refresh_removed_files_total,
        fallback_preflight_ineligible_count,
        fallback_local_native_error_count,
        fallback_daemon_native_error_count,
        fallback_daemon_backend_downgrade_count,
    }
}

} // verus!
