use vstd::prelude::*;
use crate::text::{ascii_lowercase, chars_of, lowercase_range, range_eq, trim, trim_bounds};

verus! {

/// Whether a build goes through the daemon.
#[derive(Clone, Copy, Debug, PartialEq, Eq, Structural)]
pub enum DaemonModeArg {
    Off,
    Auto,
    Require,
}

/// The configured native build mode.
#[derive(Clone, Copy, Debug, PartialEq, Eq, Structural)]
pub enum NativeBuildMode {
    Off,
    Auto,
    Require,
}

/// The backend that compiles a build.
#[derive(Clone, Copy, Debug, PartialEq, Eq, Structural)]
pub enum BuildCompileBackend {
    Scarb,
    Native,
}

/// The compile backend as the daemon protocol names it.
#[derive(Clone, Copy, Debug, PartialEq, Eq, Structural)]
pub enum DaemonBuildBackend {
    Scarb,
    Native,
}

/// Which build engine a build uses.
#[derive(Clone, Copy, Debug, PartialEq, Eq, Structural)]
pub enum EngineArg {
    Scarb,
    Uc,
}

/// The benchmark matrix that a benchmark run covers.
#[derive(Clone, Copy, Debug, PartialEq, Eq, Structural)]
pub enum MatrixArg {
    Research,
    Smoke,
}

/// The tool that a benchmark run measures.
#[derive(Clone, Copy, Debug, PartialEq, Eq, Structural)]
pub enum BenchmarkToolArg {
    Scarb,
    Uc,
}

/// How a cached native compile session is brought up to date.
#[derive(Clone, Copy, Debug, PartialEq, Eq, Structural)]
pub enum NativeSessionRefreshAction {
    Unchanged,
    IncrementalChangedSet,
    FullRebuild,
}

impl EngineArg {
    /// The engine's name on the command line.
    pub fn as_str(self) -> (s: &'static str)
        ensures
            s@ == (match self {
                EngineArg::Scarb => "scarb"@,
                EngineArg::Uc => "uc"@,
            }),
    {
        match self {
            EngineArg::Scarb => "scarb",
            EngineArg::Uc => "uc",
        }
    }
}

impl MatrixArg {
    /// The matrix's name on the command line.
    pub fn as_str(self) -> (s: &'static str)
        ensures
            s@ == (match self {
                MatrixArg::Research => "research"@,
                MatrixArg::Smoke => "smoke"@,
            }),
    {
        match self {
            MatrixArg::Research => "research",
            MatrixArg::Smoke => "smoke",
        }
    }
}

impl BenchmarkToolArg {
    /// The tool's name on the command line.
    pub fn as_str(self) -> (s: &'static str)
        ensures
            s@ == (match self {
                BenchmarkToolArg::Scarb => "scarb"@,
                BenchmarkToolArg::Uc => "uc"@,
            }),
    {
        match self {
            BenchmarkToolArg::Scarb => "scarb",
            BenchmarkToolArg::Uc => "uc",
        }
    }
}

pub open spec fn daemon_backend_of(backend: BuildCompileBackend) -> DaemonBuildBackend {
    match backend {
        BuildCompileBackend::Scarb => DaemonBuildBackend::Scarb,
        BuildCompileBackend::Native => DaemonBuildBackend::Native,
    }
}

pub open spec fn compile_backend_of(backend: DaemonBuildBackend) -> BuildCompileBackend {
    match backend {
        DaemonBuildBackend::Scarb => BuildCompileBackend::Scarb,
        DaemonBuildBackend::Native => BuildCompileBackend::Native,
    }
}

impl DaemonBuildBackend {
    /// The protocol name of a compile backend.
    pub fn from_compile_backend(backend: BuildCompileBackend) -> (d: Self)
        ensures
            d == daemon_backend_of(backend),
    {
        match backend {
            BuildCompileBackend::Scarb => DaemonBuildBackend::Scarb,
            BuildCompileBackend::Native => DaemonBuildBackend::Native,
        }
    }

    /// The compile backend that a protocol name stands for.
    pub fn into_compile_backend(self) -> (b: BuildCompileBackend)
        ensures
            b == compile_backend_of(self),
    {
        match self {
            DaemonBuildBackend::Scarb => BuildCompileBackend::Scarb,
            DaemonBuildBackend::Native => BuildCompileBackend::Native,
        }
    }
}

/// Whether a daemon build answer may stand for the backend that was asked
/// for: the same backend, or Scarb when native was asked for with the Scarb
/// fallback allowed.
pub open spec fn backend_accepted(
    requested: BuildCompileBackend,
    native_fallback_to_scarb: bool,
    actual: DaemonBuildBackend,
) -> bool {
    compile_backend_of(actual) == requested || (requested == BuildCompileBackend::Native
        && native_fallback_to_scarb && actual == DaemonBuildBackend::Scarb)
}

/// Checks the backend of a daemon build answer against the request; a
/// mismatch is a failed daemon request.
pub fn daemon_response_backend_accepted(
    requested: BuildCompileBackend,
    native_fallback_to_scarb: bool,
    actual: DaemonBuildBackend,
) -> (b: bool)
    ensures
        b == backend_accepted(requested, native_fallback_to_scarb, actual),
{
    let a = actual.into_compile_backend();
    a == requested || (requested == BuildCompileBackend::Native && native_fallback_to_scarb
        && actual == DaemonBuildBackend::Scarb)
}

/// The protocol name of a backend and the backend of a protocol name are
/// inverse: a backend survives the trip through the daemon protocol.
pub proof fn lemma_daemon_backend_roundtrip(b: BuildCompileBackend, d: DaemonBuildBackend)
    ensures
        compile_backend_of(daemon_backend_of(b)) == b,
        daemon_backend_of(compile_backend_of(d)) == d,
{
}

pub open spec fn probe_local_first(daemon_mode: DaemonModeArg, socket_available: bool) -> bool {
    match daemon_mode {
        DaemonModeArg::Off => false,
        DaemonModeArg::Auto => socket_available,
        DaemonModeArg::Require => true,
    }
}

/// A local cache probe precedes the daemon round trip unless the daemon is
/// off, or in auto mode when no daemon socket exists.
pub fn should_probe_local_before_daemon(
    daemon_mode: DaemonModeArg,
    daemon_socket_available: bool,
) -> (probe: bool)
    ensures
        probe == probe_local_first(daemon_mode, daemon_socket_available),
{
    match daemon_mode {
        DaemonModeArg::Off => false,
        DaemonModeArg::Auto => daemon_socket_available,
        DaemonModeArg::Require => true,
    }
}

pub open spec fn effective_mode(configured: NativeBuildMode, eligible: bool) -> NativeBuildMode {
    if configured == NativeBuildMode::Auto && !eligible {
        NativeBuildMode::Off
    } else {
        configured
    }
}

/// The native mode a build runs in: auto falls back to off when the native
/// preflight found the project ineligible; off and require stay as they are.
pub fn effective_native_mode(configured_mode: NativeBuildMode, native_auto_eligible: bool) -> (m:
    NativeBuildMode)
    ensures
        m == effective_mode(configured_mode, native_auto_eligible),
{
    if configured_mode == NativeBuildMode::Auto && !native_auto_eligible {
        NativeBuildMode::Off
    } else {
        configured_mode
    }
}

pub open spec fn backend_policy(configured: NativeBuildMode, eligible: bool) -> (
    BuildCompileBackend,
    bool,
) {
    match effective_mode(configured, eligible) {
        NativeBuildMode::Off => (BuildCompileBackend::Scarb, false),
        NativeBuildMode::Auto => (BuildCompileBackend::Native, true),
        NativeBuildMode::Require => (BuildCompileBackend::Native, false),
    }
}

/// The backend a daemon build asks for, and whether a native failure may
/// fall back to Scarb: only an effective auto mode allows the fallback.
pub fn daemon_backend_policy(configured_mode: NativeBuildMode, native_auto_eligible: bool) -> (r: (
    BuildCompileBackend,
    bool,
))
    ensures
        r == backend_policy(configured_mode, native_auto_eligible),
{
    match effective_native_mode(configured_mode, native_auto_eligible) {
        NativeBuildMode::Off => (BuildCompileBackend::Scarb, false),
        NativeBuildMode::Auto => (BuildCompileBackend::Native, true),
        NativeBuildMode::Require => (BuildCompileBackend::Native, false),
    }
}

/// Applying the eligibility downgrade twice changes nothing more, and the
/// policy only ever allows a Scarb fallback for a native build.
pub proof fn lemma_native_mode_policy(configured: NativeBuildMode, eligible: bool)
    ensures
        effective_mode(effective_mode(configured, eligible), eligible) == effective_mode(
            configured,
            eligible,
        ),
        backend_policy(configured, eligible).1 ==> backend_policy(configured, eligible).0
            == BuildCompileBackend::Native,
        configured == NativeBuildMode::Require ==> backend_policy(configured, eligible) == (
            BuildCompileBackend::Native,
            false,
        ),
{
}

/// The native build mode used when none is configured.
pub fn default_native_build_mode() -> (m: NativeBuildMode)
    ensures
        m == NativeBuildMode::Auto,
{
    NativeBuildMode::Auto
}

pub open spec fn native_mode_named(raw: Seq<char>) -> NativeBuildMode {
    let n = ascii_lowercase(trim(raw));
    if n == "off"@ {
        NativeBuildMode::Off
    } else if n == "auto"@ {
        NativeBuildMode::Auto
    } else if n == "require"@ {
        NativeBuildMode::Require
    } else {
        NativeBuildMode::Auto
    }
}

/// Reads a native build mode: `off`, `auto` or `require`, trimmed and in
/// any ASCII case; anything else gives the default, auto.
pub fn parse_native_build_mode(raw: &str) -> (m: NativeBuildMode)
    ensures
        m == native_mode_named(raw@),
{
    let chars = chars_of(raw);
    let (start, end) = trim_bounds(&chars);
    let n = lowercase_range(&chars, start, end);
    assert(n@.subrange(0, n@.len() as int) =~= n@);
    let off = chars_of("off");
    let auto = chars_of("auto");
    let require = chars_of("require");
    if range_eq(&n, 0, n.len(), &off) {
        NativeBuildMode::Off
    } else if range_eq(&n, 0, n.len(), &auto) {
        NativeBuildMode::Auto
    } else if range_eq(&n, 0, n.len(), &require) {
        NativeBuildMode::Require
    } else {
        default_native_build_mode()
    }
}

pub open spec fn refresh_action(
    needs_full_rebuild: bool,
    changed_source_set_detected: bool,
    changed_files: nat,
    removed_files: nat,
    max_changed_files: nat,
) -> NativeSessionRefreshAction {
    if needs_full_rebuild {
        NativeSessionRefreshAction::FullRebuild
    } else if !changed_source_set_detected {
        NativeSessionRefreshAction::Unchanged
    } else if (if changed_files + removed_files > usize::MAX {
        usize::MAX as nat
    } else {
        changed_files + removed_files
    }) > max_changed_files {
        NativeSessionRefreshAction::FullRebuild
    } else {
        NativeSessionRefreshAction::IncrementalChangedSet
    }
}

/// Chooses how to refresh a cached native session: a forced full rebuild
/// wins; an unchanged source set needs nothing; more changed and removed
/// files than `max_changed_files` (summed with saturation) rebuild fully;
/// otherwise only the changed set is refreshed.
pub fn native_session_refresh_action(
    needs_full_rebuild: bool,
    changed_source_set_detected: bool,
    changed_files: usize,
    removed_files: usize,
    max_changed_files: usize,
) -> (a: NativeSessionRefreshAction)
    ensures
        a == refresh_action(
            needs_full_rebuild,
            changed_source_set_detected,
            changed_files as nat,
            removed_files as nat,
            max_changed_files as nat,
        ),
{
    if needs_full_rebuild {
        return NativeSessionRefreshAction::FullRebuild;
    }
    if !changed_source_set_detected {
        return NativeSessionRefreshAction::Unchanged;
    }
    let changed_total = changed_files.saturating_add(removed_files);
    if changed_total > max_changed_files {
        return NativeSessionRefreshAction::FullRebuild;
    }
    NativeSessionRefreshAction::IncrementalChangedSet
}

/// The batch size that native compilation uses for `total` contracts: all of
/// them when none is configured, else the configured size capped at `total`.
pub open spec fn effective_batch_size(total: nat, configured: nat) -> nat {
    if configured == 0 {
        total
    } else if configured < total {
        configured
    } else {
        total
    }
}

/// Splits `total_contracts` contracts into consecutive half-open index ranges
/// of the effective batch size; the last range may be shorter.
pub fn native_compile_batch_ranges(total_contracts: usize, configured_batch_size: usize) -> (r: Vec<
    (usize, usize),
>)
    ensures
        total_contracts == 0 ==> r@.len() == 0,
        total_contracts > 0 ==> r@.len() > 0 && r@.last().1 == total_contracts,
        forall|k: int|
            #![trigger r@[k]]
            0 <= k < r@.len() ==> {
                let bs = effective_batch_size(
                    total_contracts as nat,
                    configured_batch_size as nat,
                );
                &&& r@[k].0 == k * bs
                &&& r@[k].0 < total_contracts
                &&& r@[k].1 == (if k * bs + bs <= total_contracts {
                    k * bs + bs
                } else {
                    total_contracts as int
                })
            },
{
    let mut r: Vec<(usize, usize)> = Vec::new();
    if total_contracts == 0 {
        return r;
    }
    let batch_size: usize = if configured_batch_size == 0 {
        total_contracts
    } else if configured_batch_size < total_contracts {
        configured_batch_size
    } else {
        total_contracts
    };
    let ghost bs = effective_batch_size(total_contracts as nat, configured_batch_size as nat);
    assert(batch_size == bs);
    let mut start: usize = 0;
    assert(r@.len() == 0);
    assert(0 * bs == 0) by (nonlinear_arith);
    while start < total_contracts
        invariant
            1 <= batch_size <= total_contracts,
            batch_size == bs,
            bs == effective_batch_size(total_contracts as nat, configured_batch_size as nat),
            start == r@.len() * bs,
            start <= total_contracts || (r@.len() > 0 && r@.last().1 == total_contracts),
            r@.len() > 0 ==> r@.last().1 == (if start <= total_contracts {
                start as int
            } else {
                total_contracts as int
            }),
            forall|k: int|
                #![trigger r@[k]]
                0 <= k < r@.len() ==> {
                    &&& r@[k].0 == k * bs
                    &&& r@[k].0 < total_contracts
                    &&& r@[k].1 == (if k * bs + bs <= total_contracts {
                        k * bs + bs
                    } else {
                        total_contracts as int
                    })
                },
        decreases total_contracts - start,
    {
        let end: usize = if batch_size <= total_contracts - start {
            start + batch_size
        } else {
            total_contracts
        };
        r.push((start, end));
        proof {
            assert((r@.len() as int) * bs == (r@.len() - 1) * bs + bs) by (nonlinear_arith);
        }
        if batch_size > total_contracts - start {
            assert(r@.last().1 == total_contracts);
            return r;
        }
        start = start + batch_size;
    }
    r
}

} // verus!
