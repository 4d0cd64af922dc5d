use vstd::prelude::*;
use crate::store::BuildCacheEntry;
use crate::text::str_eq;

verus! {

/// The schema version of build cache entries.
pub const BUILD_CACHE_SCHEMA_VERSION: u32 = 1;

/// Where a build with the local uc cache stands.
#[derive(Clone, Copy, Debug, PartialEq, Eq, Structural)]
pub enum BuildCachePhase {
    /// Nothing done yet; the queued async persist errors are awaited.
    Start,
    /// The cache entry of the session is awaited.
    AwaitEntry,
    /// The build fingerprint is awaited, to compare with the entry.
    AwaitFingerprint,
    /// Whether the entry's artifacts are in place (or were restored).
    AwaitRestore,
    /// Whether the daemon's shared cache holds an entry for the session.
    AwaitSharedEntry,
    /// The build fingerprint is awaited, for the shared cache.
    AwaitSharedFingerprint,
    /// The shared cache restore is awaited.
    AwaitSharedRestore,
    /// The compile is awaited.
    AwaitCompile,
    /// The build fingerprint is awaited, for persisting a good build.
    AwaitPersistFingerprint,
    /// Whether the async persist scope could be claimed.
    AwaitPersistClaim,
    /// The build is over.
    Done,
}

/// The options of a build with the local cache.
#[derive(Clone, Copy, Debug, PartialEq, Eq, Structural)]
pub struct BuildCacheOptions {
    pub use_daemon_shared_cache: bool,
    pub async_cache_persist: bool,
    pub fail_on_async_cache_error: bool,
}

/// The state of a build with the local cache.
pub struct BuildCacheState {
    pub phase: BuildCachePhase,
    pub options: BuildCacheOptions,
    pub profile: String,
    pub local_cache_preexisted: bool,
    /// The fingerprint of the usable cache entry (right schema and profile).
    pub entry_fingerprint: Option<String>,
    /// How many artifacts that entry restores.
    pub entry_artifacts: usize,
    /// The build fingerprint, once computed.
    pub fingerprint: Option<String>,
    /// The exit code of the compile, once it ran.
    pub compile_exit: Option<i32>,
}

/// What happened, as the driver reports it.
pub enum BuildCacheEvent {
    /// The errors of earlier async persists were taken from their queue, and
    /// whether the local cache directory existed before this build.
    Started { async_errors: Vec<String>, local_cache_preexisted: bool },
    /// The session's cache entry, if one could be read.
    EntryLoaded { entry: Option<BuildCacheEntry> },
    /// The build fingerprint.
    FingerprintComputed { fingerprint: String },
    /// Whether the entry's artifacts were already in place or were restored.
    ArtifactsReady { ready: bool },
    /// Whether the daemon's shared cache has an entry for the session.
    SharedEntryProbed { exists: bool },
    /// How many artifacts the shared cache restored, if it did.
    SharedRestored { restored: Option<usize> },
    /// The exit code of the compile.
    CompileFinished { exit_code: i32 },
    /// Whether the async persist scope was claimed.
    PersistClaimed { claimed: bool },
}

/// What the driver does next.
pub enum BuildCacheAction {
    /// Fail the build: earlier async persists failed, and the setting says
    /// so.
    Fail { errors: Vec<String> },
    /// Warn of these earlier async persist errors, then load the entry.
    LoadEntry { warnings: Vec<String> },
    /// Compute the build fingerprint (recorded in the state).
    ComputeFingerprint,
    /// Check whether the entry's artifacts are in place, else restore them.
    RestoreArtifacts,
    /// Ask whether the daemon's shared cache has an entry.
    ProbeSharedEntry,
    /// Restore from the daemon's shared cache with the fingerprint.
    RestoreShared,
    /// Run the compile.
    Compile,
    /// Persist the cache entry now (and the shared entry too when asked),
    /// then finish without a cache hit.
    PersistSync { also_shared: bool },
    /// Persist the shared entry first when asked, then claim the async
    /// persist scope.
    ClaimAsyncPersist { shared_first: bool },
    /// Hand the persist to the background worker, then finish without a
    /// cache hit.
    ScheduleAsyncPersist,
    /// Finish: a cache hit with this many restored artifacts, or the run.
    Finish { cache_hit: bool, restored_artifacts: usize },
    /// The event does not fit the phase; nothing changes.
    Ignore,
}

/// A build that has not started.
pub open spec fn initial_state(options: BuildCacheOptions, profile: String) -> BuildCacheState {
    BuildCacheState {
        phase: BuildCachePhase::Start,
        options,
        profile,
        local_cache_preexisted: false,
        entry_fingerprint: None,
        entry_artifacts: 0,
        fingerprint: None,
        compile_exit: None,
    }
}

/// After the local cache gave no hit: the shared cache when it is used,
/// else the compile.
pub open spec fn after_local_miss(s: BuildCacheState) -> (BuildCacheState, BuildCacheAction) {
    if s.options.use_daemon_shared_cache {
        (BuildCacheState { phase: BuildCachePhase::AwaitSharedEntry, ..s }, BuildCacheAction::ProbeSharedEntry)
    } else {
        (BuildCacheState { phase: BuildCachePhase::AwaitCompile, ..s }, BuildCacheAction::Compile)
    }
}

/// Persisting a good build: in the background when asked (the shared entry
/// first, when the shared cache is used and the local cache is new), else
/// at once.
pub open spec fn start_persist(s: BuildCacheState) -> (BuildCacheState, BuildCacheAction) {
    let shared = s.options.use_daemon_shared_cache && !s.local_cache_preexisted;
    if s.options.async_cache_persist {
        (
            BuildCacheState { phase: BuildCachePhase::AwaitPersistClaim, ..s },
            BuildCacheAction::ClaimAsyncPersist { shared_first: shared },
        )
    } else {
        (BuildCacheState { phase: BuildCachePhase::Done, ..s }, BuildCacheAction::PersistSync { also_shared: shared })
    }
}

/// Whether a cache entry can serve a build of `profile`.
pub open spec fn entry_usable(e: BuildCacheEntry, profile: Seq<char>) -> bool {
    e.schema_version == BUILD_CACHE_SCHEMA_VERSION && e.profile@ == profile
}

/// The next state and action of a build with the local cache.
pub open spec fn build_cache_next(s: BuildCacheState, e: BuildCacheEvent) -> (BuildCacheState, BuildCacheAction) {
    match (s.phase, e) {
        (BuildCachePhase::Start, BuildCacheEvent::Started { async_errors, local_cache_preexisted }) => {
            if async_errors@.len() > 0 && s.options.fail_on_async_cache_error {
                (BuildCacheState { phase: BuildCachePhase::Done, ..s }, BuildCacheAction::Fail { errors: async_errors })
            } else {
                (
                    BuildCacheState { phase: BuildCachePhase::AwaitEntry, local_cache_preexisted, ..s },
                    BuildCacheAction::LoadEntry { warnings: async_errors },
                )
            }
        },
        (BuildCachePhase::AwaitEntry, BuildCacheEvent::EntryLoaded { entry }) => match entry {
            Some(en) => if entry_usable(en, s.profile@) {
                (
                    BuildCacheState {
                        phase: BuildCachePhase::AwaitFingerprint,
                        entry_fingerprint: Some(en.fingerprint),
                        entry_artifacts: en.artifacts@.len() as usize,
                        ..s
                    },
                    BuildCacheAction::ComputeFingerprint,
                )
            } else {
                after_local_miss(s)
            },
            None => after_local_miss(s),
        },
        (BuildCachePhase::AwaitFingerprint, BuildCacheEvent::FingerprintComputed { fingerprint }) => {
            let s1 = BuildCacheState { fingerprint: Some(fingerprint), ..s };
            if s.entry_fingerprint is Some && s.entry_fingerprint->0@ == fingerprint@ {
                (BuildCacheState { phase: BuildCachePhase::AwaitRestore, ..s1 }, BuildCacheAction::RestoreArtifacts)
            } else {
                after_local_miss(s1)
            }
        },
        (BuildCachePhase::AwaitRestore, BuildCacheEvent::ArtifactsReady { ready }) => {
            if ready {
                (
                    BuildCacheState { phase: BuildCachePhase::Done, ..s },
                    BuildCacheAction::Finish { cache_hit: true, restored_artifacts: s.entry_artifacts },
                )
            } else {
                after_local_miss(s)
            }
        },
        (BuildCachePhase::AwaitSharedEntry, BuildCacheEvent::SharedEntryProbed { exists }) => {
            if !exists {
                (BuildCacheState { phase: BuildCachePhase::AwaitCompile, ..s }, BuildCacheAction::Compile)
            } else if s.fingerprint is Some {
                (BuildCacheState { phase: BuildCachePhase::AwaitSharedRestore, ..s }, BuildCacheAction::RestoreShared)
            } else {
                (
                    BuildCacheState { phase: BuildCachePhase::AwaitSharedFingerprint, ..s },
                    BuildCacheAction::ComputeFingerprint,
                )
            }
        },
        (BuildCachePhase::AwaitSharedFingerprint, BuildCacheEvent::FingerprintComputed { fingerprint }) => (
            BuildCacheState {
                phase: BuildCachePhase::AwaitSharedRestore,
                fingerprint: Some(fingerprint),
                ..s
            },
            BuildCacheAction::RestoreShared,
        ),
        (BuildCachePhase::AwaitSharedRestore, BuildCacheEvent::SharedRestored { restored }) => match restored {
            Some(n) => (
                BuildCacheState { phase: BuildCachePhase::Done, ..s },
                BuildCacheAction::Finish { cache_hit: true, restored_artifacts: n },
            ),
            None => (BuildCacheState { phase: BuildCachePhase::AwaitCompile, ..s }, BuildCacheAction::Compile),
        },
        (BuildCachePhase::AwaitCompile, BuildCacheEvent::CompileFinished { exit_code }) => {
            let s1 = BuildCacheState { compile_exit: Some(exit_code), ..s };
            if exit_code != 0 {
                (
                    BuildCacheState { phase: BuildCachePhase::Done, ..s1 },
                    BuildCacheAction::Finish { cache_hit: false, restored_artifacts: 0 },
                )
            } else if s.fingerprint is None {
                (
                    BuildCacheState { phase: BuildCachePhase::AwaitPersistFingerprint, ..s1 },
                    BuildCacheAction::ComputeFingerprint,
                )
            } else {
                start_persist(s1)
            }
        },
        (BuildCachePhase::AwaitPersistFingerprint, BuildCacheEvent::FingerprintComputed { fingerprint }) => {
            start_persist(BuildCacheState { fingerprint: Some(fingerprint), ..s })
        },
        (BuildCachePhase::AwaitPersistClaim, BuildCacheEvent::PersistClaimed { claimed }) => {
            if claimed {
                (BuildCacheState { phase: BuildCachePhase::Done, ..s }, BuildCacheAction::ScheduleAsyncPersist)
            } else {
                (
                    BuildCacheState { phase: BuildCachePhase::Done, ..s },
                    BuildCacheAction::Finish { cache_hit: false, restored_artifacts: 0 },
                )
            }
        },
        (_, _) => (s, BuildCacheAction::Ignore),
    }
}

/// A build with the local cache that has not started.
pub fn build_cache_start(options: BuildCacheOptions, profile: String) -> (s: BuildCacheState)
    ensures
        s == initial_state(options, profile),
{
    BuildCacheState {
        phase: BuildCachePhase::Start,
        options,
        profile,
        local_cache_preexisted: false,
        entry_fingerprint: None,
        entry_artifacts: 0,
        fingerprint: None,
        compile_exit: None,
    }
}

fn after_local_miss_exec(s: BuildCacheState) -> (r: (BuildCacheState, BuildCacheAction))
    ensures
        r == after_local_miss(s),
{
    if s.options.use_daemon_shared_cache {
        (BuildCacheState { phase: BuildCachePhase::AwaitSharedEntry, ..s }, BuildCacheAction::ProbeSharedEntry)
    } else {
        (BuildCacheState { phase: BuildCachePhase::AwaitCompile, ..s }, BuildCacheAction::Compile)
    }
}

fn start_persist_exec(s: BuildCacheState) -> (r: (BuildCacheState, BuildCacheAction))
    ensures
        r == start_persist(s),
{
    let shared = s.options.use_daemon_shared_cache && !s.local_cache_preexisted;
    if s.options.async_cache_persist {
        (
            BuildCacheState { phase: BuildCachePhase::AwaitPersistClaim, ..s },
            BuildCacheAction::ClaimAsyncPersist { shared_first: shared },
        )
    } else {
        (BuildCacheState { phase: BuildCachePhase::Done, ..s }, BuildCacheAction::PersistSync { also_shared: shared })
    }
}

/// One step of a build with the local uc cache: from the state and what
/// the driver reports, the next state and what the driver does next (see
/// `build_cache_next`).
pub fn build_cache_step(state: BuildCacheState, event: BuildCacheEvent) -> (r: (BuildCacheState, BuildCacheAction))
    ensures
        r == build_cache_next(state, event),
{
    let s = state;
    match s.phase {
        BuildCachePhase::Start => match event {
            BuildCacheEvent::Started { async_errors, local_cache_preexisted } => {
                if async_errors.len() > 0 && s.options.fail_on_async_cache_error {
                    (BuildCacheState { phase: BuildCachePhase::Done, ..s }, BuildCacheAction::Fail { errors: async_errors })
                } else {
                    (
                        BuildCacheState { phase: BuildCachePhase::AwaitEntry, local_cache_preexisted, ..s },
                        BuildCacheAction::LoadEntry { warnings: async_errors },
                    )
                }
            },
            _ => (s, BuildCacheAction::Ignore),
        },
        BuildCachePhase::AwaitEntry => match event {
            BuildCacheEvent::EntryLoaded { entry } => match entry {
                Some(en) => {
                    if en.schema_version == BUILD_CACHE_SCHEMA_VERSION && str_eq(
                        en.profile.as_str(),
                        s.profile.as_str(),
                    ) {
                        let count = en.artifacts.len();
                        (
                            BuildCacheState {
                                phase: BuildCachePhase::AwaitFingerprint,
                                entry_fingerprint: Some(en.fingerprint),
                                entry_artifacts: count,
                                ..s
                            },
                            BuildCacheAction::ComputeFingerprint,
                        )
                    } else {
                        after_local_miss_exec(s)
                    }
                },
                None => after_local_miss_exec(s),
            },
            _ => (s, BuildCacheAction::Ignore),
        },
        BuildCachePhase::AwaitFingerprint => match event {
            BuildCacheEvent::FingerprintComputed { fingerprint } => {
                let same = match &s.entry_fingerprint {
                    Some(ef) => str_eq(ef.as_str(), fingerprint.as_str()),
                    None => false,
                };
                let s1 = BuildCacheState { fingerprint: Some(fingerprint), ..s };
                if same {
                    (BuildCacheState { phase: BuildCachePhase::AwaitRestore, ..s1 }, BuildCacheAction::RestoreArtifacts)
                } else {
                    after_local_miss_exec(s1)
                }
            },
            _ => (s, BuildCacheAction::Ignore),
        },
        BuildCachePhase::AwaitRestore => match event {
            BuildCacheEvent::ArtifactsReady { ready } => {
                if ready {
                    let n = s.entry_artifacts;
                    (
                        BuildCacheState { phase: BuildCachePhase::Done, ..s },
                        BuildCacheAction::Finish { cache_hit: true, restored_artifacts: n },
                    )
                } else {
                    after_local_miss_exec(s)
                }
            },
            _ => (s, BuildCacheAction::Ignore),
        },
        BuildCachePhase::AwaitSharedEntry => match event {
            BuildCacheEvent::SharedEntryProbed { exists } => {
                if !exists {
                    (BuildCacheState { phase: BuildCachePhase::AwaitCompile, ..s }, BuildCacheAction::Compile)
                } else if s.fingerprint.is_some() {
                    (BuildCacheState { phase: BuildCachePhase::AwaitSharedRestore, ..s }, BuildCacheAction::RestoreShared)
                } else {
                    (
                        BuildCacheState { phase: BuildCachePhase::AwaitSharedFingerprint, ..s },
                        BuildCacheAction::ComputeFingerprint,
                    )
                }
            },
            _ => (s, BuildCacheAction::Ignore),
        },
        BuildCachePhase::AwaitSharedFingerprint => match event {
            BuildCacheEvent::FingerprintComputed { fingerprint } => (
                BuildCacheState {
                    phase: BuildCachePhase::AwaitSharedRestore,
                    fingerprint: Some(fingerprint),
                    ..s
                },
                BuildCacheAction::RestoreShared,
            ),
            _ => (s, BuildCacheAction::Ignore),
        },
        BuildCachePhase::AwaitSharedRestore => match event {
            BuildCacheEvent::SharedRestored { restored } => match restored {
                Some(n) => (
                    BuildCacheState { phase: BuildCachePhase::Done, ..s },
                    BuildCacheAction::Finish { cache_hit: true, restored_artifacts: n },
                ),
                None => (BuildCacheState { phase: BuildCachePhase::AwaitCompile, ..s }, BuildCacheAction::Compile),
            },
            _ => (s, BuildCacheAction::Ignore),
        },
        BuildCachePhase::AwaitCompile => match event {
            BuildCacheEvent::CompileFinished { exit_code } => {
                let no_fingerprint = s.fingerprint.is_none();
                let s1 = BuildCacheState { compile_exit: Some(exit_code), ..s };
                if exit_code != 0 {
                    (
                        BuildCacheState { phase: BuildCachePhase::Done, ..s1 },
                        BuildCacheAction::Finish { cache_hit: false, restored_artifacts: 0 },
                    )
                } else if no_fingerprint {
                    (
                        BuildCacheState { phase: BuildCachePhase::AwaitPersistFingerprint, ..s1 },
                        BuildCacheAction::ComputeFingerprint,
                    )
                } else {
                    start_persist_exec(s1)
                }
            },
            _ => (s, BuildCacheAction::Ignore),
        },
        BuildCachePhase::AwaitPersistFingerprint => match event {
            BuildCacheEvent::FingerprintComputed { fingerprint } => {
                start_persist_exec(BuildCacheState { fingerprint: Some(fingerprint), ..s })
            },
            _ => (s, BuildCacheAction::Ignore),
        },
        BuildCachePhase::AwaitPersistClaim => match event {
            BuildCacheEvent::PersistClaimed { claimed } => {
                if claimed {
                    (BuildCacheState { phase: BuildCachePhase::Done, ..s }, BuildCacheAction::ScheduleAsyncPersist)
                } else {
                    (
                        BuildCacheState { phase: BuildCachePhase::Done, ..s },
                        BuildCacheAction::Finish { cache_hit: false, restored_artifacts: 0 },
                    )
                }
            },
            _ => (s, BuildCacheAction::Ignore),
        },
        BuildCachePhase::Done => (s, BuildCacheAction::Ignore),
    }
}

/// What holds of every state a build reaches: waiting on the restore, the
/// entry's fingerprint and the build's are known and equal; waiting on the
/// shared restore, the fingerprint is known; while persisting, the compile
/// exited with 0.
pub open spec fn build_cache_inv(s: BuildCacheState) -> bool {
    &&& s.phase == BuildCachePhase::AwaitRestore ==> (s.entry_fingerprint is Some && s.fingerprint is Some
        && s.entry_fingerprint->0@ == s.fingerprint->0@)
    &&& s.phase == BuildCachePhase::AwaitSharedRestore ==> s.fingerprint is Some
    &&& (s.phase == BuildCachePhase::AwaitPersistFingerprint || s.phase == BuildCachePhase::AwaitPersistClaim)
        ==> s.compile_exit == Some(0i32)
    &&& s.phase == BuildCachePhase::AwaitPersistClaim ==> s.fingerprint is Some
}

/// Whether an action persists the build's cache entry.
pub open spec fn persists(a: BuildCacheAction) -> bool {
    a is PersistSync || a is ClaimAsyncPersist || a is ScheduleAsyncPersist
}

/// Every state of a build keeps `build_cache_inv`: it holds at the start
/// and each step keeps it.
pub proof fn lemma_build_cache_inv(s: BuildCacheState, e: BuildCacheEvent, options: BuildCacheOptions, profile: String)
    ensures
        build_cache_inv(initial_state(options, profile)),
        build_cache_inv(s) ==> build_cache_inv(build_cache_next(s, e).0),
{
}

/// A build is a cache hit only when the session's entry had the build's
/// fingerprint and its artifacts were in place or restored, or when the
/// daemon's shared cache, asked with the build's fingerprint, restored the
/// artifacts.
pub proof fn lemma_cache_hit_needs_matching_fingerprint(s: BuildCacheState, e: BuildCacheEvent)
    requires
        build_cache_inv(s),
        build_cache_next(s, e).1 matches BuildCacheAction::Finish { cache_hit, .. } && cache_hit,
    ensures
        (s.phase == BuildCachePhase::AwaitRestore && (e matches BuildCacheEvent::ArtifactsReady { ready } && ready)
            && s.entry_fingerprint is Some && s.fingerprint is Some && s.entry_fingerprint->0@
            == s.fingerprint->0@) || (s.phase == BuildCachePhase::AwaitSharedRestore && (e matches BuildCacheEvent::SharedRestored {
            restored,
        } && restored is Some) && s.fingerprint is Some),
{
}

/// The cache entry is persisted only for a build whose compile exited
/// with 0, and with its fingerprint known.
pub proof fn lemma_persist_only_after_success(s: BuildCacheState, e: BuildCacheEvent)
    requires
        build_cache_inv(s),
        persists(build_cache_next(s, e).1),
    ensures
        build_cache_next(s, e).0.compile_exit == Some(0i32),
        build_cache_next(s, e).0.fingerprint is Some,
{
}

/// Errors of earlier async persists fail the build exactly when there are
/// some and the setting asks for it; nothing else fails a build.
pub proof fn lemma_async_errors_fail_only_by_setting(s: BuildCacheState, e: BuildCacheEvent)
    ensures
        build_cache_next(s, e).1 is Fail <==> (s.phase == BuildCachePhase::Start && (e matches BuildCacheEvent::Started {
            async_errors,
            ..
        } && async_errors@.len() > 0) && s.options.fail_on_async_cache_error),
{
}

/// A compile that finished with this exit code.
pub open spec fn compile_exited(e: BuildCacheEvent, code_ok: bool) -> bool {
    match e {
        BuildCacheEvent::CompileFinished { exit_code } => (exit_code == 0) == code_ok,
        _ => false,
    }
}

/// A build ends without a cache hit only after its compile ran: either the
/// compile failed, or it succeeded and another build already holds the
/// background persist of this scope.
pub proof fn lemma_finish_without_hit_follows_compile(s: BuildCacheState, e: BuildCacheEvent)
    requires
        build_cache_inv(s),
        build_cache_next(s, e).1 matches BuildCacheAction::Finish { cache_hit, .. } && !cache_hit,
    ensures
        (s.phase == BuildCachePhase::AwaitCompile && compile_exited(e, false)) || (s.phase
            == BuildCachePhase::AwaitPersistClaim && s.compile_exit == Some(0i32) && (e matches BuildCacheEvent::PersistClaimed {
            claimed,
        } && !claimed)),
{
}

/// When the local cache cannot serve the build (no usable entry, another
/// fingerprint, or artifacts that are neither in place nor restorable), the
/// build goes on to the daemon's shared cache when it is used, and to the
/// compile otherwise.
pub proof fn lemma_local_miss_goes_on(s: BuildCacheState, e: BuildCacheEvent)
    requires
        (s.phase == BuildCachePhase::AwaitRestore && e == (BuildCacheEvent::ArtifactsReady { ready: false })) || (
        s.phase == BuildCachePhase::AwaitEntry && e == (BuildCacheEvent::EntryLoaded { entry: None })) || (s.phase
            == BuildCachePhase::AwaitFingerprint && (e matches BuildCacheEvent::FingerprintComputed { fingerprint } && !(
        s.entry_fingerprint is Some && s.entry_fingerprint->0@ == fingerprint@))),
    ensures
        s.options.use_daemon_shared_cache ==> build_cache_next(s, e).1 is ProbeSharedEntry
            && build_cache_next(s, e).0.phase == BuildCachePhase::AwaitSharedEntry,
        !s.options.use_daemon_shared_cache ==> build_cache_next(s, e).1 is Compile
            && build_cache_next(s, e).0.phase == BuildCachePhase::AwaitCompile,
{
}

/// A compile runs only when no cache served the build: after a local miss,
/// or after the shared cache had no entry or could not restore it.
pub proof fn lemma_compile_only_after_miss(s: BuildCacheState, e: BuildCacheEvent)
    requires
        build_cache_next(s, e).1 is Compile,
    ensures
        s.phase == BuildCachePhase::AwaitEntry || s.phase == BuildCachePhase::AwaitFingerprint || (s.phase
            == BuildCachePhase::AwaitRestore && e == (BuildCacheEvent::ArtifactsReady { ready: false })) || (
        s.phase == BuildCachePhase::AwaitSharedEntry && e == (BuildCacheEvent::SharedEntryProbed {
            exists: false,
        })) || (s.phase == BuildCachePhase::AwaitSharedRestore && e == (BuildCacheEvent::SharedRestored {
            restored: None,
        })),
{
}

/// A compile that succeeded is persisted: at once when async persisting is
/// off, else by claiming the background persist; the fingerprint is
/// computed first when it is not known yet. A failed compile finishes the
/// build without a hit and persists nothing.
pub proof fn lemma_successful_compile_persists(s: BuildCacheState, exit_code: i32)
    requires
        s.phase == BuildCachePhase::AwaitCompile,
    ensures
        ({
            let r = build_cache_next(s, BuildCacheEvent::CompileFinished { exit_code });
            &&& exit_code != 0 ==> r.1 == (BuildCacheAction::Finish { cache_hit: false, restored_artifacts: 0 })
            &&& exit_code == 0 && s.fingerprint is None ==> r.1 is ComputeFingerprint && r.0.phase
                == BuildCachePhase::AwaitPersistFingerprint
            &&& exit_code == 0 && s.fingerprint is Some && !s.options.async_cache_persist ==> r.1 is PersistSync
            &&& exit_code == 0 && s.fingerprint is Some && s.options.async_cache_persist ==> r.1 is ClaimAsyncPersist
            &&& r.0.compile_exit == Some(exit_code)
        }),
{
}

/// A usable entry whose fingerprint is the build's, with its artifacts in
/// place, is a cache hit that reports the entry's artifact count.
pub proof fn lemma_hit_path(s: BuildCacheState, en: BuildCacheEntry, fingerprint: String)
    requires
        s.phase == BuildCachePhase::AwaitEntry,
        en.schema_version == BUILD_CACHE_SCHEMA_VERSION,
        en.profile@ == s.profile@,
        en.fingerprint@ == fingerprint@,
    ensures
        ({
            let r1 = build_cache_next(s, BuildCacheEvent::EntryLoaded { entry: Some(en) });
            let r2 = build_cache_next(r1.0, BuildCacheEvent::FingerprintComputed { fingerprint });
            let r3 = build_cache_next(r2.0, BuildCacheEvent::ArtifactsReady { ready: true });
            &&& r1.1 is ComputeFingerprint
            &&& r2.1 is RestoreArtifacts
            &&& r3.1 == (BuildCacheAction::Finish {
                cache_hit: true,
                restored_artifacts: en.artifacts@.len() as usize,
            })
        }),
{
}

} // verus!
