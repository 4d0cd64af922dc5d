use vstd::prelude::*;
use crate::access_cache::{evicted_oldest, AccessCache};
use crate::fingerprint::opt_view;
use crate::keys::SessionInput;
use crate::surface::{copy_str, strings_view};
use crate::text::str_eq;

verus! {

/// A remembered session input with the manifest state it was read from.
#[derive(Debug)]
pub struct SessionInputCacheEntry {
    pub manifest_size_bytes: u64,
    pub manifest_modified_unix_ms: u64,
    pub input: SessionInput,
}

/// The plan the daemon follows for a build.
#[derive(Debug)]
pub struct DaemonBuildPlan {
    pub manifest_path: String,
    pub workspace_root: String,
    pub profile: String,
    pub session_key: String,
    pub strict_invalidation_key: String,
}

/// A remembered build plan with the manifest and lockfile state it was
/// made for.
#[derive(Debug)]
pub struct DaemonBuildPlanCacheEntry {
    pub manifest_size_bytes: u64,
    pub manifest_modified_unix_ms: u64,
    pub lock_size_bytes: Option<u64>,
    pub lock_modified_unix_ms: Option<u64>,
    pub lock_hash: String,
    pub plan: DaemonBuildPlan,
}

/// A remembered lockfile hash with the lockfile state it was computed from.
#[derive(Debug)]
pub struct LockfileHashCacheEntry {
    pub size_bytes: u64,
    pub modified_unix_ms: u64,
    pub change_unix_ms: Option<u64>,
    pub lock_hash: String,
}

/// Whether two session inputs hold the same values.
pub open spec fn same_input(a: SessionInput, b: SessionInput) -> bool {
    &&& a.compiler_version@ == b.compiler_version@
    &&& a.profile@ == b.profile@
    &&& a.offline == b.offline
    &&& opt_view(a.package) == opt_view(b.package)
    &&& strings_view(a.features@) == strings_view(b.features@)
    &&& strings_view(a.cfg_set@) == strings_view(b.cfg_set@)
    &&& a.manifest_content_hash@ == b.manifest_content_hash@
    &&& a.target_family@ == b.target_family@
    &&& opt_view(a.cairo_edition) == opt_view(b.cairo_edition)
    &&& opt_view(a.cairo_lang_version) == opt_view(b.cairo_lang_version)
    &&& a.build_env_fingerprint@ == b.build_env_fingerprint@
}

/// Whether two build plans hold the same values.
pub open spec fn same_plan(a: DaemonBuildPlan, b: DaemonBuildPlan) -> bool {
    &&& a.manifest_path@ == b.manifest_path@
    &&& a.workspace_root@ == b.workspace_root@
    &&& a.profile@ == b.profile@
    &&& a.session_key@ == b.session_key@
    &&& a.strict_invalidation_key@ == b.strict_invalidation_key@
}

fn copy_opt(s: &Option<String>) -> (c: Option<String>)
    ensures
        opt_view(c) == opt_view(*s),
{
    match s {
        Some(x) => Some(copy_str(x.as_str())),
        None => None,
    }
}

fn copy_list(v: &Vec<String>) -> (c: Vec<String>)
    ensures
        strings_view(c@) == strings_view(v@),
{
    let mut c: Vec<String> = Vec::new();
    let mut i: usize = 0;
    while i < v.len()
        invariant
            i <= v@.len(),
            strings_view(c@) == strings_view(v@).take(i as int),
        decreases v@.len() - i,
    {
        let ghost before = c@;
        c.push(copy_str(v[i].as_str()));
        assert(strings_view(c@) =~= strings_view(before).push(v@[i as int]@));
        assert(strings_view(c@) =~= strings_view(v@).take(i + 1));
        i = i + 1;
    }
    assert(strings_view(v@).take(i as int) =~= strings_view(v@));
    c
}

/// A copy of a session input.
pub fn copy_session_input(input: &SessionInput) -> (c: SessionInput)
    ensures
        same_input(c, *input),
{
    SessionInput {
        compiler_version: copy_str(input.compiler_version.as_str()),
        profile: copy_str(input.profile.as_str()),
        offline: input.offline,
        package: copy_opt(&input.package),
        features: copy_list(&input.features),
        cfg_set: copy_list(&input.cfg_set),
        manifest_content_hash: copy_str(input.manifest_content_hash.as_str()),
        target_family: copy_str(input.target_family.as_str()),
        cairo_edition: copy_opt(&input.cairo_edition),
        cairo_lang_version: copy_opt(&input.cairo_lang_version),
        build_env_fingerprint: copy_str(input.build_env_fingerprint.as_str()),
    }
}

fn copy_plan(p: &DaemonBuildPlan) -> (c: DaemonBuildPlan)
    ensures
        same_plan(c, *p),
{
    DaemonBuildPlan {
        manifest_path: copy_str(p.manifest_path.as_str()),
        workspace_root: copy_str(p.workspace_root.as_str()),
        profile: copy_str(p.profile.as_str()),
        session_key: copy_str(p.session_key.as_str()),
        strict_invalidation_key: copy_str(p.strict_invalidation_key.as_str()),
    }
}

/// Looks a session input up at `now_ms`: a remembered entry is touched
/// either way, and its input is returned when the manifest still has the
/// size and modification time it was read with.
pub fn lookup_session_input_cached(
    cache: &mut AccessCache<SessionInputCacheEntry>,
    key: &String,
    manifest_size_bytes: u64,
    manifest_modified_unix_ms: u64,
    now_ms: u64,
) -> (r: Option<SessionInput>)
    requires
        old(cache).wf(),
    ensures
        final(cache).wf(),
        ({
            let m = old(cache)@;
            &&& m.contains_key(key@) ==> final(cache)@ == m.insert(key@, (m[key@].0, now_ms))
            &&& !m.contains_key(key@) ==> final(cache)@ == m
            &&& (m.contains_key(key@) && m[key@].0.manifest_size_bytes == manifest_size_bytes
                && m[key@].0.manifest_modified_unix_ms == manifest_modified_unix_ms) ==> r is Some
                && same_input(r->0, m[key@].0.input)
            &&& !(m.contains_key(key@) && m[key@].0.manifest_size_bytes == manifest_size_bytes
                && m[key@].0.manifest_modified_unix_ms == manifest_modified_unix_ms) ==> r is None
        }),
{
    let hit = match cache.get(key) {
        Some(e) => if e.manifest_size_bytes == manifest_size_bytes && e.manifest_modified_unix_ms
            == manifest_modified_unix_ms {
            Some(copy_session_input(&e.input))
        } else {
            None
        },
        None => None,
    };
    cache.touch(key, now_ms);
    hit
}

/// Looks a build plan up at `now_ms`: a remembered entry is touched either
/// way, and its plan is returned when the manifest and lockfile are still
/// as they were when it was made.
pub fn lookup_daemon_build_plan_cached(
    cache: &mut AccessCache<DaemonBuildPlanCacheEntry>,
    key: &String,
    manifest_size_bytes: u64,
    manifest_modified_unix_ms: u64,
    lock_size_bytes: Option<u64>,
    lock_modified_unix_ms: Option<u64>,
    lock_hash: &str,
    now_ms: u64,
) -> (r: Option<DaemonBuildPlan>)
    requires
        old(cache).wf(),
    ensures
        final(cache).wf(),
        ({
            let m = old(cache)@;
            let fresh = m.contains_key(key@) && m[key@].0.manifest_size_bytes == manifest_size_bytes
                && m[key@].0.manifest_modified_unix_ms == manifest_modified_unix_ms
                && m[key@].0.lock_size_bytes == lock_size_bytes && m[key@].0.lock_modified_unix_ms
                == lock_modified_unix_ms && m[key@].0.lock_hash@ == lock_hash@;
            &&& m.contains_key(key@) ==> final(cache)@ == m.insert(key@, (m[key@].0, now_ms))
            &&& !m.contains_key(key@) ==> final(cache)@ == m
            &&& fresh ==> r is Some && same_plan(r->0, m[key@].0.plan)
            &&& !fresh ==> r is None
        }),
{
    let hit = match cache.get(key) {
        Some(e) => if e.manifest_size_bytes == manifest_size_bytes && e.manifest_modified_unix_ms
            == manifest_modified_unix_ms && e.lock_size_bytes == lock_size_bytes
            && e.lock_modified_unix_ms == lock_modified_unix_ms && str_eq(
            e.lock_hash.as_str(),
            lock_hash,
        ) {
            Some(copy_plan(&e.plan))
        } else {
            None
        },
        None => None,
    };
    cache.touch(key, now_ms);
    hit
}

/// Looks a lockfile hash up at `now_ms`: a remembered entry is touched
/// either way, and its hash is returned when the lockfile still has the
/// size, modification time and change time it was hashed with.
pub fn lookup_lock_hash_cached(
    cache: &mut AccessCache<LockfileHashCacheEntry>,
    key: &String,
    size_bytes: u64,
    modified_unix_ms: u64,
    change_unix_ms: Option<u64>,
    now_ms: u64,
) -> (r: Option<String>)
    requires
        old(cache).wf(),
    ensures
        final(cache).wf(),
        ({
            let m = old(cache)@;
            let fresh = m.contains_key(key@) && m[key@].0.size_bytes == size_bytes
                && m[key@].0.modified_unix_ms == modified_unix_ms && m[key@].0.change_unix_ms
                == change_unix_ms;
            &&& m.contains_key(key@) ==> final(cache)@ == m.insert(key@, (m[key@].0, now_ms))
            &&& !m.contains_key(key@) ==> final(cache)@ == m
            &&& fresh ==> r is Some && r->0@ == m[key@].0.lock_hash@
            &&& !fresh ==> r is None
        }),
{
    let hit = match cache.get(key) {
        Some(e) => if e.size_bytes == size_bytes && e.modified_unix_ms == modified_unix_ms
            && e.change_unix_ms == change_unix_ms {
            Some(copy_str(e.lock_hash.as_str()))
        } else {
            None
        },
        None => None,
    };
    cache.touch(key, now_ms);
    hit
}

/// Remembers a session input at `now_ms`, then evicts beyond `max_entries`.
pub fn store_session_input_cached(
    cache: &mut AccessCache<SessionInputCacheEntry>,
    key: String,
    entry: SessionInputCacheEntry,
    now_ms: u64,
    max_entries: usize,
)
    requires
        old(cache).wf(),
    ensures
        final(cache).wf(),
        evicted_oldest(old(cache)@.insert(key@, (entry, now_ms)), final(cache)@, max_entries as nat),
{
    cache.insert(key, entry, now_ms);
    cache.evict_oldest(max_entries);
}

/// Remembers a build plan at `now_ms`, then evicts beyond `max_entries`.
pub fn store_daemon_build_plan_cached(
    cache: &mut AccessCache<DaemonBuildPlanCacheEntry>,
    key: String,
    entry: DaemonBuildPlanCacheEntry,
    now_ms: u64,
    max_entries: usize,
)
    requires
        old(cache).wf(),
    ensures
        final(cache).wf(),
        evicted_oldest(old(cache)@.insert(key@, (entry, now_ms)), final(cache)@, max_entries as nat),
{
    cache.insert(key, entry, now_ms);
    cache.evict_oldest(max_entries);
}

/// Remembers a lockfile hash at `now_ms`, then evicts beyond `max_entries`.
pub fn store_lock_hash_cached(
    cache: &mut AccessCache<LockfileHashCacheEntry>,
    key: String,
    entry: LockfileHashCacheEntry,
    now_ms: u64,
    max_entries: usize,
)
    requires
        old(cache).wf(),
    ensures
        final(cache).wf(),
        evicted_oldest(old(cache)@.insert(key@, (entry, now_ms)), final(cache)@, max_entries as nat),
{
    cache.insert(key, entry, now_ms);
    cache.evict_oldest(max_entries);
}

} // verus!
