use vstd::prelude::*;
use crate::access_cache::{
    access_of, within_budget, AccessCache, CacheWeight, weight_sum,
};
use crate::surface::{copy_str, strings_view};
use crate::text::str_eq;
use vstd::utf8::encode_utf8;

verus! {

/// The schema of a metadata result cache file.
pub const METADATA_RESULT_CACHE_SCHEMA_VERSION: u32 = 1;

/// The largest metadata result cache file that is read or written.
pub const MAX_METADATA_RESULT_CACHE_ENTRY_BYTES: u64 = 33_554_432;

/// A finished command: what was run, its exit code, how long it took (the
/// bits of the elapsed milliseconds as a float) and what it printed.
#[derive(Debug, Clone)]
pub struct CommandRun {
    pub command: Vec<String>,
    pub exit_code: i32,
    pub elapsed_ms_bits: u64,
    pub stdout: String,
    pub stderr: String,
}

/// A remembered `scarb metadata` result with what it was computed from.
#[derive(Debug, Clone)]
pub struct MetadataResultCacheEntry {
    pub manifest_size_bytes: u64,
    pub manifest_modified_unix_ms: u64,
    pub lock_hash: String,
    pub workspace_manifests_hash: String,
    pub run: CommandRun,
    pub estimated_bytes: u64,
}

/// A `scarb metadata` result as stored on disk.
#[derive(Debug, Clone)]
pub struct MetadataResultCacheFile {
    pub schema_version: u32,
    pub manifest_size_bytes: u64,
    pub manifest_modified_unix_ms: u64,
    pub lock_hash: String,
    pub workspace_manifests_hash: String,
    pub run: CommandRun,
}

impl CacheWeight for MetadataResultCacheEntry {
    open spec fn weight_spec(&self) -> nat {
        self.estimated_bytes as nat
    }

    fn weight(&self) -> (w: u64) {
        self.estimated_bytes
    }
}

/// The UTF-8 length of a string.
pub open spec fn utf8_len(s: Seq<char>) -> nat {
    encode_utf8(s).len()
}

/// The summed UTF-8 lengths of the parts of a command.
pub open spec fn command_len(parts: Seq<String>) -> nat
    decreases parts.len(),
{
    if parts.len() == 0 {
        0
    } else {
        command_len(parts.drop_last()) + utf8_len(parts.last()@)
    }
}

/// The estimated memory of a command run: what it printed, its command
/// line, and a fixed overhead of 256 bytes.
pub open spec fn run_estimated_bytes(run: CommandRun) -> nat {
    utf8_len(run.stdout@) + utf8_len(run.stderr@) + command_len(run.command@) + 256
}

/// Estimates the memory of a command run.
pub fn metadata_run_estimated_bytes(run: &CommandRun) -> (b: u64)
    requires
        run_estimated_bytes(*run) <= u64::MAX,
    ensures
        b == run_estimated_bytes(*run),
{
    let mut parts: u64 = 0;
    let mut i: usize = 0;
    while i < run.command.len()
        invariant
            i <= run.command@.len(),
            parts == command_len(run.command@.take(i as int)),
            run_estimated_bytes(*run) <= u64::MAX,
        decreases run.command@.len() - i,
    {
        assert(run.command@.take(i + 1).drop_last() =~= run.command@.take(i as int));
        proof {
            lemma_command_len_prefix(run.command@, i as int + 1);
        }
        parts = parts + run.command[i].as_str().as_bytes().len() as u64;
        i = i + 1;
    }
    assert(run.command@.take(i as int) =~= run.command@);
    run.stdout.as_str().as_bytes().len() as u64 + run.stderr.as_str().as_bytes().len() as u64 + parts
        + 256
}

proof fn lemma_command_len_prefix(parts: Seq<String>, k: int)
    requires
        0 <= k <= parts.len(),
    ensures
        command_len(parts.take(k)) <= command_len(parts),
    decreases parts.len(),
{
    if k < parts.len() {
        assert(parts.drop_last().take(k) =~= parts.take(k));
        lemma_command_len_prefix(parts.drop_last(), k);
    } else {
        assert(parts.take(k) =~= parts);
    }
}

/// Whether a remembered result was computed from the manifest, lockfile and
/// workspace manifests as they are now.
pub fn metadata_cache_entry_matches(
    entry: &MetadataResultCacheEntry,
    manifest_size_bytes: u64,
    manifest_modified_unix_ms: u64,
    lock_hash: &str,
    workspace_manifests_hash: &str,
) -> (b: bool)
    ensures
        b == (entry.manifest_size_bytes == manifest_size_bytes && entry.manifest_modified_unix_ms
            == manifest_modified_unix_ms && entry.lock_hash@ == lock_hash@
            && entry.workspace_manifests_hash@ == workspace_manifests_hash@),
{
    entry.manifest_size_bytes == manifest_size_bytes && entry.manifest_modified_unix_ms
        == manifest_modified_unix_ms && str_eq(entry.lock_hash.as_str(), lock_hash) && str_eq(
        entry.workspace_manifests_hash.as_str(),
        workspace_manifests_hash,
    )
}

/// Whether a stored result was computed from the manifest, lockfile and
/// workspace manifests as they are now.
pub fn metadata_cache_file_matches(
    entry: &MetadataResultCacheFile,
    manifest_size_bytes: u64,
    manifest_modified_unix_ms: u64,
    lock_hash: &str,
    workspace_manifests_hash: &str,
) -> (b: bool)
    ensures
        b == (entry.manifest_size_bytes == manifest_size_bytes && entry.manifest_modified_unix_ms
            == manifest_modified_unix_ms && entry.lock_hash@ == lock_hash@
            && entry.workspace_manifests_hash@ == workspace_manifests_hash@),
{
    entry.manifest_size_bytes == manifest_size_bytes && entry.manifest_modified_unix_ms
        == manifest_modified_unix_ms && str_eq(entry.lock_hash.as_str(), lock_hash) && str_eq(
        entry.workspace_manifests_hash.as_str(),
        workspace_manifests_hash,
    )
}

/// Evicts least recently used metadata results until at most
/// `max_entries` remain and, unless `max_bytes` is zero, their estimated
/// sizes stay within `max_bytes`.
pub fn evict_oldest_metadata_result_cache_entries(
    cache: &mut AccessCache<MetadataResultCacheEntry>,
    max_entries: usize,
    max_bytes: u64,
)
    requires
        old(cache).wf(),
    ensures
        final(cache).wf(),
        final(cache)@ <= old(cache)@,
        within_budget(final(cache)@, max_entries as nat, max_bytes),
        forall|gone: Seq<char>, kept: Seq<char>|
            #![trigger old(cache)@.contains_key(gone), final(cache)@.contains_key(kept)]
            old(cache)@.contains_key(gone) && !final(cache)@.contains_key(gone)
                && final(cache)@.contains_key(kept) ==> access_of(old(cache)@, gone) <= access_of(
                final(cache)@,
                kept,
            ),
        final(cache)@ != old(cache)@ ==> exists|g: Seq<char>|
            old(cache)@.contains_key(g) && !final(cache)@.contains_key(g) && !within_budget(
                #[trigger] final(cache)@.insert(g, old(cache)@[g]),
                max_entries as nat,
                max_bytes,
            ),
{
    cache.evict_oldest_within(max_entries, max_bytes);
}

/// Whether two command runs hold the same values.
pub open spec fn same_run(a: CommandRun, b: CommandRun) -> bool {
    &&& strings_view(a.command@) == strings_view(b.command@)
    &&& a.exit_code == b.exit_code
    &&& a.elapsed_ms_bits == b.elapsed_ms_bits
    &&& a.stdout@ == b.stdout@
    &&& a.stderr@ == b.stderr@
}

fn copy_run(run: &CommandRun) -> (c: CommandRun)
    ensures
        same_run(c, *run),
{
    let mut command: Vec<String> = Vec::new();
    let mut i: usize = 0;
    while i < run.command.len()
        invariant
            i <= run.command@.len(),
            strings_view(command@) == strings_view(run.command@).take(i as int),
        decreases run.command@.len() - i,
    {
        let ghost before = command@;
        command.push(copy_str(run.command[i].as_str()));
        assert(strings_view(command@) =~= strings_view(before).push(run.command@[i as int]@));
        assert(strings_view(command@) =~= strings_view(run.command@).take(i + 1));
        i = i + 1;
    }
    assert(strings_view(run.command@).take(i as int) =~= strings_view(run.command@));
    CommandRun {
        command,
        exit_code: run.exit_code,
        elapsed_ms_bits: run.elapsed_ms_bits,
        stdout: copy_str(run.stdout.as_str()),
        stderr: copy_str(run.stderr.as_str()),
    }
}

/// Looks a metadata result up in memory at `now_ms`: a remembered result
/// computed from the current inputs is touched and returned; a stale one is
/// dropped; none otherwise.
pub fn lookup_metadata_result_cached(
    cache: &mut AccessCache<MetadataResultCacheEntry>,
    key: &String,
    manifest_size_bytes: u64,
    manifest_modified_unix_ms: u64,
    lock_hash: &str,
    workspace_manifests_hash: &str,
    now_ms: u64,
) -> (r: Option<CommandRun>)
    requires
        old(cache).wf(),
    ensures
        final(cache).wf(),
        ({
            let m = old(cache)@;
            let fresh = m.contains_key(key@) && m[key@].0.manifest_size_bytes == manifest_size_bytes
                && m[key@].0.manifest_modified_unix_ms == manifest_modified_unix_ms
                && m[key@].0.lock_hash@ == lock_hash@ && m[key@].0.workspace_manifests_hash@
                == workspace_manifests_hash@;
            &&& fresh ==> r is Some && same_run(r->0, m[key@].0.run) && final(cache)@ == m.insert(
                key@,
                (m[key@].0, now_ms),
            )
            &&& !fresh ==> r is None && final(cache)@ == m.remove(key@)
        }),
{
    let hit = match cache.get(key) {
        Some(entry) => if metadata_cache_entry_matches(
            entry,
            manifest_size_bytes,
            manifest_modified_unix_ms,
            lock_hash,
            workspace_manifests_hash,
        ) {
            Some(copy_run(&entry.run))
        } else {
            None
        },
        None => None,
    };
    match hit {
        Some(run) => {
            cache.touch(key, now_ms);
            Some(run)
        },
        None => {
            cache.remove(key);
            None
        },
    }
}

/// Remembers a metadata result at `now_ms` with its estimated size, then
/// evicts within the entry and byte budgets.
pub fn remember_metadata_result(
    cache: &mut AccessCache<MetadataResultCacheEntry>,
    key: String,
    entry: MetadataResultCacheEntry,
    now_ms: u64,
    max_entries: usize,
    max_bytes: u64,
)
    requires
        old(cache).wf(),
    ensures
        final(cache).wf(),
        ({
            let m = old(cache)@.insert(key@, (entry, now_ms));
            &&& final(cache)@ <= m
            &&& within_budget(final(cache)@, max_entries as nat, max_bytes)
            &&& forall|gone: Seq<char>, kept: Seq<char>|
                #![trigger m.contains_key(gone), final(cache)@.contains_key(kept)]
                m.contains_key(gone) && !final(cache)@.contains_key(gone)
                    && final(cache)@.contains_key(kept) ==> access_of(m, gone) <= access_of(
                    final(cache)@,
                    kept,
                )
            &&& final(cache)@ != m ==> exists|g: Seq<char>|
                m.contains_key(g) && !final(cache)@.contains_key(g) && !within_budget(
                    #[trigger] final(cache)@.insert(g, m[g]),
                    max_entries as nat,
                    max_bytes,
                )
        }),
{
    cache.insert(key, entry, now_ms);
    cache.evict_oldest_within(max_entries, max_bytes);
}

/// What the workspace manifests hash digests: a domain tag, then per
/// manifest (sorted by path) its workspace-relative path, size and
/// modification time in decimal, each followed by a newline.
pub open spec fn manifests_hash_bytes(manifests: Seq<(String, u64, u64)>) -> Seq<u8>
    decreases manifests.len(),
{
    if manifests.len() == 0 {
        encode_utf8("uc-metadata-workspace-manifests-v1"@)
    } else {
        let m = manifests.last();
        manifests_hash_bytes(manifests.drop_last()) + encode_utf8(m.0@) + seq![0x0au8] + encode_utf8(
            crate::native_plan::decimal(m.1 as nat),
        ) + seq![0x0au8] + encode_utf8(crate::native_plan::decimal(m.2 as nat)) + seq![0x0au8]
    }
}

/// The hash of the workspace's manifests that a metadata result depends
/// on: each manifest's relative path, size and modification time, in the
/// order given (sorted by path).
pub fn workspace_manifests_hash(manifests: &Vec<(String, u64, u64)>) -> (h: String)
    ensures
        crate::hashing::is_hex_digest(h@),
        h@ == crate::hashing::blake3_hex_digest(manifests_hash_bytes(manifests@)),
{
    let mut data: Vec<u8> = Vec::new();
    crate::hashing::append_bytes(&mut data, "uc-metadata-workspace-manifests-v1".as_bytes());
    let mut i: usize = 0;
    assert(manifests@.take(0) =~= Seq::<(String, u64, u64)>::empty());
    while i < manifests.len()
        invariant
            i <= manifests@.len(),
            data@ == manifests_hash_bytes(manifests@.take(i as int)),
        decreases manifests@.len() - i,
    {
        let m = &manifests[i];
        crate::hashing::append_bytes(&mut data, m.0.as_str().as_bytes());
        data.push(0x0a);
        let size = crate::native_plan::decimal_string(m.1);
        crate::hashing::append_bytes(&mut data, size.as_str().as_bytes());
        data.push(0x0a);
        let mtime = crate::native_plan::decimal_string(m.2);
        crate::hashing::append_bytes(&mut data, mtime.as_str().as_bytes());
        data.push(0x0a);
        proof {
            assert(manifests@.take(i + 1).drop_last() =~= manifests@.take(i as int));
            assert(manifests@.take(i + 1).last() == manifests@[i as int]);
            assert(data@ =~= manifests_hash_bytes(manifests@.take(i + 1)));
        }
        i = i + 1;
    }
    assert(manifests@.take(i as int) =~= manifests@);
    crate::hashing::blake3_hex(data.as_slice())
}

} // verus!
