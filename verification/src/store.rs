use vstd::prelude::*;
use crate::access_cache::{evicted_oldest, AccessCache};
use crate::paths::{normalize_fingerprint_path, normalized_path};
use crate::text::{ascii_lowercase, chars_of, eq_ignore_ascii_case, lowercase_range, str_eq, str_eq_ignore_ascii_case, string_from_chars};

verus! {

/// One artifact of a cached build: where it goes under the target
/// directory, its BLAKE3 digest and size, and where its object is stored.
#[derive(Debug, Clone)]
pub struct CachedArtifact {
    pub relative_path: String,
    pub blake3_hex: String,
    pub size_bytes: u64,
    pub object_rel_path: String,
}

/// A build cache entry: the fingerprint and profile it was built for and
/// the artifacts it produced.
#[derive(Debug, Clone)]
pub struct BuildCacheEntry {
    pub schema_version: u32,
    pub fingerprint: String,
    pub profile: String,
    pub artifacts: Vec<CachedArtifact>,
}

/// What the fingerprint index remembers of one source file.
#[derive(Debug, Clone)]
pub struct FingerprintIndexEntry {
    pub size_bytes: u64,
    pub modified_unix_ms: u64,
    pub blake3_hex: String,
}

/// The fingerprint index: per file and per tracked directory what was seen,
/// the context digest and the fingerprint last computed. Entries and
/// directories are kept in key order.
#[derive(Debug, Clone)]
pub struct FingerprintIndex {
    pub schema_version: u32,
    pub entries: Vec<(String, FingerprintIndexEntry)>,
    pub directories: Vec<(String, u64)>,
    pub context_digest: Option<String>,
    pub last_fingerprint: Option<String>,
}

/// What the artifact index remembers of one restored artifact.
#[derive(Debug, Clone)]
pub struct ArtifactIndexEntry {
    pub size_bytes: u64,
    pub modified_unix_ms: u64,
    pub blake3_hex: String,
}

/// The artifact index: per relative artifact path what was restored there.
#[derive(Debug, Clone)]
pub struct ArtifactIndex {
    pub schema_version: u32,
    pub entries: Vec<(String, ArtifactIndexEntry)>,
}

/// A build cache entry as read from a file of the given size and time.
#[derive(Debug, Clone)]
pub struct BuildEntryCacheEntry {
    pub file_size_bytes: u64,
    pub file_modified_unix_ms: u64,
    pub entry: BuildCacheEntry,
}

/// The digest of a cache object of the given size and modification time.
#[derive(Debug, Clone)]
pub struct CacheObjectHashMemoEntry {
    pub size_bytes: u64,
    pub modified_unix_ms: u64,
    pub blake3_hex: String,
}

pub const FINGERPRINT_INDEX_SCHEMA_VERSION: u32 = 2;

pub const ARTIFACT_INDEX_SCHEMA_VERSION: u32 = 1;

impl FingerprintIndex {
    /// An index of the current schema that knows nothing.
    pub fn empty() -> (i: Self)
        ensures
            i.schema_version == FINGERPRINT_INDEX_SCHEMA_VERSION,
            i.entries@.len() == 0,
            i.directories@.len() == 0,
            i.context_digest is None,
            i.last_fingerprint is None,
    {
        FingerprintIndex {
            schema_version: FINGERPRINT_INDEX_SCHEMA_VERSION,
            entries: Vec::new(),
            directories: Vec::new(),
            context_digest: None,
            last_fingerprint: None,
        }
    }
}

impl ArtifactIndex {
    /// An index of the current schema that knows nothing.
    pub fn empty() -> (i: Self)
        ensures
            i.schema_version == ARTIFACT_INDEX_SCHEMA_VERSION,
            i.entries@.len() == 0,
    {
        ArtifactIndex { schema_version: ARTIFACT_INDEX_SCHEMA_VERSION, entries: Vec::new() }
    }
}

/// The in-memory key of a fingerprint index file.
pub fn fingerprint_index_cache_key(path: &str) -> (k: String)
    ensures
        k@ == normalized_path(path@),
{
    normalize_fingerprint_path(path)
}

/// The in-memory key of an artifact index file.
pub fn artifact_index_cache_key(path: &str) -> (k: String)
    ensures
        k@ == normalized_path(path@),
{
    normalize_fingerprint_path(path)
}

/// The in-memory key of a build cache entry file.
pub fn build_entry_cache_key(path: &str) -> (k: String)
    ensures
        k@ == normalized_path(path@),
{
    normalize_fingerprint_path(path)
}

/// The in-memory key of a cache object's digest memo.
pub fn cache_object_hash_memo_key(path: &str) -> (k: String)
    ensures
        k@ == normalized_path(path@),
{
    normalize_fingerprint_path(path)
}

/// Evicts least recently used fingerprint indexes beyond `max_entries`.
pub fn evict_oldest_fingerprint_index_cache_entries(
    cache: &mut AccessCache<FingerprintIndex>,
    max_entries: usize,
)
    requires
        old(cache).wf(),
    ensures
        final(cache).wf(),
        evicted_oldest(old(cache)@, final(cache)@, max_entries as nat),
{
    cache.evict_oldest(max_entries);
}

/// Evicts least recently used artifact indexes beyond `max_entries`.
pub fn evict_oldest_artifact_index_cache_entries(
    cache: &mut AccessCache<ArtifactIndex>,
    max_entries: usize,
)
    requires
        old(cache).wf(),
    ensures
        final(cache).wf(),
        evicted_oldest(old(cache)@, final(cache)@, max_entries as nat),
{
    cache.evict_oldest(max_entries);
}

/// Evicts least recently used build entries beyond `max_entries`.
pub fn evict_oldest_build_entry_cache_entries(
    cache: &mut AccessCache<BuildEntryCacheEntry>,
    max_entries: usize,
)
    requires
        old(cache).wf(),
    ensures
        final(cache).wf(),
        evicted_oldest(old(cache)@, final(cache)@, max_entries as nat),
{
    cache.evict_oldest(max_entries);
}

/// Evicts least recently used object digests beyond `max_entries`.
pub fn evict_oldest_cache_object_hash_memo_entries(
    cache: &mut AccessCache<CacheObjectHashMemoEntry>,
    max_entries: usize,
)
    requires
        old(cache).wf(),
    ensures
        final(cache).wf(),
        evicted_oldest(old(cache)@, final(cache)@, max_entries as nat),
{
    cache.evict_oldest(max_entries);
}

/// Looks a fingerprint index up in memory; a hit counts as a use at `now_ms`.
pub fn load_fingerprint_index_cached<'a>(
    cache: &'a mut AccessCache<FingerprintIndex>,
    key: &String,
    now_ms: u64,
) -> (r: Option<&'a FingerprintIndex>)
    requires
        old(cache).wf(),
    ensures
        final(cache).wf(),
        old(cache)@.contains_key(key@) ==> final(cache)@ == old(cache)@.insert(
            key@,
            (old(cache)@[key@].0, now_ms),
        ) && r == Some(&old(cache)@[key@].0),
        !old(cache)@.contains_key(key@) ==> final(cache)@ == old(cache)@ && r is None,
{
    if cache.touch(key, now_ms) {
        cache.get(key)
    } else {
        None
    }
}

/// Looks an artifact index up in memory; a hit counts as a use at `now_ms`.
pub fn load_artifact_index_cached<'a>(
    cache: &'a mut AccessCache<ArtifactIndex>,
    key: &String,
    now_ms: u64,
) -> (r: Option<&'a ArtifactIndex>)
    requires
        old(cache).wf(),
    ensures
        final(cache).wf(),
        old(cache)@.contains_key(key@) ==> final(cache)@ == old(cache)@.insert(
            key@,
            (old(cache)@[key@].0, now_ms),
        ) && r == Some(&old(cache)@[key@].0),
        !old(cache)@.contains_key(key@) ==> final(cache)@ == old(cache)@ && r is None,
{
    if cache.touch(key, now_ms) {
        cache.get(key)
    } else {
        None
    }
}

/// Remembers a fingerprint index in memory, used at `now_ms`, then evicts
/// beyond `max_entries`.
pub fn store_fingerprint_index_cached(
    cache: &mut AccessCache<FingerprintIndex>,
    key: String,
    index: FingerprintIndex,
    now_ms: u64,
    max_entries: usize,
)
    requires
        old(cache).wf(),
    ensures
        final(cache).wf(),
        evicted_oldest(old(cache)@.insert(key@, (index, now_ms)), final(cache)@, max_entries as nat),
{
    cache.insert(key, index, now_ms);
    cache.evict_oldest(max_entries);
}

/// Remembers an artifact index in memory, used at `now_ms`, then evicts
/// beyond `max_entries`.
pub fn store_artifact_index_cached(
    cache: &mut AccessCache<ArtifactIndex>,
    key: String,
    index: ArtifactIndex,
    now_ms: u64,
    max_entries: usize,
)
    requires
        old(cache).wf(),
    ensures
        final(cache).wf(),
        evicted_oldest(old(cache)@.insert(key@, (index, now_ms)), final(cache)@, max_entries as nat),
{
    cache.insert(key, index, now_ms);
    cache.evict_oldest(max_entries);
}

/// Remembers a build cache entry read from a file of the given size and
/// modification time, used at `now_ms`, then evicts beyond `max_entries`.
pub fn store_build_entry_cached(
    cache: &mut AccessCache<BuildEntryCacheEntry>,
    key: String,
    file_size_bytes: u64,
    file_modified_unix_ms: u64,
    entry: BuildCacheEntry,
    now_ms: u64,
    max_entries: usize,
)
    requires
        old(cache).wf(),
    ensures
        final(cache).wf(),
        evicted_oldest(
            old(cache)@.insert(
                key@,
                (BuildEntryCacheEntry { file_size_bytes, file_modified_unix_ms, entry }, now_ms),
            ),
            final(cache)@,
            max_entries as nat,
        ),
{
    cache.insert(key, BuildEntryCacheEntry { file_size_bytes, file_modified_unix_ms, entry }, now_ms);
    cache.evict_oldest(max_entries);
}

/// Forgets the build cache entry of a file.
pub fn remove_build_entry_cached(cache: &mut AccessCache<BuildEntryCacheEntry>, key: &String)
    requires
        old(cache).wf(),
    ensures
        final(cache).wf(),
        final(cache)@ == old(cache)@.remove(key@),
{
    cache.remove(key);
}

/// Storing into a memo with room left keeps everything: when the memo held
/// fewer than `max_entries` entries, eviction after the store removes
/// nothing, so the stored entry stays under its key and a following lookup
/// finds it.
pub proof fn lemma_memo_store_keeps_entry(
    before: Map<Seq<char>, (CacheObjectHashMemoEntry, u64)>,
    after: Map<Seq<char>, (CacheObjectHashMemoEntry, u64)>,
    key: Seq<char>,
    entry: CacheObjectHashMemoEntry,
    now_ms: u64,
    max_entries: nat,
)
    requires
        before.dom().finite(),
        before.len() < max_entries,
        evicted_oldest(before.insert(key, (entry, now_ms)), after, max_entries),
    ensures
        after == before.insert(key, (entry, now_ms)),
        after.contains_key(key),
        after[key] == (entry, now_ms),
{
    let inserted = before.insert(key, (entry, now_ms));
    assert(inserted.dom() =~= before.dom().insert(key));
    assert(inserted.len() <= max_entries);
    assert(after.len() == inserted.len());
    assert forall|k: Seq<char>| inserted.contains_key(k) implies after.contains_key(k) by {
        if !after.contains_key(k) {
            assert(after.dom().subset_of(inserted.dom().remove(k)));
            vstd::set_lib::lemma_len_subset(after.dom(), inserted.dom().remove(k));
        }
    }
    assert(after =~= inserted);
}

/// The remembered digest of a cache object, if the object still has the
/// size and modification time it had when hashed; any hit on the key counts
/// as a use at `now_ms`.
pub fn cached_object_hash_if_fresh(
    cache: &mut AccessCache<CacheObjectHashMemoEntry>,
    key: &String,
    size_bytes: u64,
    modified_unix_ms: u64,
    now_ms: u64,
) -> (r: Option<String>)
    requires
        old(cache).wf(),
    ensures
        final(cache).wf(),
        old(cache)@.contains_key(key@) ==> final(cache)@ == old(cache)@.insert(
            key@,
            (old(cache)@[key@].0, now_ms),
        ),
        !old(cache)@.contains_key(key@) ==> final(cache)@ == old(cache)@,
        match r {
            Some(h) => old(cache)@.contains_key(key@) && old(cache)@[key@].0.size_bytes == size_bytes
                && old(cache)@[key@].0.modified_unix_ms == modified_unix_ms && h@ == old(
                cache,
            )@[key@].0.blake3_hex@,
            None => !old(cache)@.contains_key(key@) || old(cache)@[key@].0.size_bytes != size_bytes
                || old(cache)@[key@].0.modified_unix_ms != modified_unix_ms,
        },
{
    if !cache.touch(key, now_ms) {
        return None;
    }
    match cache.get(key) {
        Some(entry) => {
            if entry.size_bytes == size_bytes && entry.modified_unix_ms == modified_unix_ms {
                Some(entry.blake3_hex.clone())
            } else {
                None
            }
        },
        None => None,
    }
}

/// Remembers the digest of a cache object of the given size and modification
/// time (lowercased), used at `now_ms`, then evicts beyond `max_entries`.
pub fn store_cache_object_hash(
    cache: &mut AccessCache<CacheObjectHashMemoEntry>,
    key: String,
    size_bytes: u64,
    modified_unix_ms: u64,
    hash: &str,
    now_ms: u64,
    max_entries: usize,
)
    requires
        old(cache).wf(),
    ensures
        final(cache).wf(),
        exists|lowered: String|
            lowered@ == ascii_lowercase(hash@) && evicted_oldest(
                old(cache)@.insert(
                    key@,
                    (
                        CacheObjectHashMemoEntry {
                            size_bytes,
                            modified_unix_ms,
                            blake3_hex: lowered,
                        },
                        now_ms,
                    ),
                ),
                final(cache)@,
                max_entries as nat,
            ),
{
    let chars = chars_of(hash);
    let lower = lowercase_range(&chars, 0, chars.len());
    assert(chars@.subrange(0, chars@.len() as int) =~= chars@);
    let lowered = string_from_chars(&lower);
    let ghost l = lowered;
    let ghost before = cache@;
    cache.insert(
        key,
        CacheObjectHashMemoEntry { size_bytes, modified_unix_ms, blake3_hex: lowered },
        now_ms,
    );
    cache.evict_oldest(max_entries);
}

/// Whether an artifact index entry proves the file at its path current: it
/// records the expected size, the file's present size and modification time,
/// and exactly the expected digest.
pub fn artifact_index_entry_matches_expected(
    index_entry: &ArtifactIndexEntry,
    file_size_bytes: u64,
    file_modified_unix_ms: u64,
    expected_hash: &str,
    expected_size: u64,
) -> (b: bool)
    ensures
        b == (index_entry.size_bytes == expected_size && index_entry.size_bytes == file_size_bytes
            && index_entry.modified_unix_ms == file_modified_unix_ms && index_entry.blake3_hex@
            == expected_hash@),
{
    index_entry.size_bytes == expected_size && index_entry.size_bytes == file_size_bytes
        && index_entry.modified_unix_ms == file_modified_unix_ms && str_eq(
        index_entry.blake3_hex.as_str(),
        expected_hash,
    )
}

/// The position of the first entry under `key`, if any.
pub open spec fn first_index_of<V>(entries: Seq<(String, V)>, key: Seq<char>) -> int
    decreases entries.len(),
{
    if entries.len() == 0 {
        -1
    } else if entries.last().0@ == key && first_index_of(entries.drop_last(), key) == -1 {
        entries.len() - 1
    } else {
        first_index_of(entries.drop_last(), key)
    }
}

/// The first position of a key is a position of that key, and no earlier
/// position holds it.
pub proof fn lemma_first_index_of<V>(entries: Seq<(String, V)>, key: Seq<char>)
    ensures
        -1 <= first_index_of(entries, key) < entries.len(),
        first_index_of(entries, key) >= 0 ==> entries[first_index_of(entries, key)].0@ == key,
        forall|j: int|
            0 <= j < entries.len() && (first_index_of(entries, key) == -1 || j < first_index_of(
                entries,
                key,
            )) ==> #[trigger] entries[j].0@ != key,
    decreases entries.len(),
{
    if entries.len() > 0 {
        lemma_first_index_of(entries.drop_last(), key);
        assert forall|j: int|
            0 <= j < entries.len() && (first_index_of(entries, key) == -1 || j < first_index_of(
                entries,
                key,
            )) implies #[trigger] entries[j].0@ != key by {
            if j < entries.len() - 1 {
                assert(entries[j] == entries.drop_last()[j]);
            }
        }
    }
}

fn find_entry<V>(entries: &Vec<(String, V)>, key: &str) -> (r: Option<usize>)
    ensures
        match r {
            Some(i) => i < entries@.len() && i as int == first_index_of(entries@, key@),
            None => first_index_of(entries@, key@) == -1,
        },
{
    proof {
        lemma_first_index_of(entries@, key@);
    }
    let mut i: usize = 0;
    while i < entries.len()
        invariant
            i <= entries@.len(),
            -1 <= first_index_of(entries@, key@) < entries@.len(),
            first_index_of(entries@, key@) >= 0 ==> entries@[first_index_of(entries@, key@)].0@
                == key@,
            forall|j: int|
                0 <= j < entries@.len() && (first_index_of(entries@, key@) == -1 || j
                    < first_index_of(entries@, key@)) ==> #[trigger] entries@[j].0@ != key@,
            forall|j: int| 0 <= j < i ==> #[trigger] entries@[j].0@ != key@,
        decreases entries@.len() - i,
    {
        if str_eq(entries[i].0.as_str(), key) {
            return Some(i);
        }
        i = i + 1;
    }
    None
}

/// The entry that an artifact index keeps for `relative_path`, if any.
pub fn artifact_index_lookup<'a>(index: &'a ArtifactIndex, relative_path: &str) -> (r: Option<
    &'a ArtifactIndexEntry,
>)
    ensures
        match r {
            Some(e) => first_index_of(index.entries@, relative_path@) >= 0 && *e
                == index.entries@[first_index_of(index.entries@, relative_path@)].1,
            None => first_index_of(index.entries@, relative_path@) == -1,
        },
{
    match find_entry(&index.entries, relative_path) {
        Some(i) => Some(&index.entries[i].1),
        None => None,
    }
}

/// Records in the artifact index that the file at `relative_path` now has
/// the given size, modification time and digest.
pub fn upsert_artifact_index_entry_from_metadata(
    index: &mut ArtifactIndex,
    relative_path: &str,
    file_size_bytes: u64,
    file_modified_unix_ms: u64,
    expected_hash: &str,
)
    ensures
        final(index).schema_version == old(index).schema_version,
        exists|key: String, hash: String|
            key@ == relative_path@ && hash@ == expected_hash@ && {
                let e = (
                    key,
                    ArtifactIndexEntry {
                        size_bytes: file_size_bytes,
                        modified_unix_ms: file_modified_unix_ms,
                        blake3_hex: hash,
                    },
                );
                let i = first_index_of(old(index).entries@, relative_path@);
                final(index).entries@ == (if i >= 0 {
                    old(index).entries@.update(i, e)
                } else {
                    old(index).entries@.push(e)
                })
            },
{
    let kv = chars_of(relative_path);
    let key = string_from_chars(&kv);
    let hv = chars_of(expected_hash);
    let hash = string_from_chars(&hv);
    let e = (
        key,
        ArtifactIndexEntry {
            size_bytes: file_size_bytes,
            modified_unix_ms: file_modified_unix_ms,
            blake3_hex: hash,
        },
    );
    let ghost eg = e;
    match find_entry(&index.entries, relative_path) {
        Some(i) => {
            index.entries.set(i, e);
        },
        None => {
            index.entries.push(e);
        },
    }
    assert(eg.0@ == relative_path@ && eg.1.blake3_hex@ == expected_hash@);
}

/// Whether a cache object is intact: a regular file of the expected size
/// whose digest equals the expected one up to ASCII case.
pub fn cache_object_matches_expected(
    is_file: bool,
    size_bytes: u64,
    actual_hash: &str,
    expected_hash: &str,
    expected_size: u64,
) -> (b: bool)
    ensures
        b == (is_file && size_bytes == expected_size && eq_ignore_ascii_case(
            actual_hash@,
            expected_hash@,
        )),
{
    if !is_file || size_bytes != expected_size {
        return false;
    }
    str_eq_ignore_ascii_case(actual_hash, expected_hash)
}

} // verus!
