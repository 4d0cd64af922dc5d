use vstd::prelude::*;
use crate::hashing::{append_bytes, blake3_hex, blake3_hex_digest};
use crate::protocol::BuildCommonArgs;
use crate::store::FingerprintIndex;
use crate::text::str_eq;
use crate::errors::{plain_error, ErrorKind, UcError};
use crate::store::FingerprintIndexEntry;
use crate::string_set::StringSet;
use crate::paths::{normalize_fingerprint_path, normalized_path};
use crate::deproots::path_within;
use crate::text::string_from_range;
use crate::strorder::{lemma_sorted_distinct_of, sorted_distinct, sorted_distinct_indices, strictly_sorted};
use crate::text::chars_of;
use vstd::string::StringSliceAdditionalSpecFns;
use vstd::utf8::encode_utf8;

verus! {

/// Each feature's UTF-8 bytes followed by a comma, in order.
pub open spec fn features_bytes(fs: Seq<Seq<char>>) -> Seq<u8>
    decreases fs.len(),
{
    if fs.len() == 0 {
        Seq::empty()
    } else {
        features_bytes(fs.drop_last()) + encode_utf8(fs.last()) + seq![0x2cu8]
    }
}

/// The strings of `v` as character sequences.
pub open spec fn string_views(v: Seq<String>) -> Seq<Seq<char>> {
    v.map_values(|s: String| s@)
}

/// What the build fingerprint context digest hashes: a domain tag, the Scarb
/// version line, the build environment fingerprint, the manifest identity,
/// the profile, the package (`*` for all), the workspace and offline flags,
/// and the distinct features in sorted order, each followed by a comma.
pub open spec fn context_digest_input(
    manifest_identity: Seq<char>,
    package: Option<Seq<char>>,
    workspace: bool,
    offline: bool,
    features: Set<Seq<char>>,
    profile: Seq<char>,
    scarb_version: Seq<char>,
    build_env_fingerprint: Seq<char>,
) -> Seq<u8> {
    encode_utf8("uc-build-fingerprint-context-v1"@) + encode_utf8(scarb_version) + encode_utf8(
        build_env_fingerprint,
    ) + encode_utf8(manifest_identity) + encode_utf8(profile) + encode_utf8(
        match package {
            Some(p) => p,
            None => "*"@,
        },
    ) + encode_utf8(
        if workspace {
            "workspace"@
        } else {
            "package"@
        },
    ) + encode_utf8(
        if offline {
            "offline"@
        } else {
            "online"@
        },
    ) + features_bytes(sorted_distinct(features))
}

pub open spec fn opt_view(s: Option<String>) -> Option<Seq<char>> {
    match s {
        Some(x) => Some(x@),
        None => None,
    }
}

/// Appends the distinct features in sorted order, each followed by a comma.
pub(crate) fn append_sorted_features(data: &mut Vec<u8>, features: &Vec<String>)
    ensures
        final(data)@ == old(data)@ + features_bytes(sorted_distinct(string_views(features@).to_set())),
{
    let ghost prefix = data@;
    let mut items: Vec<Vec<char>> = Vec::new();
    let mut k: usize = 0;
    while k < features.len()
        invariant
            k <= features@.len(),
            items@.len() == k,
            forall|j: int| 0 <= j < k ==> (#[trigger] items@[j])@ == features@[j]@,
        decreases features@.len() - k,
    {
        items.push(chars_of(features[k].as_str()));
        k = k + 1;
    }
    assert(items@.map_values(|v: Vec<char>| v@) =~= string_views(features@));
    let order = sorted_distinct_indices(&items);
    let ghost ordered = order@.map_values(|q: usize| items@[q as int]@);
    let mut m: usize = 0;
    while m < order.len()
        invariant
            m <= order@.len(),
            items@.len() == features@.len(),
            forall|j: int| 0 <= j < items@.len() ==> (#[trigger] items@[j])@ == features@[j]@,
            forall|j: int| 0 <= j < order@.len() ==> #[trigger] order@[j] < items@.len(),
            ordered == order@.map_values(|q: usize| items@[q as int]@),
            data@ == prefix + features_bytes(ordered.take(m as int)),
        decreases order@.len() - m,
    {
        let idx = order[m];
        append_bytes(data, features[idx].as_str().as_bytes());
        data.push(0x2c);
        proof {
            assert(ordered.take(m + 1).drop_last() =~= ordered.take(m as int));
            assert(ordered[m as int] == features@[idx as int]@);
            assert(data@ =~= prefix + features_bytes(ordered.take(m + 1)));
        }
        m = m + 1;
    }
    proof {
        assert(ordered.take(m as int) =~= ordered);
        lemma_sorted_distinct_of(ordered);
    }
}

/// Digests everything besides the sources that decides a build's output.
pub fn build_fingerprint_context_digest(
    manifest_identity: &str,
    common: &BuildCommonArgs,
    profile: &str,
    scarb_version: &str,
    build_env_fingerprint: &str,
) -> (d: String)
    ensures
        crate::hashing::is_hex_digest(d@),
        d@ == blake3_hex_digest(
            context_digest_input(
                manifest_identity@,
                opt_view(common.package),
                common.workspace,
                common.offline,
                string_views(common.features@).to_set(),
                profile@,
                scarb_version@,
                build_env_fingerprint@,
            ),
        ),
{
    let mut data: Vec<u8> = Vec::new();
    append_bytes(&mut data, "uc-build-fingerprint-context-v1".as_bytes());
    append_bytes(&mut data, scarb_version.as_bytes());
    append_bytes(&mut data, build_env_fingerprint.as_bytes());
    append_bytes(&mut data, manifest_identity.as_bytes());
    append_bytes(&mut data, profile.as_bytes());
    match &common.package {
        Some(p) => append_bytes(&mut data, p.as_str().as_bytes()),
        None => append_bytes(&mut data, "*".as_bytes()),
    }
    if common.workspace {
        append_bytes(&mut data, "workspace".as_bytes());
    } else {
        append_bytes(&mut data, "package".as_bytes());
    }
    if common.offline {
        append_bytes(&mut data, "offline".as_bytes());
    } else {
        append_bytes(&mut data, "online".as_bytes());
    }
    append_sorted_features(&mut data, &common.features);
    blake3_hex(data.as_slice())
}

/// Listing features in another order, or some of them twice, does not
/// change the context digest: only the set of features counts.
pub proof fn lemma_context_digest_ignores_feature_order(
    manifest_identity: Seq<char>,
    package: Option<Seq<char>>,
    workspace: bool,
    offline: bool,
    features_a: Seq<Seq<char>>,
    features_b: Seq<Seq<char>>,
    profile: Seq<char>,
    scarb_version: Seq<char>,
    build_env_fingerprint: Seq<char>,
)
    requires
        features_a.to_set() == features_b.to_set(),
    ensures
        blake3_hex_digest(
            context_digest_input(
                manifest_identity,
                package,
                workspace,
                offline,
                features_a.to_set(),
                profile,
                scarb_version,
                build_env_fingerprint,
            ),
        ) == blake3_hex_digest(
            context_digest_input(
                manifest_identity,
                package,
                workspace,
                offline,
                features_b.to_set(),
                profile,
                scarb_version,
                build_env_fingerprint,
            ),
        ),
{
}

/// Milliseconds from `then` to `now`, zero when `now` is earlier.
pub open spec fn elapsed_ms(now: u64, then: u64) -> u64 {
    if now >= then {
        (now - then) as u64
    } else {
        0
    }
}

/// Whether the fingerprint last computed still holds without hashing: it was
/// computed in this context, it is not empty, every recorded directory still
/// has its recorded modification time, and every indexed file still has its
/// recorded size and modification time, modified outside the recheck window.
/// `dir_mtimes[i]` is what the `i`-th recorded directory shows now (none when
/// it is gone or no directory), `file_stats[j]` the size and modification
/// time of the `j`-th indexed file (none when it is gone or no file).
pub open spec fn hot_fingerprint_holds(
    index: FingerprintIndex,
    context_digest: Seq<char>,
    dir_mtimes: Seq<Option<u64>>,
    file_stats: Seq<Option<(u64, u64)>>,
    now_ms: u64,
    mtime_recheck_window_ms: u64,
) -> bool {
    &&& index.context_digest is Some && index.context_digest->0@ == context_digest
    &&& index.last_fingerprint is Some && index.last_fingerprint->0@.len() > 0
    &&& forall|i: int|
        0 <= i < index.directories@.len() ==> #[trigger] dir_mtimes[i] == Some(
            index.directories@[i].1,
        )
    &&& forall|j: int|
        0 <= j < index.entries@.len() ==> file_unchanged(
            #[trigger] file_stats[j],
            index.entries@[j].1,
            now_ms,
            mtime_recheck_window_ms,
        )
}

/// Whether a file shows the size and modification time an index entry
/// recorded, modified outside the recheck window.
pub open spec fn file_unchanged(
    stat: Option<(u64, u64)>,
    entry: crate::store::FingerprintIndexEntry,
    now_ms: u64,
    mtime_recheck_window_ms: u64,
) -> bool {
    match stat {
        Some((size, modified)) => size == entry.size_bytes && modified == entry.modified_unix_ms
            && elapsed_ms(now_ms, modified) > mtime_recheck_window_ms,
        None => false,
    }
}

/// The last fingerprint is reused only when nothing it covers moved: the
/// index was made in this context and names a fingerprint, every recorded
/// directory shows its recorded modification time, and every indexed file
/// still exists with exactly its recorded size and modification time, that
/// time lying outside the recheck window. A file edited in place (same
/// size, new time), a file gone, or a fresh modification forces a new
/// fingerprint.
pub proof fn lemma_hot_reuse_needs_unchanged_files(
    index: FingerprintIndex,
    context_digest: Seq<char>,
    dir_mtimes: Seq<Option<u64>>,
    file_stats: Seq<Option<(u64, u64)>>,
    now_ms: u64,
    mtime_recheck_window_ms: u64,
)
    requires
        hot_fingerprint_holds(index, context_digest, dir_mtimes, file_stats, now_ms, mtime_recheck_window_ms),
    ensures
        index.context_digest == Some(index.context_digest->0) && index.context_digest->0@ == context_digest,
        index.last_fingerprint is Some,
        forall|i: int| 0 <= i < index.directories@.len() ==> #[trigger] dir_mtimes[i] == Some(index.directories@[i].1),
        forall|j: int|
            0 <= j < index.entries@.len() ==> #[trigger] file_stats[j] == Some(
                (index.entries@[j].1.size_bytes, index.entries@[j].1.modified_unix_ms),
            ) && now_ms >= index.entries@[j].1.modified_unix_ms && now_ms - index.entries@[j].1.modified_unix_ms
                > mtime_recheck_window_ms,
{
    assert forall|j: int| 0 <= j < index.entries@.len() implies #[trigger] file_stats[j] == Some(
        (index.entries@[j].1.size_bytes, index.entries@[j].1.modified_unix_ms),
    ) && now_ms >= index.entries@[j].1.modified_unix_ms && now_ms - index.entries@[j].1.modified_unix_ms
        > mtime_recheck_window_ms by {
        assert(file_unchanged(file_stats[j], index.entries@[j].1, now_ms, mtime_recheck_window_ms));
    }
}

/// Reuses the fingerprint last computed when nothing it covers can have
/// changed; none otherwise.
pub fn try_reuse_hot_fingerprint(
    index: &FingerprintIndex,
    context_digest: &str,
    dir_mtimes: &Vec<Option<u64>>,
    file_stats: &Vec<Option<(u64, u64)>>,
    now_ms: u64,
    mtime_recheck_window_ms: u64,
) -> (r: Option<String>)
    requires
        dir_mtimes@.len() == index.directories@.len(),
        file_stats@.len() == index.entries@.len(),
    ensures
        hot_fingerprint_holds(
            *index,
            context_digest@,
            dir_mtimes@,
            file_stats@,
            now_ms,
            mtime_recheck_window_ms,
        ) ==> r is Some && r->0@ == index.last_fingerprint->0@,
        !hot_fingerprint_holds(
            *index,
            context_digest@,
            dir_mtimes@,
            file_stats@,
            now_ms,
            mtime_recheck_window_ms,
        ) ==> r is None,
        r is Some ==> forall|j: int|
            0 <= j < index.entries@.len() ==> #[trigger] file_stats@[j] == Some(
                (index.entries@[j].1.size_bytes, index.entries@[j].1.modified_unix_ms),
            ),
{
    proof {
        if hot_fingerprint_holds(*index, context_digest@, dir_mtimes@, file_stats@, now_ms, mtime_recheck_window_ms) {
            lemma_hot_reuse_needs_unchanged_files(*index, context_digest@, dir_mtimes@, file_stats@, now_ms, mtime_recheck_window_ms);
        }
    }
    match &index.context_digest {
        Some(d) => {
            if !str_eq(d.as_str(), context_digest) {
                return None;
            }
        },
        None => {
            return None;
        },
    }
    let last = match &index.last_fingerprint {
        Some(l) => l,
        None => {
            return None;
        },
    };
    let lc = chars_of(last.as_str());
    if lc.len() == 0 {
        return None;
    }
    let mut i: usize = 0;
    while i < index.directories.len()
        invariant
            i <= index.directories@.len(),
            dir_mtimes@.len() == index.directories@.len(),
            forall|k: int|
                0 <= k < i ==> #[trigger] dir_mtimes@[k] == Some(index.directories@[k].1),
        decreases index.directories@.len() - i,
    {
        match dir_mtimes[i] {
            Some(t) => {
                if t != index.directories[i].1 {
                    return None;
                }
            },
            None => {
                return None;
            },
        }
        i = i + 1;
    }
    let mut j: usize = 0;
    while j < index.entries.len()
        invariant
            j <= index.entries@.len(),
            file_stats@.len() == index.entries@.len(),
            forall|k: int|
                0 <= k < j ==> file_unchanged(
                    #[trigger] file_stats@[k],
                    index.entries@[k].1,
                    now_ms,
                    mtime_recheck_window_ms,
                ),
        decreases index.entries@.len() - j,
    {
        match file_stats[j] {
            Some((size, modified)) => {
                if size != index.entries[j].1.size_bytes || modified
                    != index.entries[j].1.modified_unix_ms {
                    return None;
                }
                if now_ms.saturating_sub(modified) <= mtime_recheck_window_ms {
                    return None;
                }
            },
            None => {
                return None;
            },
        }
        j = j + 1;
    }
    Some(last.clone())
}

/// Whether a source file's indexed digest can stand for it without hashing
/// it again: it has the indexed size and modification time and was modified
/// outside the recheck window.
pub open spec fn reuse_indexed_hash(
    cached: Option<FingerprintIndexEntry>,
    size_bytes: u64,
    modified_unix_ms: u64,
    now_ms: u64,
    mtime_recheck_window_ms: u64,
) -> bool {
    match cached {
        Some(e) => e.size_bytes == size_bytes && e.modified_unix_ms == modified_unix_ms
            && elapsed_ms(now_ms, modified_unix_ms) > mtime_recheck_window_ms,
        None => false,
    }
}

/// An indexed digest is reused only for a file whose size and modification
/// time are exactly the recorded ones, modified longer ago than the
/// recheck window.
pub proof fn lemma_indexed_hash_reused_only_when_unchanged(
    cached: Option<FingerprintIndexEntry>,
    size_bytes: u64,
    modified_unix_ms: u64,
    now_ms: u64,
    mtime_recheck_window_ms: u64,
)
    requires
        reuse_indexed_hash(cached, size_bytes, modified_unix_ms, now_ms, mtime_recheck_window_ms),
    ensures
        cached is Some,
        cached->0.size_bytes == size_bytes,
        cached->0.modified_unix_ms == modified_unix_ms,
        now_ms >= modified_unix_ms && now_ms - modified_unix_ms > mtime_recheck_window_ms,
{
}

/// Decides whether a file's indexed digest is reused.
pub fn should_reuse_indexed_file_hash(
    cached: Option<&FingerprintIndexEntry>,
    size_bytes: u64,
    modified_unix_ms: u64,
    now_ms: u64,
    mtime_recheck_window_ms: u64,
) -> (b: bool)
    ensures
        b == reuse_indexed_hash(
            match cached {
                Some(e) => Some(*e),
                None => None,
            },
            size_bytes,
            modified_unix_ms,
            now_ms,
            mtime_recheck_window_ms,
        ),
{
    match cached {
        Some(e) => {
            let recent = now_ms.saturating_sub(modified_unix_ms) <= mtime_recheck_window_ms;
            e.size_bytes == size_bytes && e.modified_unix_ms == modified_unix_ms && !recent
        },
        None => false,
    }
}

/// Adds one source file to the fingerprint budget: a file over the per-file
/// limit is refused, and so is a running total (summed with saturation) over
/// the total limit; returns the new running total.
pub fn charge_fingerprint_budget(
    size_bytes: u64,
    max_file_bytes: u64,
    total_bytes: u64,
    max_total_bytes: u64,
) -> (r: Result<u64, UcError>)
    ensures
        ({
            let t = if total_bytes as int + size_bytes as int > u64::MAX {
                u64::MAX
            } else {
                (total_bytes + size_bytes) as u64
            };
            &&& size_bytes > max_file_bytes ==> r is Err && r->Err_0.kind == (ErrorKind::FingerprintFileTooLarge {
                size_bytes,
                limit_bytes: max_file_bytes,
            })
            &&& size_bytes <= max_file_bytes && t > max_total_bytes ==> r is Err && r->Err_0.kind
                == (ErrorKind::FingerprintBudgetExceeded {
                total_bytes: t,
                limit_bytes: max_total_bytes,
            })
            &&& size_bytes <= max_file_bytes && t <= max_total_bytes ==> r == Ok::<u64, UcError>(t)
        }),
{
    if size_bytes > max_file_bytes {
        return Err(
            plain_error(
                ErrorKind::FingerprintFileTooLarge { size_bytes, limit_bytes: max_file_bytes },
            ),
        );
    }
    let t = total_bytes.saturating_add(size_bytes);
    if t > max_total_bytes {
        return Err(
            plain_error(
                ErrorKind::FingerprintBudgetExceeded { total_bytes: t, limit_bytes: max_total_bytes },
            ),
        );
    }
    Ok(t)
}

/// Each file's key, `:`, its digest and a newline, in order, as UTF-8.
pub open spec fn file_lines_bytes(files: Seq<(String, String)>) -> Seq<u8>
    decreases files.len(),
{
    if files.len() == 0 {
        Seq::empty()
    } else {
        file_lines_bytes(files.drop_last()) + encode_utf8(files.last().0@) + seq![0x3au8]
            + encode_utf8(files.last().1@) + seq![0x0au8]
    }
}

/// What the build fingerprint hashes: a domain tag, the context digest and
/// one line per source file.
pub open spec fn build_fingerprint_input(context_digest: Seq<char>, files: Seq<(String, String)>) -> Seq<
    u8,
> {
    encode_utf8("uc-build-fingerprint-v3"@) + encode_utf8(context_digest) + file_lines_bytes(files)
}

/// The build fingerprint of sources given as (key, digest) pairs in key
/// order, in the given context.
pub fn compute_build_fingerprint(context_digest: &str, files: &Vec<(String, String)>) -> (f: String)
    ensures
        crate::hashing::is_hex_digest(f@),
        f@ == blake3_hex_digest(build_fingerprint_input(context_digest@, files@)),
{
    let mut data: Vec<u8> = Vec::new();
    append_bytes(&mut data, "uc-build-fingerprint-v3".as_bytes());
    append_bytes(&mut data, context_digest.as_bytes());
    let ghost prefix = data@;
    let mut i: usize = 0;
    while i < files.len()
        invariant
            i <= files@.len(),
            data@ == prefix + file_lines_bytes(files@.take(i as int)),
        decreases files@.len() - i,
    {
        append_bytes(&mut data, files[i].0.as_str().as_bytes());
        data.push(0x3a);
        append_bytes(&mut data, files[i].1.as_str().as_bytes());
        data.push(0x0a);
        proof {
            assert(files@.take(i + 1).drop_last() =~= files@.take(i as int));
            assert(data@ =~= prefix + file_lines_bytes(files@.take(i + 1)));
        }
        i = i + 1;
    }
    assert(files@.take(i as int) =~= files@);
    blake3_hex(data.as_slice())
}

/// Records the workspace root (`.`) and every parent directory of a
/// workspace-relative source path, normalised, as directories whose changes void the fingerprint.
pub fn track_fingerprint_directories_for_relative_path(tracked_directories: &mut StringSet, relative_path: &str)
    ensures
        final(tracked_directories)@ == old(tracked_directories)@.insert("."@).union(
            Set::new(
                |d: Seq<char>|
                    exists|k: int|
                        0 < k < relative_path@.len() && relative_path@[k] == '/' && d
                            == #[trigger] normalized_path(relative_path@.take(k)),
            ),
        ),
{
    let ghost p = relative_path@;
    let ghost parents = Set::new(
        |d: Seq<char>|
            exists|k: int| 0 < k < p.len() && p[k] == '/' && d == #[trigger] normalized_path(p.take(k)),
    );
    let ghost start = tracked_directories@.insert("."@);
    tracked_directories.insert(String::from_str("."));
    let chars = chars_of(relative_path);
    let mut k: usize = 1;
    while k < chars.len()
        invariant
            1 <= k,
            k <= chars@.len() || k == 1,
            chars@ == p,
            tracked_directories@ == start.union(
                Set::new(
                    |d: Seq<char>|
                        exists|j: int|
                            0 < j < k && p[j] == '/' && d == #[trigger] normalized_path(p.take(j)),
                ),
            ),
        decreases chars@.len() - k,
    {
        let ghost before = tracked_directories@;
        if chars[k] == '/' {
            let prefix = string_from_range(&chars, 0, k);
            let n = normalize_fingerprint_path(prefix.as_str());
            assert(prefix@ =~= p.take(k as int));
            tracked_directories.insert(n);
        }
        proof {
            assert(tracked_directories@ =~= start.union(
                Set::new(
                    |d: Seq<char>|
                        exists|j: int|
                            0 < j < k + 1 && p[j] == '/' && d == #[trigger] normalized_path(
                                p.take(j),
                            ),
                ),
            )) by {
                assert forall|d: Seq<char>| tracked_directories@.contains(d) == start.union(
                    Set::new(
                        |d: Seq<char>|
                            exists|j: int|
                                0 < j < k + 1 && p[j] == '/' && d == #[trigger] normalized_path(
                                    p.take(j),
                                ),
                    ),
                ).contains(d) by {
                    if chars@[k as int] == '/' && d == normalized_path(p.take(k as int)) {
                        assert(p[k as int] == '/');
                    }
                }
            }
        }
        k = k + 1;
    }
    proof {
        if chars@.len() == 0 {
            assert(parents =~= Set::<Seq<char>>::empty());
            assert forall|d: Seq<char>| #[trigger] tracked_directories@.contains(d) == start.contains(
                d,
            ) by {}
            assert(tracked_directories@ =~= start.union(parents));
        } else {
            assert(k == p.len());
            assert forall|d: Seq<char>| #[trigger] tracked_directories@.contains(d) == start.union(
                parents,
            ).contains(d) by {
                if parents.contains(d) {
                    let j = choose|j: int|
                        0 < j < p.len() && p[j] == '/' && d == #[trigger] normalized_path(p.take(j));
                    assert(0 < j < k);
                }
            }
            assert(tracked_directories@ =~= start.union(parents));
        }
    }
}

/// The parent directories of a path of names separated by single `/`s: the
/// part before each separator after the first character, and the root of an
/// absolute path below it.
pub open spec fn parent_dirs(p: Seq<char>) -> Set<Seq<char>> {
    Set::new(
        |d: Seq<char>|
            (exists|k: int| 0 < k < p.len() && p[k] == '/' && d == #[trigger] p.take(k)) || (p.len()
                > 1 && p[0] == '/' && d == seq!['/']),
    )
}

/// Records, normalised, every parent directory of a file under an external
/// path dependency root that lies within that root.
pub fn track_fingerprint_directories_for_external_path(
    tracked_directories: &mut StringSet,
    external_root: &str,
    file_path: &str,
)
    ensures
        final(tracked_directories)@ == old(tracked_directories)@.union(
            parent_dirs(file_path@).filter(|d: Seq<char>| path_within(d, external_root@)).map(
                |d: Seq<char>| normalized_path(d),
            ),
        ),
{
    let ghost p = file_path@;
    let ghost root = external_root@;
    let ghost start = tracked_directories@;
    let ghost target = parent_dirs(p).filter(|d: Seq<char>| path_within(d, root)).map(
        |d: Seq<char>| normalized_path(d),
    );
    let chars = chars_of(file_path);
    let rv = chars_of(external_root);
    let mut k: usize = 1;
    while k < chars.len()
        invariant
            1 <= k,
            k <= chars@.len() || k == 1,
            chars@ == p,
            rv@ == root,
            tracked_directories@ == start.union(
                Set::new(
                    |d: Seq<char>|
                        exists|j: int|
                            0 < j < k && p[j] == '/' && path_within(p.take(j), root) && d
                                == #[trigger] normalized_path(p.take(j)),
                ),
            ),
        decreases chars@.len() - k,
    {
        if chars[k] == '/' {
            let prefix = string_from_range(&chars, 0, k);
            let pv = chars_of(prefix.as_str());
            assert(prefix@ =~= p.take(k as int));
            if crate::deproots::path_within_exec(&pv, &rv) {
                let n = normalize_fingerprint_path(prefix.as_str());
                tracked_directories.insert(n);
            }
        }
        proof {
            assert forall|d: Seq<char>| #[trigger] tracked_directories@.contains(d) == start.union(
                Set::new(
                    |d: Seq<char>|
                        exists|j: int|
                            0 < j < k + 1 && p[j] == '/' && path_within(p.take(j), root) && d
                                == #[trigger] normalized_path(p.take(j)),
                ),
            ).contains(d) by {
                if chars@[k as int] == '/' && path_within(p.take(k as int), root) && d
                    == normalized_path(p.take(k as int)) {
                    assert(p[k as int] == '/');
                }
            }
            assert(tracked_directories@ =~= start.union(
                Set::new(
                    |d: Seq<char>|
                        exists|j: int|
                            0 < j < k + 1 && p[j] == '/' && path_within(p.take(j), root) && d
                                == #[trigger] normalized_path(p.take(j)),
                ),
            ));
        }
        k = k + 1;
    }
    let slash = chars_of("/");
    proof {
        reveal_strlit("/");
        assert(slash@ =~= seq!['/']);
    }
    let mut root_added = false;
    if chars.len() > 1 && chars[0] == '/' && crate::deproots::path_within_exec(&slash, &rv) {
        tracked_directories.insert(String::from_str("/"));
        root_added = true;
    }
    proof {
        assert(normalized_path(seq!['/']) =~= seq!['/']) by {
            assert(seq!['/'].len() < 4);
        }
        assert forall|d: Seq<char>| #[trigger] tracked_directories@.contains(d) == start.union(
            target,
        ).contains(d) by {
            if target.contains(d) {
                let e = choose|e: Seq<char>|
                    parent_dirs(p).filter(|d: Seq<char>| path_within(d, root)).contains(e)
                        && normalized_path(e) == d;
                if e == seq!['/'] && !(exists|k2: int| 0 < k2 < p.len() && p[k2] == '/' && e
                    == #[trigger] p.take(k2)) {
                    assert(root_added);
                } else {
                    let j = choose|j: int| 0 < j < p.len() && p[j] == '/' && e == #[trigger] p.take(j);
                    assert(0 < j < k);
                }
            }
            if tracked_directories@.contains(d) && !start.contains(d) {
                if root_added && d == seq!['/'] {
                    assert(parent_dirs(p).contains(seq!['/']));
                    assert(parent_dirs(p).filter(|d: Seq<char>| path_within(d, root)).contains(
                        seq!['/'],
                    ));
                } else {
                    let j = choose|j: int|
                        0 < j < k && p[j] == '/' && path_within(p.take(j), root) && d
                            == #[trigger] normalized_path(p.take(j));
                    assert(parent_dirs(p).contains(p.take(j)));
                    assert(parent_dirs(p).filter(|d: Seq<char>| path_within(d, root)).contains(
                        p.take(j),
                    ));
                }
            }
        }
        assert(tracked_directories@ =~= start.union(target));
    }
}

/// The build fingerprint sees a source file only through its key and its
/// digest: file lists that agree on both give the same fingerprint. With
/// `lemma_semantic_hash_ignores_comment_text_and_trailing_blank`, Cairo
/// sources that differ only in comment text or trailing white space give
/// the same digests, and so the same fingerprint.
pub proof fn lemma_fingerprint_sees_keys_and_digests(
    context_digest: Seq<char>,
    a: Seq<(String, String)>,
    b: Seq<(String, String)>,
)
    requires
        a.len() == b.len(),
        forall|i: int| 0 <= i < a.len() ==> (#[trigger] a[i]).0@ == b[i].0@ && a[i].1@ == b[i].1@,
    ensures
        build_fingerprint_input(context_digest, a) == build_fingerprint_input(context_digest, b),
    decreases a.len(),
{
    lemma_file_lines_agree(a, b);
}

/// Editing only the text of comments (no newline, `/` or `*` edited in or
/// out) and the trailing white space of Cairo sources keeps the build
/// fingerprint: file lists with the same keys whose digests are the
/// semantic hashes of such sources give the same fingerprint.
pub proof fn lemma_fingerprint_ignores_comment_text_and_trailing_blank(
    context_digest: Seq<char>,
    a: Seq<(String, String)>,
    b: Seq<(String, String)>,
    code_a: Seq<Seq<u8>>,
    code_b: Seq<Seq<u8>>,
    tail_a: Seq<Seq<u8>>,
    tail_b: Seq<Seq<u8>>,
)
    requires
        a.len() == b.len(),
        code_a.len() == a.len() && code_b.len() == a.len(),
        tail_a.len() == a.len() && tail_b.len() == a.len(),
        forall|i: int|
            0 <= i < a.len() ==> {
                &&& (#[trigger] a[i]).0@ == b[i].0@
                &&& a[i].1@ == crate::hashing::semantic_source_hash(code_a[i] + tail_a[i])
                &&& b[i].1@ == crate::hashing::semantic_source_hash(code_b[i] + tail_b[i])
                &&& crate::comments::differ_in_comment_text(code_a[i], code_b[i])
                &&& crate::comments::all_blank(tail_a[i])
                &&& crate::comments::all_blank(tail_b[i])
            },
    ensures
        build_fingerprint_input(context_digest, a) == build_fingerprint_input(context_digest, b),
{
    assert forall|i: int| 0 <= i < a.len() implies (#[trigger] a[i]).0@ == b[i].0@ && a[i].1@
        == b[i].1@ by {
        assert(a[i].1@ == crate::hashing::semantic_source_hash(code_a[i] + tail_a[i]));
        crate::hashing::lemma_semantic_hash_ignores_comment_text_and_trailing_blank(
            code_a[i],
            code_b[i],
            tail_a[i],
            tail_b[i],
        );
    }
    lemma_file_lines_agree(a, b);
}

proof fn lemma_file_lines_agree(a: Seq<(String, String)>, b: Seq<(String, String)>)
    requires
        a.len() == b.len(),
        forall|i: int| 0 <= i < a.len() ==> (#[trigger] a[i]).0@ == b[i].0@ && a[i].1@ == b[i].1@,
    ensures
        file_lines_bytes(a) == file_lines_bytes(b),
    decreases a.len(),
{
    if a.len() > 0 {
        let da = a.drop_last();
        let db = b.drop_last();
        assert forall|i: int| 0 <= i < da.len() implies (#[trigger] da[i]).0@ == db[i].0@ && da[i].1@
            == db[i].1@ by {
            assert(da[i] == a[i] && db[i] == b[i]);
        }
        lemma_file_lines_agree(da, db);
        assert(a.last() == a[a.len() - 1] && b.last() == b[b.len() - 1]);
    }
}

} // verus!
