use vstd::prelude::*;
use crate::artifact_paths::{
    cache_object_path_check, clean_artifact_path, validate_cache_object_rel_path,
    validated_relative_artifact_path,
};
use crate::errors::{ErrorKind, UcError};
use crate::hints::{hex_digest_check, validate_hex_digest, MIN_HASH_LEN};
use crate::paths::{normalize_fingerprint_path, normalized_path};
use crate::store::{
    artifact_index_entry_matches_expected, artifact_index_lookup, first_index_of, ArtifactIndex,
    ArtifactIndexEntry, CachedArtifact,
};

verus! {

/// What is found at an artifact's place in the target directory.
#[derive(Clone, Copy, Debug)]
pub struct ArtifactObservation {
    pub is_file: bool,
    pub size_bytes: u64,
    pub modified_unix_ms: u64,
}

/// Whether the index entry proves the observed file to be the artifact.
pub open spec fn entry_proves(
    entry: ArtifactIndexEntry,
    o: ArtifactObservation,
    expected_hash: Seq<char>,
    expected_size: u64,
) -> bool {
    entry.size_bytes == expected_size && entry.size_bytes == o.size_bytes && entry.modified_unix_ms
        == o.modified_unix_ms && entry.blake3_hex@ == expected_hash
}

/// Whether the artifacts from position `i` on are all in place: each one's
/// digest and path are checked (an invalid one is an error), and each must
/// have an artifact index entry that proves the regular file at its place
/// current; the first artifact that is not in place answers false.
pub open spec fn materialized_from(
    index: ArtifactIndex,
    artifacts: Seq<CachedArtifact>,
    observed: Seq<Option<ArtifactObservation>>,
    i: int,
) -> Result<bool, ErrorKind>
    decreases artifacts.len() - i,
{
    if i < 0 || i >= artifacts.len() {
        Ok(true)
    } else {
        let a = artifacts[i];
        match hex_digest_check(a.blake3_hex@, MIN_HASH_LEN) {
            Err(k) => Err(k),
            Ok(()) => match clean_artifact_path(a.relative_path@) {
                Err(k) => Err(k),
                Ok(rel) => {
                    let k = first_index_of(index.entries@, normalized_path(rel));
                    if k < 0 {
                        Ok(false)
                    } else {
                        match observed[i] {
                            None => Ok(false),
                            Some(o) => if !o.is_file || !entry_proves(
                                index.entries@[k].1,
                                o,
                                a.blake3_hex@,
                                a.size_bytes,
                            ) {
                                Ok(false)
                            } else {
                                materialized_from(index, artifacts, observed, i + 1)
                            },
                        }
                    }
                },
            },
        }
    }
}

/// Whether what stands at an artifact's place is a regular file that an
/// index entry under the artifact's path records with the file's size and
/// modification time and the artifact's digest and size.
pub open spec fn in_place(index: ArtifactIndex, a: CachedArtifact, observed: Option<ArtifactObservation>) -> bool {
    &&& observed is Some
    &&& observed->0.is_file
    &&& observed->0.size_bytes == a.size_bytes
    &&& clean_artifact_path(a.relative_path@) is Ok
    &&& exists|k: int|
        0 <= k < index.entries@.len() && (#[trigger] index.entries@[k]).0@ == normalized_path(
            clean_artifact_path(a.relative_path@)->Ok_0,
        ) && index.entries@[k].1.size_bytes == observed->0.size_bytes
            && index.entries@[k].1.modified_unix_ms == observed->0.modified_unix_ms
            && index.entries@[k].1.blake3_hex@ == a.blake3_hex@
}

proof fn lemma_materialized_from_in_place(
    index: ArtifactIndex,
    artifacts: Seq<CachedArtifact>,
    observed: Seq<Option<ArtifactObservation>>,
    i: int,
)
    requires
        0 <= i,
        materialized_from(index, artifacts, observed, i) == Ok::<bool, ErrorKind>(true),
    ensures
        forall|j: int| i <= j < artifacts.len() ==> #[trigger] in_place(index, artifacts[j], observed[j]),
    decreases artifacts.len() - i,
{
    if i < artifacts.len() {
        let a = artifacts[i];
        let rel = clean_artifact_path(a.relative_path@)->Ok_0;
        let k = first_index_of(index.entries@, normalized_path(rel));
        crate::store::lemma_first_index_of(index.entries@, normalized_path(rel));
        assert(index.entries@[k].0@ == normalized_path(rel));
        assert(in_place(index, a, observed[i]));
        lemma_materialized_from_in_place(index, artifacts, observed, i + 1);
    }
}

/// The artifacts count as already in place only when every one of them is:
/// a regular file stands at its place, with its size, and the artifact
/// index has an entry under its path with that file's size and
/// modification time and the artifact's digest. One missing or changed
/// artifact is enough for a restore.
pub proof fn lemma_materialized_means_all_in_place(
    index: ArtifactIndex,
    artifacts: Seq<CachedArtifact>,
    observed: Seq<Option<ArtifactObservation>>,
)
    requires
        materialized_from(index, artifacts, observed, 0) == Ok::<bool, ErrorKind>(true),
    ensures
        forall|j: int| 0 <= j < artifacts.len() ==> #[trigger] in_place(index, artifacts[j], observed[j]),
{
    lemma_materialized_from_in_place(index, artifacts, observed, 0);
}

/// Whether a cached build's artifacts are already in the target directory,
/// so that restoring them can be skipped. `observed[i]` is what stands at
/// the `i`-th artifact's place (none when nothing does).
pub fn cached_artifacts_already_materialized(
    index: &ArtifactIndex,
    artifacts: &Vec<CachedArtifact>,
    observed: &Vec<Option<ArtifactObservation>>,
) -> (r: Result<bool, UcError>)
    requires
        observed@.len() == artifacts@.len(),
    ensures
        match materialized_from(*index, artifacts@, observed@, 0) {
            Ok(b) => r == Ok::<bool, UcError>(b),
            Err(k) => r is Err && r->Err_0.kind == k,
        },
        r == Ok::<bool, UcError>(true) ==> forall|j: int|
            0 <= j < artifacts@.len() ==> #[trigger] in_place(*index, artifacts@[j], observed@[j]),
{
    proof {
        if materialized_from(*index, artifacts@, observed@, 0) == Ok::<bool, ErrorKind>(true) {
            lemma_materialized_means_all_in_place(*index, artifacts@, observed@);
        }
    }
    let mut i: usize = 0;
    while i < artifacts.len()
        invariant
            i <= artifacts@.len(),
            observed@.len() == artifacts@.len(),
            materialized_from(*index, artifacts@, observed@, i as int) == materialized_from(
                *index,
                artifacts@,
                observed@,
                0,
            ),
        decreases artifacts@.len() - i,
    {
        let a = &artifacts[i];
        match validate_hex_digest(a.blake3_hex.as_str(), MIN_HASH_LEN) {
            Err(e) => {
                return Err(e);
            },
            Ok(()) => {},
        }
        let rel = match validated_relative_artifact_path(a.relative_path.as_str()) {
            Err(e) => {
                return Err(e);
            },
            Ok(rel) => rel,
        };
        let key = normalize_fingerprint_path(rel.as_str());
        let entry = match artifact_index_lookup(index, key.as_str()) {
            None => {
                return Ok(false);
            },
            Some(entry) => entry,
        };
        match observed[i] {
            None => {
                return Ok(false);
            },
            Some(o) => {
                if !o.is_file {
                    return Ok(false);
                }
                if !artifact_index_entry_matches_expected(
                    entry,
                    o.size_bytes,
                    o.modified_unix_ms,
                    a.blake3_hex.as_str(),
                    a.size_bytes,
                ) {
                    return Ok(false);
                }
            },
        }
        i = i + 1;
    }
    Ok(true)
}


/// The index key under which a cached artifact is restored, after checking
/// its digest, its cache object path and its relative path, in that order.
pub open spec fn restore_key(a: CachedArtifact) -> Result<Seq<char>, ErrorKind> {
    match hex_digest_check(a.blake3_hex@, MIN_HASH_LEN) {
        Err(k) => Err(k),
        Ok(()) => match cache_object_path_check(a.object_rel_path@) {
            Err(k) => Err(k),
            Ok(()) => match clean_artifact_path(a.relative_path@) {
                Err(k) => Err(k),
                Ok(rel) => Ok(normalized_path(rel)),
            },
        },
    }
}

/// Checks a cached artifact before restoring it and returns its index key.
pub fn validate_cached_artifact_for_restore(a: &CachedArtifact) -> (r: Result<String, UcError>)
    ensures
        match restore_key(*a) {
            Ok(k) => r is Ok && r->Ok_0@ == k,
            Err(k) => r is Err && r->Err_0.kind == k,
        },
{
    match validate_hex_digest(a.blake3_hex.as_str(), MIN_HASH_LEN) {
        Err(e) => {
            return Err(e);
        },
        Ok(()) => {},
    }
    match validate_cache_object_rel_path(a.object_rel_path.as_str()) {
        Err(e) => {
            return Err(e);
        },
        Ok(()) => {},
    }
    match validated_relative_artifact_path(a.relative_path.as_str()) {
        Err(e) => Err(e),
        Ok(rel) => Ok(normalize_fingerprint_path(rel.as_str())),
    }
}

/// What restoring does about a file already at an artifact's place.
#[derive(Clone, Copy, Debug, PartialEq, Eq, Structural)]
pub enum ExistingArtifactVerdict {
    /// The artifact index proves the file current: nothing to do.
    InPlace,
    /// The file may be the artifact: hash it and compare.
    HashToConfirm,
    /// Restore the artifact from its cache object.
    Restore,
}

/// The verdict on what stands at an artifact's place: restore when nothing
/// or no regular file is there; in place when the index entry under `key`
/// proves it; otherwise confirm by hashing when it has the expected size,
/// within the limit for hashing existing files; else restore.
pub open spec fn existing_verdict(
    index: ArtifactIndex,
    key: Seq<char>,
    observed: Option<ArtifactObservation>,
    expected_hash: Seq<char>,
    expected_size: u64,
    max_hash_bytes: u64,
) -> ExistingArtifactVerdict {
    match observed {
        None => ExistingArtifactVerdict::Restore,
        Some(o) => if !o.is_file {
            ExistingArtifactVerdict::Restore
        } else if first_index_of(index.entries@, key) >= 0 && entry_proves(
            index.entries@[first_index_of(index.entries@, key)].1,
            o,
            expected_hash,
            expected_size,
        ) {
            ExistingArtifactVerdict::InPlace
        } else if o.size_bytes == expected_size && o.size_bytes <= max_hash_bytes {
            ExistingArtifactVerdict::HashToConfirm
        } else {
            ExistingArtifactVerdict::Restore
        },
    }
}

/// An artifact counts as in place only when a regular file stands at its
/// place and an index entry under its key records that file's size and
/// modification time with the expected digest and size; a file is hashed to
/// confirm only when it is a regular file of the expected size within the
/// hashing limit; nothing there, or no regular file, means a restore.
pub proof fn lemma_existing_verdict_reasons(
    index: ArtifactIndex,
    key: Seq<char>,
    observed: Option<ArtifactObservation>,
    expected_hash: Seq<char>,
    expected_size: u64,
    max_hash_bytes: u64,
)
    ensures
        existing_verdict(index, key, observed, expected_hash, expected_size, max_hash_bytes)
            == ExistingArtifactVerdict::InPlace ==> {
            &&& observed is Some && observed->0.is_file
            &&& exists|k: int|
                0 <= k < index.entries@.len() && (#[trigger] index.entries@[k]).0@ == key
                    && index.entries@[k].1.size_bytes == expected_size
                    && index.entries@[k].1.size_bytes == observed->0.size_bytes
                    && index.entries@[k].1.modified_unix_ms == observed->0.modified_unix_ms
                    && index.entries@[k].1.blake3_hex@ == expected_hash
        },
        existing_verdict(index, key, observed, expected_hash, expected_size, max_hash_bytes)
            == ExistingArtifactVerdict::HashToConfirm ==> observed is Some && observed->0.is_file
            && observed->0.size_bytes == expected_size && expected_size <= max_hash_bytes,
        (observed is None || !observed->0.is_file) ==> existing_verdict(
            index,
            key,
            observed,
            expected_hash,
            expected_size,
            max_hash_bytes,
        ) == ExistingArtifactVerdict::Restore,
{
    crate::store::lemma_first_index_of(index.entries@, key);
    let k = first_index_of(index.entries@, key);
    if k >= 0 {
        assert(index.entries@[k].0@ == key);
    }
}

/// Decides what to do about the file at a cached artifact's place.
pub fn existing_artifact_verdict(
    index: &ArtifactIndex,
    key: &str,
    observed: Option<ArtifactObservation>,
    expected_hash: &str,
    expected_size: u64,
    max_hash_bytes: u64,
) -> (v: ExistingArtifactVerdict)
    ensures
        v == existing_verdict(*index, key@, observed, expected_hash@, expected_size, max_hash_bytes),
{
    match observed {
        None => ExistingArtifactVerdict::Restore,
        Some(o) => {
            if !o.is_file {
                return ExistingArtifactVerdict::Restore;
            }
            let proven = match artifact_index_lookup(index, key) {
                Some(entry) => artifact_index_entry_matches_expected(
                    entry,
                    o.size_bytes,
                    o.modified_unix_ms,
                    expected_hash,
                    expected_size,
                ),
                None => false,
            };
            if proven {
                ExistingArtifactVerdict::InPlace
            } else if o.size_bytes == expected_size && o.size_bytes <= max_hash_bytes {
                ExistingArtifactVerdict::HashToConfirm
            } else {
                ExistingArtifactVerdict::Restore
            }
        },
    }
}

} // verus!
