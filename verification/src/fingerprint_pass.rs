use vstd::prelude::*;
use crate::errors::{plain_error, ErrorKind, UcError};
use crate::fingerprint::{charge_fingerprint_budget, reuse_indexed_hash, should_reuse_indexed_file_hash};
use crate::fingerprint::opt_view;
use crate::store::{FingerprintIndex, FingerprintIndexEntry, FINGERPRINT_INDEX_SCHEMA_VERSION};
use crate::surface::copy_str;
use crate::text::str_eq;

verus! {

/// One source file as a fingerprint pass sees it: its key (workspace
/// relative, or the normalised path of a file under an external root), its
/// size and modification time, and the digest that
/// `hash_fingerprint_source_file` gave for it where the caller hashed it.
pub struct FingerprintFileObservation {
    pub key: String,
    pub size_bytes: u64,
    pub modified_unix_ms: u64,
    pub fresh_hash: Option<String>,
}

/// The index entry first recorded under `key`.
pub open spec fn indexed_entry(entries: Seq<(String, FingerprintIndexEntry)>, key: Seq<char>) -> Option<
    FingerprintIndexEntry,
>
    decreases entries.len(),
{
    if entries.len() == 0 {
        None
    } else if entries[0].0@ == key {
        Some(entries[0].1)
    } else {
        indexed_entry(entries.drop_first(), key)
    }
}

/// Whether the pass reuses the indexed digest of an observed file.
pub open spec fn reuses(index: FingerprintIndex, o: FingerprintFileObservation, now_ms: u64, window: u64) -> bool {
    reuse_indexed_hash(indexed_entry(index.entries@, o.key@), o.size_bytes, o.modified_unix_ms, now_ms, window)
}

/// The digest the pass gives a file: the indexed one where it is reused,
/// else the fresh one.
pub open spec fn source_digest(index: FingerprintIndex, o: FingerprintFileObservation, now_ms: u64, window: u64) -> Seq<
    char,
> {
    if reuses(index, o, now_ms, window) {
        indexed_entry(index.entries@, o.key@)->0.blake3_hex@
    } else {
        o.fresh_hash->0@
    }
}

/// One file charged to the budget: refused over the per-file limit, or
/// when the running total (saturating) goes over the total limit.
pub open spec fn charge(total: u64, size: u64, max_file: u64, max_total: u64) -> Result<u64, ErrorKind> {
    let t = if total as int + size as int > u64::MAX {
        u64::MAX
    } else {
        (total + size) as u64
    };
    if size > max_file {
        Err(ErrorKind::FingerprintFileTooLarge { size_bytes: size, limit_bytes: max_file })
    } else if t > max_total {
        Err(ErrorKind::FingerprintBudgetExceeded { total_bytes: t, limit_bytes: max_total })
    } else {
        Ok(t)
    }
}

/// The budget charged for `files` in order, or the first refusal.
pub open spec fn charged(files: Seq<FingerprintFileObservation>, max_file: u64, max_total: u64) -> Result<
    u64,
    ErrorKind,
>
    decreases files.len(),
{
    if files.len() == 0 {
        Ok(0)
    } else {
        match charged(files.drop_last(), max_file, max_total) {
            Err(e) => Err(e),
            Ok(t) => charge(t, files.last().size_bytes, max_file, max_total),
        }
    }
}

fn lookup_indexed_entry<'a>(entries: &'a Vec<(String, FingerprintIndexEntry)>, key: &str) -> (r: Option<
    &'a FingerprintIndexEntry,
>)
    ensures
        match r {
            Some(e) => indexed_entry(entries@, key@) == Some(*e),
            None => indexed_entry(entries@, key@) is None,
        },
{
    let mut i: usize = 0;
    assert(entries@.skip(0) =~= entries@);
    while i < entries.len()
        invariant
            i <= entries@.len(),
            indexed_entry(entries@, key@) == indexed_entry(entries@.skip(i as int), key@),
        decreases entries@.len() - i,
    {
        assert(entries@.skip(i as int)[0] == entries@[i as int]);
        if str_eq(entries[i].0.as_str(), key) {
            return Some(&entries[i].1);
        }
        assert(entries@.skip(i as int).drop_first() =~= entries@.skip(i + 1));
        i = i + 1;
    }
    None
}

/// Whether a file must be hashed for the pass: its indexed digest cannot
/// be reused.
pub fn file_needs_hashing(
    index: &FingerprintIndex,
    key: &str,
    size_bytes: u64,
    modified_unix_ms: u64,
    now_ms: u64,
    mtime_recheck_window_ms: u64,
) -> (b: bool)
    ensures
        b == !reuse_indexed_hash(
            indexed_entry(index.entries@, key@),
            size_bytes,
            modified_unix_ms,
            now_ms,
            mtime_recheck_window_ms,
        ),
{
    let cached = lookup_indexed_entry(&index.entries, key);
    !should_reuse_indexed_file_hash(cached, size_bytes, modified_unix_ms, now_ms, mtime_recheck_window_ms)
}

/// The per-file pass of a build fingerprint: each file, in order, is
/// charged to the byte budget (the first refusal ends the pass), and gets
/// its indexed digest when that can be reused, its fresh digest otherwise.
/// Returns the (key, digest) lines that `compute_build_fingerprint` hashes
/// and the index entries to record.
pub fn fingerprint_source_pass(
    index: &FingerprintIndex,
    files: &Vec<FingerprintFileObservation>,
    now_ms: u64,
    mtime_recheck_window_ms: u64,
    max_file_bytes: u64,
    max_total_bytes: u64,
) -> (r: Result<(Vec<(String, String)>, Vec<(String, FingerprintIndexEntry)>), UcError>)
    requires
        forall|i: int|
            0 <= i < files@.len() && !reuses(*index, #[trigger] files@[i], now_ms, mtime_recheck_window_ms)
                ==> files@[i].fresh_hash is Some,
    ensures
        match charged(files@, max_file_bytes, max_total_bytes) {
            Err(e) => r matches Err(err) && err.kind == e && !err.native_fallback_eligible,
            Ok(_) => r matches Ok(out) && {
                let lines = out.0@;
                let entries = out.1@;
                &&& lines.len() == files@.len()
                &&& entries.len() == files@.len()
                &&& forall|i: int|
                    0 <= i < files@.len() ==> {
                        let d = source_digest(*index, files@[i], now_ms, mtime_recheck_window_ms);
                        &&& (#[trigger] lines[i]).0@ == files@[i].key@
                        &&& lines[i].1@ == d
                        &&& entries[i].0@ == files@[i].key@
                        &&& entries[i].1.size_bytes == files@[i].size_bytes
                        &&& entries[i].1.modified_unix_ms == files@[i].modified_unix_ms
                        &&& entries[i].1.blake3_hex@ == d
                    }
            },
        },
{
    let mut lines: Vec<(String, String)> = Vec::new();
    let mut entries: Vec<(String, FingerprintIndexEntry)> = Vec::new();
    let mut total: u64 = 0;
    let mut i: usize = 0;
    while i < files.len()
        invariant
            i <= files@.len(),
            charged(files@.take(i as int), max_file_bytes, max_total_bytes) == Ok::<u64, ErrorKind>(total),
            forall|k: int|
                0 <= k < files@.len() && !reuses(*index, #[trigger] files@[k], now_ms, mtime_recheck_window_ms)
                    ==> files@[k].fresh_hash is Some,
            lines@.len() == i,
            entries@.len() == i,
            forall|k: int|
                0 <= k < i ==> {
                    let d = source_digest(*index, files@[k], now_ms, mtime_recheck_window_ms);
                    &&& (#[trigger] lines@[k]).0@ == files@[k].key@
                    &&& lines@[k].1@ == d
                    &&& entries@[k].0@ == files@[k].key@
                    &&& entries@[k].1.size_bytes == files@[k].size_bytes
                    &&& entries@[k].1.modified_unix_ms == files@[k].modified_unix_ms
                    &&& entries@[k].1.blake3_hex@ == d
                },
        decreases files@.len() - i,
    {
        let f = &files[i];
        proof {
            assert(files@.take(i + 1).drop_last() =~= files@.take(i as int));
            assert(files@.take(i + 1).last() == files@[i as int]);
        }
        match charge_fingerprint_budget(f.size_bytes, max_file_bytes, total, max_total_bytes) {
            Ok(t) => {
                total = t;
            },
            Err(e) => {
                proof {
                    lemma_charged_error_sticks(files@, i as int + 1, max_file_bytes, max_total_bytes);
                }
                return Err(plain_error(e.kind));
            },
        }
        let cached = lookup_indexed_entry(&index.entries, f.key.as_str());
        let reuse = should_reuse_indexed_file_hash(
            cached,
            f.size_bytes,
            f.modified_unix_ms,
            now_ms,
            mtime_recheck_window_ms,
        );
        let digest = if reuse {
            match cached {
                Some(e) => copy_str(e.blake3_hex.as_str()),
                None => String::new(),
            }
        } else {
            match &f.fresh_hash {
                Some(h) => copy_str(h.as_str()),
                None => String::new(),
            }
        };
        proof {
            assert(reuse == reuses(*index, files@[i as int], now_ms, mtime_recheck_window_ms));
        }
        lines.push((copy_str(f.key.as_str()), copy_str(digest.as_str())));
        entries.push(
            (
                copy_str(f.key.as_str()),
                FingerprintIndexEntry {
                    size_bytes: f.size_bytes,
                    modified_unix_ms: f.modified_unix_ms,
                    blake3_hex: digest,
                },
            ),
        );
        i = i + 1;
    }
    assert(files@.take(i as int) =~= files@);
    Ok((lines, entries))
}

proof fn lemma_charged_error_sticks(
    files: Seq<FingerprintFileObservation>,
    k: int,
    max_file: u64,
    max_total: u64,
)
    requires
        0 <= k <= files.len(),
        charged(files.take(k), max_file, max_total) is Err,
    ensures
        charged(files, max_file, max_total) == charged(files.take(k), max_file, max_total),
    decreases files.len() - k,
{
    if k == files.len() {
        assert(files.take(k) =~= files);
    } else {
        assert(files.take(k + 1).drop_last() =~= files.take(k));
        lemma_charged_error_sticks(files, k + 1, max_file, max_total);
    }
}

/// An index entry as plain values.
pub open spec fn entry_view(e: (String, FingerprintIndexEntry)) -> (Seq<char>, u64, u64, Seq<char>) {
    (e.0@, e.1.size_bytes, e.1.modified_unix_ms, e.1.blake3_hex@)
}

/// Whether two fingerprint indexes record the same things.
pub open spec fn same_index(a: FingerprintIndex, b: FingerprintIndex) -> bool {
    &&& a.schema_version == b.schema_version
    &&& a.entries@.map_values(|e: (String, FingerprintIndexEntry)| entry_view(e))
        == b.entries@.map_values(|e: (String, FingerprintIndexEntry)| entry_view(e))
    &&& a.directories@.map_values(|d: (String, u64)| (d.0@, d.1))
        == b.directories@.map_values(|d: (String, u64)| (d.0@, d.1))
    &&& opt_view(a.context_digest) == opt_view(b.context_digest)
    &&& opt_view(a.last_fingerprint) == opt_view(b.last_fingerprint)
}

fn same_opt(a: &Option<String>, b: &Option<String>) -> (r: bool)
    ensures
        r == (opt_view(*a) == opt_view(*b)),
{
    match (a, b) {
        (Some(x), Some(y)) => str_eq(x.as_str(), y.as_str()),
        (None, None) => true,
        _ => false,
    }
}

fn same_entries(a: &Vec<(String, FingerprintIndexEntry)>, b: &Vec<(String, FingerprintIndexEntry)>) -> (r: bool)
    ensures
        r == (a@.map_values(|e: (String, FingerprintIndexEntry)| entry_view(e))
            == b@.map_values(|e: (String, FingerprintIndexEntry)| entry_view(e))),
{
    let ghost av = a@.map_values(|e: (String, FingerprintIndexEntry)| entry_view(e));
    let ghost bv = b@.map_values(|e: (String, FingerprintIndexEntry)| entry_view(e));
    if a.len() != b.len() {
        assert(av.len() != bv.len());
        return false;
    }
    let mut i: usize = 0;
    while i < a.len()
        invariant
            i <= a@.len(),
            a@.len() == b@.len(),
            av == a@.map_values(|e: (String, FingerprintIndexEntry)| entry_view(e)),
            bv == b@.map_values(|e: (String, FingerprintIndexEntry)| entry_view(e)),
            forall|k: int| 0 <= k < i ==> av[k] == bv[k],
        decreases a@.len() - i,
    {
        let x = &a[i];
        let y = &b[i];
        if !(str_eq(x.0.as_str(), y.0.as_str()) && x.1.size_bytes == y.1.size_bytes
            && x.1.modified_unix_ms == y.1.modified_unix_ms && str_eq(
            x.1.blake3_hex.as_str(),
            y.1.blake3_hex.as_str(),
        )) {
            assert(av[i as int] != bv[i as int]);
            return false;
        }
        i = i + 1;
    }
    assert(av =~= bv);
    true
}

fn same_directories(a: &Vec<(String, u64)>, b: &Vec<(String, u64)>) -> (r: bool)
    ensures
        r == (a@.map_values(|d: (String, u64)| (d.0@, d.1)) == b@.map_values(
            |d: (String, u64)| (d.0@, d.1),
        )),
{
    let ghost av = a@.map_values(|d: (String, u64)| (d.0@, d.1));
    let ghost bv = b@.map_values(|d: (String, u64)| (d.0@, d.1));
    if a.len() != b.len() {
        assert(av.len() != bv.len());
        return false;
    }
    let mut i: usize = 0;
    while i < a.len()
        invariant
            i <= a@.len(),
            a@.len() == b@.len(),
            av == a@.map_values(|d: (String, u64)| (d.0@, d.1)),
            bv == b@.map_values(|d: (String, u64)| (d.0@, d.1)),
            forall|k: int| 0 <= k < i ==> av[k] == bv[k],
        decreases a@.len() - i,
    {
        if !(str_eq(a[i].0.as_str(), b[i].0.as_str()) && a[i].1 == b[i].1) {
            assert(av[i as int] != bv[i as int]);
            return false;
        }
        i = i + 1;
    }
    assert(av =~= bv);
    true
}

/// The index a fingerprint pass leaves: the current schema, the entries of
/// the pass, the tracked directories with their modification times, the
/// context digest and the fingerprint; with whether it differs from the
/// index loaded before, and so is to be saved.
pub fn refreshed_fingerprint_index(
    old_index: &FingerprintIndex,
    entries: Vec<(String, FingerprintIndexEntry)>,
    directories: Vec<(String, u64)>,
    context_digest: &str,
    fingerprint: &str,
) -> (r: (FingerprintIndex, bool))
    ensures
        r.0.schema_version == FINGERPRINT_INDEX_SCHEMA_VERSION,
        r.0.entries@ == entries@,
        r.0.directories@ == directories@,
        opt_view(r.0.context_digest) == Some(context_digest@),
        opt_view(r.0.last_fingerprint) == Some(fingerprint@),
        r.1 == !same_index(*old_index, r.0),
{
    let new_index = FingerprintIndex {
        schema_version: FINGERPRINT_INDEX_SCHEMA_VERSION,
        entries,
        directories,
        context_digest: Some(copy_str(context_digest)),
        last_fingerprint: Some(copy_str(fingerprint)),
    };
    let same = old_index.schema_version == new_index.schema_version && same_entries(
        &old_index.entries,
        &new_index.entries,
    ) && same_directories(&old_index.directories, &new_index.directories) && same_opt(
        &old_index.context_digest,
        &new_index.context_digest,
    ) && same_opt(&old_index.last_fingerprint, &new_index.last_fingerprint);
    (new_index, !same)
}

} // verus!
