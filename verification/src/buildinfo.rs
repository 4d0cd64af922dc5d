use vstd::prelude::*;
use vstd::bytes::spec_u64_to_le_bytes;
use vstd::utf8::encode_utf8;
use crate::access_cache::saturated;
use crate::hashing::blake3_hex_digest;
use crate::native_plan::NativeTrackedFileState;
use crate::native_session::{
    native_tracked_sources_signature, tracked_entries_bytes, tracked_entry_bytes,
    NativeContractOutputPlan,
};
use crate::source_journal::{native_tracked_sources_total_bytes, sizes_sum};
use crate::tracked_sources::{canonical_sources, entries_view, native_normalize_tracked_sources};
use crate::surface::copy_str;
use crate::text::str_eq;

verus! {

/// The schema version of the binary build-info sidecar.
pub const NATIVE_BUILDINFO_SCHEMA_VERSION: u32 = 2;

/// A build-info sidecar as decoded from disk.
pub struct NativeBuildInfoRecord {
    pub schema_version: u32,
    pub signature_hash: String,
    pub source_root_modified_unix_ms: u64,
    pub tracked_sources: Vec<(String, NativeTrackedFileState)>,
    pub tracked_source_bytes: u64,
    pub tracked_sources_signature: String,
    pub tracked_sources_content_hash: String,
    pub contract_source_dependencies: Vec<(String, Vec<String>)>,
    pub contract_output_plans: Vec<NativeContractOutputPlan>,
    pub journal_cursor_applied: u64,
}

/// What a native session restores from an accepted sidecar.
pub struct NativeBuildInfoSnapshot {
    pub tracked_sources: Vec<(String, NativeTrackedFileState)>,
    pub tracked_source_bytes: u64,
    pub tracked_sources_content_hash: String,
    pub contract_source_dependencies: Vec<(String, Vec<String>)>,
    pub contract_output_plans: Vec<NativeContractOutputPlan>,
    pub journal_cursor_applied: u64,
}

/// The signature bytes of tracked sources given by key views.
pub open spec fn view_entries_bytes(v: Seq<(Seq<char>, NativeTrackedFileState)>) -> Seq<u8>
    decreases v.len(),
{
    if v.len() == 0 {
        Seq::empty()
    } else {
        view_entries_bytes(v.drop_last()) + encode_utf8(v.last().0) + spec_u64_to_le_bytes(
            v.last().1.size_bytes,
        ) + spec_u64_to_le_bytes(v.last().1.modified_unix_ms)
    }
}

/// The tracked sources signature of entries given by key views.
pub open spec fn view_signature(v: Seq<(Seq<char>, NativeTrackedFileState)>) -> Seq<char> {
    blake3_hex_digest(encode_utf8("uc-native-tracked-sources-signature-v1"@) + view_entries_bytes(v))
}

/// The sizes of tracked sources given by key views, summed.
pub open spec fn view_sizes_sum(v: Seq<(Seq<char>, NativeTrackedFileState)>) -> nat
    decreases v.len(),
{
    if v.len() == 0 {
        0
    } else {
        view_sizes_sum(v.drop_last()) + (v.last().1.size_bytes as nat)
    }
}

proof fn lemma_views_agree(v: Seq<(String, NativeTrackedFileState)>)
    ensures
        tracked_entries_bytes(v) == view_entries_bytes(entries_view(v)),
        sizes_sum(v) == view_sizes_sum(entries_view(v)),
    decreases v.len(),
{
    if v.len() > 0 {
        lemma_views_agree(v.drop_last());
        assert(entries_view(v.drop_last()) =~= entries_view(v).drop_last());
        assert(tracked_entry_bytes(v.last()) =~= encode_utf8(v.last().0@) + spec_u64_to_le_bytes(
            v.last().1.size_bytes,
        ) + spec_u64_to_le_bytes(v.last().1.modified_unix_ms));
    }
}

/// Whether a sidecar is accepted for a session with signature hash
/// `signature_hash`, and then its tracked sources (normalised), their byte
/// total and their content hash: a binary sidecar of another schema, one of
/// another session, one with tracked keys that cannot be normalised, or over
/// the tracked-source limits is refused; its tracked sources signature must
/// match the normalised sources, or, when normalising changed them, the
/// sources as stored (a legacy signature); the stored content hash is kept
/// unless normalising changed the sources or it is empty, in which case the
/// recomputed one is used, and without it the sidecar is refused.
pub open spec fn sidecar_accepted(
    workspace_root: Seq<char>,
    d: NativeBuildInfoRecord,
    is_binary: bool,
    signature_hash: Seq<char>,
    recomputed_content_hash: Option<Seq<char>>,
    max_files: usize,
    max_total_bytes: u64,
) -> Option<(Seq<(Seq<char>, NativeTrackedFileState)>, u64, Seq<char>)> {
    if is_binary && d.schema_version != NATIVE_BUILDINFO_SCHEMA_VERSION {
        None
    } else if d.signature_hash@ != signature_hash {
        None
    } else {
        match canonical_sources(workspace_root, entries_view(d.tracked_sources@)) {
            Err(_) => None,
            Ok((norm, changed)) => {
                let total = saturated(view_sizes_sum(norm));
                if norm.len() > max_files || total > max_total_bytes {
                    None
                } else if d.tracked_sources_signature@ != view_signature(norm) && !(changed
                    && d.tracked_sources_signature@ == view_signature(entries_view(d.tracked_sources@))) {
                    None
                } else if changed || d.tracked_sources_content_hash@.len() == 0 {
                    match recomputed_content_hash {
                        Some(h) => Some((norm, total as u64, h)),
                        None => None,
                    }
                } else {
                    Some((norm, total as u64, d.tracked_sources_content_hash@))
                }
            },
        }
    }
}

pub open spec fn opt_chars(s: Option<String>) -> Option<Seq<char>> {
    match s {
        Some(x) => Some(x@),
        None => None,
    }
}

/// Decides a decoded build-info sidecar: the snapshot to restore, with the
/// source root modification time the sidecar recorded, or none when it is
/// refused (see `sidecar_accepted`). `recomputed_content_hash` is the
/// content hash of the normalised sources, where the caller computed it.
pub fn native_buildinfo_sidecar_accept(
    workspace_root: &str,
    decoded: NativeBuildInfoRecord,
    is_binary: bool,
    signature_hash: &str,
    recomputed_content_hash: Option<String>,
    max_files: usize,
    max_total_bytes: u64,
) -> (r: Option<(NativeBuildInfoSnapshot, u64)>)
    ensures
        match sidecar_accepted(
            workspace_root@,
            decoded,
            is_binary,
            signature_hash@,
            opt_chars(recomputed_content_hash),
            max_files,
            max_total_bytes,
        ) {
            None => r is None,
            Some((norm, total, hash)) => r matches Some((snap, mtime)) && {
                &&& entries_view(snap.tracked_sources@) == norm
                &&& snap.tracked_source_bytes == total
                &&& snap.tracked_sources_content_hash@ == hash
                &&& snap.contract_source_dependencies == decoded.contract_source_dependencies
                &&& snap.contract_output_plans == decoded.contract_output_plans
                &&& snap.journal_cursor_applied == decoded.journal_cursor_applied
                &&& mtime == decoded.source_root_modified_unix_ms
            },
        },
{
    if is_binary && decoded.schema_version != NATIVE_BUILDINFO_SCHEMA_VERSION {
        return None;
    }
    if !str_eq(decoded.signature_hash.as_str(), signature_hash) {
        return None;
    }
    proof {
        lemma_views_agree(decoded.tracked_sources@);
    }
    let legacy_signature = native_tracked_sources_signature(&decoded.tracked_sources);
    let (tracked_sources, changed) = match native_normalize_tracked_sources(
        workspace_root,
        &decoded.tracked_sources,
    ) {
        Ok(v) => v,
        Err(_) => {
            return None;
        },
    };
    proof {
        lemma_views_agree(tracked_sources@);
    }
    let total = match native_tracked_sources_total_bytes(&tracked_sources, max_files, max_total_bytes) {
        Ok(t) => t,
        Err(_) => {
            return None;
        },
    };
    let signature = native_tracked_sources_signature(&tracked_sources);
    if !str_eq(decoded.tracked_sources_signature.as_str(), signature.as_str()) {
        if !(changed && str_eq(decoded.tracked_sources_signature.as_str(), legacy_signature.as_str())) {
            return None;
        }
    }
    let hash = if changed || decoded.tracked_sources_content_hash.as_str().as_bytes().len() == 0 {
        match recomputed_content_hash {
            Some(h) => h,
            None => {
                return None;
            },
        }
    } else {
        copy_str(decoded.tracked_sources_content_hash.as_str())
    };
    let mtime = decoded.source_root_modified_unix_ms;
    let cursor = decoded.journal_cursor_applied;
    Some(
        (
            NativeBuildInfoSnapshot {
                tracked_sources,
                tracked_source_bytes: total,
                tracked_sources_content_hash: hash,
                contract_source_dependencies: decoded.contract_source_dependencies,
                contract_output_plans: decoded.contract_output_plans,
                journal_cursor_applied: cursor,
            },
            mtime,
        ),
    )
}

} // verus!
