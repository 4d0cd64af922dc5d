use vstd::prelude::*;

use crate::errors::{plain_error, ErrorKind, UcError};
use crate::path_parts::{parent_path, path_parent};

verus! {

/// Size at which the daemon log is rotated, in bytes.
pub const DAEMON_LOG_ROTATE_BYTES: u64 = 10 * 1024 * 1024;

/// Whether the async persist error log is rotated before the next write:
/// rotation must be enabled (a non-zero limit), the log must exist
/// (`current_len` is its size), and it must have reached the limit.
pub fn maybe_rotate_async_persist_error_log(max_bytes: u64, current_len: Option<u64>) -> (rotate:
    bool)
    ensures
        rotate == (max_bytes != 0 && current_len is Some && current_len->0 >= max_bytes),
{
    if max_bytes == 0 {
        return false;
    }
    match current_len {
        None => false,
        Some(len) => len >= max_bytes,
    }
}

/// Whether the daemon log (of size `current_len`, when it exists) is
/// rotated before the daemon starts.
pub fn rotate_daemon_log_if_needed(current_len: Option<u64>) -> (rotate: bool)
    ensures
        rotate == (current_len is Some && current_len->0 >= DAEMON_LOG_ROTATE_BYTES),
{
    match current_len {
        None => false,
        Some(len) => len >= DAEMON_LOG_ROTATE_BYTES,
    }
}

/// What is known of one ancestor directory of a manifest when looking for
/// the workspace root that the metadata cache belongs to.
#[derive(Debug, Clone)]
pub struct AncestorInfo {
    pub path: String,
    pub has_manifest: bool,
    pub has_lockfile: bool,
    pub manifest_has_workspace_table: bool,
}

/// Whether an ancestor (the `i`-th, the manifest's own directory first) is
/// the metadata workspace root: it holds a manifest and either a lockfile
/// or, above the manifest's own directory, a manifest with a workspace
/// table.
pub open spec fn is_metadata_root(a: AncestorInfo, i: int) -> bool {
    a.has_manifest && (a.has_lockfile || (i > 0 && a.manifest_has_workspace_table))
}

/// The first ancestor that is the metadata root, from position `i` on.
pub open spec fn first_metadata_root(ancestors: Seq<AncestorInfo>, i: int) -> int
    decreases ancestors.len() - i,
{
    if i < 0 || i >= ancestors.len() {
        -1
    } else if is_metadata_root(ancestors[i], i) {
        i
    } else {
        first_metadata_root(ancestors, i + 1)
    }
}

/// The workspace root that `uc metadata` caches under: the first ancestor
/// of the manifest's directory (given from the directory itself upward)
/// that is a workspace root, else the manifest's own directory.
pub fn metadata_cache_workspace_root(manifest_parent: &str, ancestors: &Vec<AncestorInfo>) -> (root:
    String)
    ensures
        first_metadata_root(ancestors@, 0) >= 0 ==> root@ == ancestors@[first_metadata_root(
            ancestors@,
            0,
        )].path@,
        first_metadata_root(ancestors@, 0) < 0 ==> root@ == manifest_parent@,
{
    let mut i: usize = 0;
    while i < ancestors.len()
        invariant
            i <= ancestors@.len(),
            first_metadata_root(ancestors@, i as int) == first_metadata_root(ancestors@, 0),
        decreases ancestors@.len() - i,
    {
        let a = &ancestors[i];
        if a.has_manifest && (a.has_lockfile || (i > 0 && a.manifest_has_workspace_table)) {
            let v = crate::text::chars_of(a.path.as_str());
            return crate::text::string_from_chars(&v);
        }
        i = i + 1;
    }
    let v = crate::text::chars_of(manifest_parent);
    crate::text::string_from_chars(&v)
}

/// The metadata workspace root of a manifest: refused when the manifest
/// path has no parent; otherwise the first ancestor of the manifest's
/// directory (given from the directory itself upward) that is a workspace
/// root, else that directory.
pub fn metadata_cache_workspace_root_for_manifest(
    manifest_path: &str,
    ancestors: &Vec<AncestorInfo>,
) -> (r: Result<String, UcError>)
    ensures
        match parent_path(manifest_path@) {
            None => r matches Err(e) && e.kind == ErrorKind::ManifestPathHasNoParent
                && !e.native_fallback_eligible,
            Some(p) => r matches Ok(root) && (if first_metadata_root(ancestors@, 0) >= 0 {
                root@ == ancestors@[first_metadata_root(ancestors@, 0)].path@
            } else {
                root@ == p
            }),
        },
{
    match path_parent(manifest_path) {
        None => Err(plain_error(ErrorKind::ManifestPathHasNoParent)),
        Some(p) => Ok(metadata_cache_workspace_root(p.as_str(), ancestors)),
    }
}

} // verus!
