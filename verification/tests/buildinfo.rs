use uc_cli::buildinfo::{native_buildinfo_sidecar_accept, NativeBuildInfoRecord};
use uc_cli::native_plan::NativeTrackedFileState;
use uc_cli::native_session::native_tracked_sources_signature;

fn st(size: u64, mtime: u64) -> NativeTrackedFileState {
    NativeTrackedFileState { size_bytes: size, modified_unix_ms: mtime }
}

fn record(sources: Vec<(String, NativeTrackedFileState)>, signature: String, content: &str) -> NativeBuildInfoRecord {
    NativeBuildInfoRecord {
        schema_version: 2,
        signature_hash: "sig".to_string(),
        source_root_modified_unix_ms: 77,
        tracked_sources: sources,
        tracked_source_bytes: 0,
        tracked_sources_signature: signature,
        tracked_sources_content_hash: content.to_string(),
        contract_source_dependencies: vec![("c".to_string(), vec!["src/lib.cairo".to_string()])],
        contract_output_plans: vec![],
        journal_cursor_applied: 5,
    }
}

#[test]
fn sidecar_with_matching_signatures_keeps_its_content_hash() {
    let sources = vec![("src/lib.cairo".to_string(), st(10, 1)), ("src/x.cairo".to_string(), st(5, 2))];
    let sig = native_tracked_sources_signature(&sources);
    let (snap, mtime) =
        native_buildinfo_sidecar_accept("/w", record(sources.clone(), sig, "hash"), true, "sig", None, 100, 1_000)
            .expect("accepted");
    assert_eq!(mtime, 77);
    assert_eq!(snap.tracked_sources, sources);
    assert_eq!(snap.tracked_source_bytes, 15);
    assert_eq!(snap.tracked_sources_content_hash, "hash");
    assert_eq!(snap.journal_cursor_applied, 5);
    assert_eq!(snap.contract_source_dependencies.len(), 1);
}

#[test]
fn sidecar_is_refused_on_mismatch_or_limits() {
    let sources = vec![("src/lib.cairo".to_string(), st(10, 1))];
    let sig = native_tracked_sources_signature(&sources);
    assert!(native_buildinfo_sidecar_accept("/w", record(sources.clone(), sig.clone(), "h"), true, "other", None, 100, 1_000).is_none());
    let mut old_schema = record(sources.clone(), sig.clone(), "h");
    old_schema.schema_version = 1;
    assert!(native_buildinfo_sidecar_accept("/w", old_schema, true, "sig", None, 100, 1_000).is_none());
    let mut legacy_json = record(sources.clone(), sig.clone(), "h");
    legacy_json.schema_version = 1;
    assert!(native_buildinfo_sidecar_accept("/w", legacy_json, false, "sig", None, 100, 1_000).is_some());
    assert!(native_buildinfo_sidecar_accept("/w", record(sources.clone(), "bad".to_string(), "h"), true, "sig", None, 100, 1_000).is_none());
    assert!(native_buildinfo_sidecar_accept("/w", record(sources.clone(), sig.clone(), "h"), true, "sig", None, 100, 9).is_none());
    assert!(native_buildinfo_sidecar_accept("/w", record(sources.clone(), sig.clone(), ""), true, "sig", None, 100, 1_000).is_none());
    let (snap, _) = native_buildinfo_sidecar_accept("/w", record(sources, sig, ""), true, "sig", Some("fresh".to_string()), 100, 1_000).unwrap();
    assert_eq!(snap.tracked_sources_content_hash, "fresh");
}

#[test]
fn sidecar_with_legacy_absolute_keys_takes_the_recomputed_hash() {
    let stored = vec![("/w/src/lib.cairo".to_string(), st(10, 1))];
    let legacy = native_tracked_sources_signature(&stored);
    assert!(native_buildinfo_sidecar_accept("/w", record(stored.clone(), legacy.clone(), "old"), true, "sig", None, 100, 1_000).is_none());
    let (snap, _) = native_buildinfo_sidecar_accept("/w", record(stored, legacy, "old"), true, "sig", Some("new".to_string()), 100, 1_000).unwrap();
    assert_eq!(snap.tracked_sources, vec![("src/lib.cairo".to_string(), st(10, 1))]);
    assert_eq!(snap.tracked_sources_content_hash, "new");
}
