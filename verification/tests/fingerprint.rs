use uc_cli::errors::ErrorKind;
use uc_cli::fingerprint::{
    build_fingerprint_context_digest, charge_fingerprint_budget, compute_build_fingerprint,
    should_reuse_indexed_file_hash, track_fingerprint_directories_for_external_path,
    track_fingerprint_directories_for_relative_path, try_reuse_hot_fingerprint,
};
use uc_cli::protocol::BuildCommonArgs;
use uc_cli::store::{FingerprintIndex, FingerprintIndexEntry};
use uc_cli::string_set::StringSet;

fn common(package: Option<&str>, features: &[&str], workspace: bool, offline: bool) -> BuildCommonArgs {
    BuildCommonArgs {
        manifest_path: None,
        package: package.map(|p| p.to_string()),
        workspace,
        features: features.iter().map(|f| f.to_string()).collect(),
        offline,
        release: false,
        profile: None,
    }
}

fn hex(data: &[u8]) -> String {
    blake3::hash(data).to_hex().to_string()
}

#[test]
fn context_digest_hashes_the_documented_fields() {
    let c = common(Some("pkg"), &["b", "a", "b"], false, true);
    let d = build_fingerprint_context_digest("manifest-id", &c, "dev", "scarb 2.0", "env-fp");
    let expected = hex(
        b"uc-build-fingerprint-context-v1scarb 2.0env-fpmanifest-iddevpkgpackageofflinea,b,",
    );
    assert_eq!(d, expected);
    assert_eq!(d.len(), 64);
}

#[test]
fn context_digest_without_package_uses_star() {
    let c = common(None, &[], true, false);
    let d = build_fingerprint_context_digest("m", &c, "release", "v", "e");
    assert_eq!(d, hex(b"uc-build-fingerprint-context-v1vemrelease*workspaceonline"));
}

#[test]
fn context_digest_ignores_feature_order_and_repeats() {
    let a = common(Some("p"), &["x", "y", "z"], false, false);
    let b = common(Some("p"), &["z", "x", "y", "x"], false, false);
    assert_eq!(
        build_fingerprint_context_digest("m", &a, "dev", "v", "e"),
        build_fingerprint_context_digest("m", &b, "dev", "v", "e")
    );
    let c = common(Some("p"), &["x", "y"], false, false);
    assert_ne!(
        build_fingerprint_context_digest("m", &a, "dev", "v", "e"),
        build_fingerprint_context_digest("m", &c, "dev", "v", "e")
    );
}

#[test]
fn build_fingerprint_hashes_one_line_per_file() {
    let files = vec![
        ("src/lib.cairo".to_string(), "aa".to_string()),
        ("Scarb.toml".to_string(), "bb".to_string()),
    ];
    let f = compute_build_fingerprint("ctx", &files);
    assert_eq!(f, hex(b"uc-build-fingerprint-v3ctxsrc/lib.cairo:aa\nScarb.toml:bb\n"));
    assert_eq!(compute_build_fingerprint("ctx", &vec![]), hex(b"uc-build-fingerprint-v3ctx"));
}

fn entry(size: u64, modified: u64) -> FingerprintIndexEntry {
    FingerprintIndexEntry { size_bytes: size, modified_unix_ms: modified, blake3_hex: "ab".to_string() }
}

fn hot_index() -> FingerprintIndex {
    let mut index = FingerprintIndex::empty();
    index.context_digest = Some("ctx".to_string());
    index.last_fingerprint = Some("fp".to_string());
    index.directories = vec![(".".to_string(), 5), ("src".to_string(), 6)];
    index.entries = vec![("src/lib.cairo".to_string(), entry(10, 100))];
    index
}

#[test]
fn hot_fingerprint_is_reused_when_nothing_changed() {
    let index = hot_index();
    let dirs = vec![Some(5), Some(6)];
    let files = vec![Some((10, 100))];
    assert_eq!(
        try_reuse_hot_fingerprint(&index, "ctx", &dirs, &files, 10_000, 2_000),
        Some("fp".to_string())
    );
}

#[test]
fn hot_fingerprint_is_not_reused_after_a_change() {
    let index = hot_index();
    let dirs = vec![Some(5), Some(6)];
    let files = vec![Some((10, 100))];
    assert_eq!(try_reuse_hot_fingerprint(&index, "other", &dirs, &files, 10_000, 2_000), None);
    assert_eq!(
        try_reuse_hot_fingerprint(&index, "ctx", &vec![Some(5), Some(7)], &files, 10_000, 2_000),
        None
    );
    assert_eq!(
        try_reuse_hot_fingerprint(&index, "ctx", &vec![Some(5), None], &files, 10_000, 2_000),
        None
    );
    assert_eq!(
        try_reuse_hot_fingerprint(&index, "ctx", &dirs, &vec![Some((11, 100))], 10_000, 2_000),
        None
    );
    assert_eq!(try_reuse_hot_fingerprint(&index, "ctx", &dirs, &vec![None], 10_000, 2_000), None);
    // modified within the recheck window
    assert_eq!(try_reuse_hot_fingerprint(&index, "ctx", &dirs, &files, 1_500, 2_000), None);
    let mut empty_fp = hot_index();
    empty_fp.last_fingerprint = Some(String::new());
    assert_eq!(try_reuse_hot_fingerprint(&empty_fp, "ctx", &dirs, &files, 10_000, 2_000), None);
    let mut no_ctx = hot_index();
    no_ctx.context_digest = None;
    assert_eq!(try_reuse_hot_fingerprint(&no_ctx, "ctx", &dirs, &files, 10_000, 2_000), None);
}

#[test]
fn indexed_hash_reused_only_for_settled_unchanged_files() {
    let e = entry(10, 100);
    assert!(should_reuse_indexed_file_hash(Some(&e), 10, 100, 5_000, 1_000));
    assert!(!should_reuse_indexed_file_hash(Some(&e), 11, 100, 5_000, 1_000));
    assert!(!should_reuse_indexed_file_hash(Some(&e), 10, 101, 5_000, 1_000));
    assert!(!should_reuse_indexed_file_hash(Some(&e), 10, 100, 1_100, 1_000));
    assert!(!should_reuse_indexed_file_hash(None, 10, 100, 5_000, 1_000));
}

#[test]
fn fingerprint_budget_refuses_large_files_and_totals() {
    assert_eq!(charge_fingerprint_budget(10, 100, 50, 1_000).unwrap(), 60);
    let e = charge_fingerprint_budget(101, 100, 0, 1_000).unwrap_err();
    assert!(matches!(
        e.kind,
        ErrorKind::FingerprintFileTooLarge { size_bytes: 101, limit_bytes: 100 }
    ));
    let e = charge_fingerprint_budget(100, 100, 950, 1_000).unwrap_err();
    assert!(matches!(
        e.kind,
        ErrorKind::FingerprintBudgetExceeded { total_bytes: 1_050, limit_bytes: 1_000 }
    ));
    let e = charge_fingerprint_budget(5, 10, u64::MAX, u64::MAX - 1).unwrap_err();
    assert!(matches!(e.kind, ErrorKind::FingerprintBudgetExceeded { total_bytes: u64::MAX, .. }));
    assert_eq!(charge_fingerprint_budget(5, 10, u64::MAX, u64::MAX).unwrap(), u64::MAX);
}

#[test]
fn relative_path_tracks_root_and_parents() {
    let mut dirs = StringSet::new();
    track_fingerprint_directories_for_relative_path(&mut dirs, "src/a/lib.cairo");
    let mut items = dirs.items().clone();
    items.sort();
    assert_eq!(items, vec![".".to_string(), "src".to_string(), "src/a".to_string()]);
    track_fingerprint_directories_for_relative_path(&mut dirs, "Scarb.toml");
    assert_eq!(dirs.items().len(), 3);
    assert!(dirs.contains("."));
}

#[test]
fn external_path_tracks_parents_inside_the_root() {
    let mut dirs = StringSet::new();
    track_fingerprint_directories_for_external_path(&mut dirs, "/deps/lib", "/deps/lib/src/x.cairo");
    let mut items = dirs.items().clone();
    items.sort();
    assert_eq!(items, vec!["/deps/lib".to_string(), "/deps/lib/src".to_string()]);
    assert!(!dirs.contains("/deps"));
    assert!(!dirs.contains("/"));
}
