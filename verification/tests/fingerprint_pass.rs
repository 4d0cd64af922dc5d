use uc_cli::errors::ErrorKind;
use uc_cli::fingerprint::compute_build_fingerprint;
use uc_cli::fingerprint_pass::{
    file_needs_hashing, fingerprint_source_pass, refreshed_fingerprint_index, FingerprintFileObservation,
};
use uc_cli::store::{FingerprintIndex, FingerprintIndexEntry};

fn obs(key: &str, size: u64, mtime: u64, fresh: Option<&str>) -> FingerprintFileObservation {
    FingerprintFileObservation {
        key: key.to_string(),
        size_bytes: size,
        modified_unix_ms: mtime,
        fresh_hash: fresh.map(|h| h.to_string()),
    }
}

fn indexed() -> FingerprintIndex {
    let mut index = FingerprintIndex::empty();
    index.entries.push((
        "src/lib.cairo".to_string(),
        FingerprintIndexEntry { size_bytes: 10, modified_unix_ms: 1_000, blake3_hex: "aa".to_string() },
    ));
    index
}

#[test]
fn pass_reuses_unchanged_indexed_digests_and_uses_fresh_ones_otherwise() {
    let index = indexed();
    let now = 100_000;
    assert!(!file_needs_hashing(&index, "src/lib.cairo", 10, 1_000, now, 2_000));
    assert!(file_needs_hashing(&index, "src/lib.cairo", 11, 1_000, now, 2_000));
    assert!(file_needs_hashing(&index, "src/lib.cairo", 10, 99_000, now, 2_000));
    assert!(file_needs_hashing(&index, "Scarb.toml", 5, 1_000, now, 2_000));
    let files = vec![obs("Scarb.toml", 5, 1_000, Some("bb")), obs("src/lib.cairo", 10, 1_000, None)];
    let (lines, entries) = fingerprint_source_pass(&index, &files, now, 2_000, 100, 1_000).unwrap();
    assert_eq!(
        lines,
        vec![("Scarb.toml".to_string(), "bb".to_string()), ("src/lib.cairo".to_string(), "aa".to_string())]
    );
    assert_eq!(entries[0].1.blake3_hex, "bb");
    assert_eq!(entries[1].1.size_bytes, 10);
    let fp = compute_build_fingerprint("ctx", &lines);
    assert_eq!(fp.len(), 64);
    let (fresh, changed) = refreshed_fingerprint_index(&index, entries, vec![(".".to_string(), 7)], "ctx", &fp);
    assert!(changed);
    assert_eq!(fresh.last_fingerprint.as_deref(), Some(fp.as_str()));
    let (_, changed_again) = refreshed_fingerprint_index(
        &fresh,
        fresh.entries.clone(),
        fresh.directories.clone(),
        "ctx",
        &fp,
    );
    assert!(!changed_again);
}

#[test]
fn pass_stops_at_the_budget() {
    let index = FingerprintIndex::empty();
    let files = vec![obs("a.cairo", 600, 1, Some("x")), obs("b.cairo", 600, 1, Some("y"))];
    let err = fingerprint_source_pass(&index, &files, 0, 0, 1_000, 1_000).unwrap_err();
    assert!(matches!(
        err.kind,
        ErrorKind::FingerprintBudgetExceeded { total_bytes: 1200, limit_bytes: 1000 }
    ));
    let err = fingerprint_source_pass(&index, &files, 0, 0, 500, 10_000).unwrap_err();
    assert!(matches!(err.kind, ErrorKind::FingerprintFileTooLarge { size_bytes: 600, limit_bytes: 500 }));
}
