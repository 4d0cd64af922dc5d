use uc_cli::tracked_sources::native_normalize_tracked_sources;
use uc_cli::tracked_sources::native_normalize_tracked_source_key;
use uc_cli::errors::ErrorKind;
use uc_cli::native_plan::NativeTrackedFileState;
use uc_cli::tracked_sources::{native_apply_source_change_journal_delta_in_place, ChangedFileObservation};

fn s(v: &str) -> String {
    v.to_string()
}

fn st(size: u64, m: u64) -> NativeTrackedFileState {
    NativeTrackedFileState { size_bytes: size, modified_unix_ms: m }
}

fn present(size: u64, m: u64) -> ChangedFileObservation {
    ChangedFileObservation::Present { is_file: true, size_bytes: size, modified_unix_ms: Some(m) }
}

#[test]
fn apply_delta_updates_sorted_sources_and_reports_real_changes() {
    let mut files = vec![(s("src/a.cairo"), st(1, 1)), (s("src/c.cairo"), st(3, 3)), (s("src/d.cairo"), st(4, 4))];
    let changed = vec![s("src/b.cairo"), s("src/c.cairo"), s("src/a.cairo"), s("src/e.txt")];
    let removed = vec![s("src/d.cairo"), s("src/zz.cairo")];
    let obs = vec![present(2, 2), present(3, 3), present(10, 5), present(1, 1)];
    let r = native_apply_source_change_journal_delta_in_place("/w", &mut files, &changed, &removed, &obs, 100, 10, 1000)
        .unwrap();
    assert_eq!(files, vec![(s("src/a.cairo"), st(10, 5)), (s("src/b.cairo"), st(2, 2)), (s("src/c.cairo"), st(3, 3))]);
    assert_eq!(r.0, 15);
    assert_eq!(r.1, vec![s("src/a.cairo"), s("src/b.cairo")]);
    assert_eq!(r.2, vec![s("src/d.cairo")]);
}

#[test]
fn apply_delta_drops_missing_and_non_files() {
    let mut files = vec![(s("src/a.cairo"), st(1, 1)), (s("src/b.cairo"), st(2, 2))];
    let changed = vec![s("src/a.cairo"), s("src/b.cairo")];
    let obs = vec![
        ChangedFileObservation::Missing,
        ChangedFileObservation::Present { is_file: false, size_bytes: 0, modified_unix_ms: Some(0) },
    ];
    let r = native_apply_source_change_journal_delta_in_place("/w", &mut files, &changed, &vec![], &obs, 100, 10, 1000)
        .unwrap();
    assert!(files.is_empty());
    assert_eq!(r, (0, vec![], vec![s("src/a.cairo"), s("src/b.cairo")]));
}

#[test]
fn apply_delta_refuses_bad_inputs_and_keeps_partial_updates() {
    let mut files = vec![(s("src/a.cairo"), st(1, 1))];
    let changed = vec![s("src/b.cairo"), s("../escape.cairo")];
    let obs = vec![present(2, 2), present(1, 1)];
    let err = native_apply_source_change_journal_delta_in_place("/w", &mut files, &changed, &vec![], &obs, 100, 10, 1000)
        .unwrap_err();
    assert!(matches!(err.kind, ErrorKind::NativeJournalInvalidRelativePath { ref path } if path == "../escape.cairo"));
    assert_eq!(files.len(), 2);

    let mut files = vec![];
    let err = native_apply_source_change_journal_delta_in_place(
        "/w", &mut files, &vec![s("src/big.cairo")], &vec![], &vec![present(500, 1)], 100, 10, 1000,
    )
    .unwrap_err();
    assert!(matches!(err.kind, ErrorKind::NativeTrackedFileTooLarge { size_bytes: 500, limit_bytes: 100, .. }));

    let err = native_apply_source_change_journal_delta_in_place(
        "/w", &mut files, &vec![s("src/x.cairo")], &vec![], &vec![ChangedFileObservation::StatFailed], 100, 10, 1000,
    )
    .unwrap_err();
    assert!(matches!(err.kind, ErrorKind::NativeSourceStatFailed { .. }));

    let no_mtime = ChangedFileObservation::Present { is_file: true, size_bytes: 1, modified_unix_ms: None };
    let err = native_apply_source_change_journal_delta_in_place(
        "/w", &mut files, &vec![s("src/x.cairo")], &vec![], &vec![no_mtime], 100, 10, 1000,
    )
    .unwrap_err();
    assert!(matches!(err.kind, ErrorKind::NativeSourceModifiedTimeUnavailable { .. }));

    let err = native_apply_source_change_journal_delta_in_place(
        "/w", &mut files, &vec![s("src/x.cairo")], &vec![], &vec![present(60, 1)], 100, 10, 50,
    )
    .unwrap_err();
    assert!(matches!(err.kind, ErrorKind::NativeTrackedSourcesBudgetExceeded { total_bytes: 60, limit_bytes: 50 }));
}

#[test]
fn tracked_source_keys_become_canonical() {
    assert_eq!(native_normalize_tracked_source_key("/w", "/w/src/./a.cairo").unwrap(), "src/a.cairo");
    assert_eq!(native_normalize_tracked_source_key("/w", "src//b.cairo").unwrap(), "src/b.cairo");
    assert_eq!(native_normalize_tracked_source_key("/w", "/elsewhere/c.cairo").unwrap(), "/elsewhere/c.cairo");
    assert!(matches!(
        native_normalize_tracked_source_key("/w", "../x.cairo").unwrap_err().kind,
        ErrorKind::NativeTrackedSourceKeyInvalid { ref key } if key == "../x.cairo"
    ));
}

#[test]
fn normalizing_tracked_sources_merges_and_detects_conflicts() {
    let files = vec![(s("/w/src/a.cairo"), st(1, 1)), (s("src/a.cairo"), st(1, 1)), (s("src/b.cairo"), st(2, 2))];
    let (out, changed) = native_normalize_tracked_sources("/w", &files).unwrap();
    assert!(changed);
    assert_eq!(out, vec![(s("src/a.cairo"), st(1, 1)), (s("src/b.cairo"), st(2, 2))]);
    let clean = vec![(s("src/a.cairo"), st(1, 1))];
    assert_eq!(native_normalize_tracked_sources("/w", &clean).unwrap(), (clean.clone(), false));
    let conflict = vec![(s("/w/src/a.cairo"), st(1, 1)), (s("src/a.cairo"), st(9, 9))];
    assert!(matches!(
        native_normalize_tracked_sources("/w", &conflict).unwrap_err().kind,
        ErrorKind::NativeTrackedSourceKeyConflict { ref key } if key == "src/a.cairo"
    ));
}
