use uc_cli::native_plan::NativeTrackedFileState;
use uc_cli::path_parts::{
    join_path, native_workspace_relative_cairo_path, path_components,
    validate_native_profile_name, CUR_DIR, NORMAL, PARENT_DIR, ROOT_DIR,
};
use uc_cli::errors::ErrorKind;
use uc_cli::source_journal::{
    load_native_source_change_journal, native_commit_source_journal_delta,
    native_record_source_change_event, native_record_source_changes,
    native_source_journal_file_for_persist, native_source_journal_file_from_state,
    native_source_journal_state_from_file, native_take_source_journal_delta,
    native_tracked_sources_total_bytes, NativeSourceChangeJournal, NativeSourceJournalCommit,
    NativeSourceJournalDelta, NativeSourceJournalFile, NativeSourceJournalLoad,
    SourceChangeEventKind, NATIVE_SOURCE_JOURNAL_SCHEMA_VERSION,
};

fn s(v: &str) -> String {
    v.to_string()
}

fn sorted(journal_set: &uc_cli::string_set::StringSet) -> Vec<String> {
    journal_set.sorted_items()
}

#[test]
fn path_components_follow_std() {
    let cs = path_components("/a//b/./c/");
    assert_eq!(
        cs,
        vec![(ROOT_DIR, s("/")), (NORMAL, s("a")), (NORMAL, s("b")), (NORMAL, s("c"))]
    );
    let cs = path_components("./x/../y");
    assert_eq!(
        cs,
        vec![(CUR_DIR, s(".")), (NORMAL, s("x")), (PARENT_DIR, s("..")), (NORMAL, s("y"))]
    );
    assert!(path_components("").is_empty());
    for p in ["/a//b/./c/", "./x/../y", "a/b", ".", "..", "/", "a/./"] {
        let std_count = std::path::Path::new(p).components().count();
        assert_eq!(path_components(p).len(), std_count, "{p}");
    }
}

#[test]
fn join_path_matches_std_join() {
    for (base, p) in [("/w", "src/a.cairo"), ("/w/", "x"), ("", "x"), ("/w", "/abs"), ("a", "")] {
        let expected = std::path::Path::new(base).join(p).to_string_lossy().into_owned();
        assert_eq!(join_path(base, p), expected);
    }
}

#[test]
fn profile_names_must_be_single_plain_names() {
    assert!(validate_native_profile_name("dev").is_ok());
    assert!(validate_native_profile_name("release/").is_ok());
    assert!(matches!(
        validate_native_profile_name("").unwrap_err().kind,
        ErrorKind::NativeProfileEmpty
    ));
    assert!(matches!(
        validate_native_profile_name("a\0b").unwrap_err().kind,
        ErrorKind::NativeProfileNulByte { .. }
    ));
    for bad in ["a/b", "..", ".", "/dev", "./dev"] {
        assert!(matches!(
            validate_native_profile_name(bad).unwrap_err().kind,
            ErrorKind::NativeProfileInvalidComponent { .. }
        ));
    }
}

#[test]
fn relative_cairo_paths_are_keyed_under_the_workspace() {
    assert_eq!(
        native_workspace_relative_cairo_path("/w", "/w/src/lib.cairo"),
        Some(s("src/lib.cairo"))
    );
    assert_eq!(
        native_workspace_relative_cairo_path("/w", "crates/a/src/x.CAIRO"),
        Some(s("crates/a/src/x.CAIRO"))
    );
    assert_eq!(native_workspace_relative_cairo_path("/w", "/w/src/readme.md"), None);
    assert_eq!(native_workspace_relative_cairo_path("/w", "/w/lib.cairo"), None);
    assert_eq!(native_workspace_relative_cairo_path("/w", "../src/lib.cairo"), None);
    assert_eq!(
        native_workspace_relative_cairo_path("/w", "/other/src/lib.cairo"),
        Some(s("/other/src/lib.cairo"))
    );
}

#[test]
fn recording_moves_paths_between_sets_and_counts() {
    let mut j = NativeSourceChangeJournal::new(false);
    let changes = vec![(s("src/a.cairo"), false), (s("src/b.cairo"), true), (s("src/a.cairo"), true)];
    assert!(native_record_source_changes(&mut j, &changes));
    assert_eq!(j.cursor, 3);
    assert!(sorted(&j.changed_files).is_empty());
    assert_eq!(sorted(&j.removed_files), vec![s("src/a.cairo"), s("src/b.cairo")]);
    assert!(!native_record_source_changes(&mut j, &vec![]));
    assert_eq!(j.cursor, 3);
    j.cursor = u64::MAX;
    native_record_source_changes(&mut j, &vec![(s("src/b.cairo"), false)]);
    assert_eq!(j.cursor, u64::MAX);
    assert_eq!(sorted(&j.changed_files), vec![s("src/b.cairo")]);
    assert_eq!(sorted(&j.removed_files), vec![s("src/a.cairo")]);
}

#[test]
fn events_map_to_changes() {
    let mut j = NativeSourceChangeJournal::new(false);
    let paths = vec![s("/w/src/old.cairo"), s("/w/src/new.cairo")];
    assert!(native_record_source_change_event("/w", &mut j, SourceChangeEventKind::RenamedBoth, &paths));
    assert_eq!(sorted(&j.removed_files), vec![s("src/old.cairo")]);
    assert_eq!(sorted(&j.changed_files), vec![s("src/new.cairo")]);
    let one = vec![s("/w/src/one.cairo")];
    native_record_source_change_event("/w", &mut j, SourceChangeEventKind::RenamedBoth, &one);
    assert_eq!(sorted(&j.changed_files), vec![s("src/new.cairo"), s("src/one.cairo")]);
    let ignored = vec![s("/w/src/x.cairo")];
    assert!(!native_record_source_change_event("/w", &mut j, SourceChangeEventKind::Ignored, &ignored));
    let not_cairo = vec![s("/w/src/x.txt")];
    assert!(!native_record_source_change_event("/w", &mut j, SourceChangeEventKind::Changed, &not_cairo));
    assert_eq!(j.cursor, 3);
}

#[test]
fn take_and_commit_catch_the_session_up() {
    let mut j = NativeSourceChangeJournal::new(false);
    native_record_source_changes(&mut j, &vec![(s("src/b.cairo"), false), (s("src/a.cairo"), false)]);
    let delta = native_take_source_journal_delta(Some(&j), 0);
    let commit = match delta {
        NativeSourceJournalDelta::Changed { changed_files, removed_files, commit } => {
            assert_eq!(changed_files, vec![s("src/a.cairo"), s("src/b.cairo")]);
            assert!(removed_files.is_empty());
            commit
        }
        other => panic!("unexpected delta {other:?}"),
    };
    assert_eq!(
        commit,
        NativeSourceJournalCommit { apply_cursor: Some(2), clear_changed_sets: true, clear_overflow: false }
    );
    assert!(native_commit_source_journal_delta(&mut j, commit));
    assert!(j.changed_files.sorted_items().is_empty());
    assert_eq!(j.applied_cursor, 2);
    match native_take_source_journal_delta(Some(&j), 2) {
        NativeSourceJournalDelta::NoChanges { commit } => {
            assert_eq!(commit.apply_cursor, None);
            assert!(!native_commit_source_journal_delta(&mut j, commit));
        }
        other => panic!("unexpected delta {other:?}"),
    }
    match native_take_source_journal_delta(Some(&j), 5) {
        NativeSourceJournalDelta::FallbackFullScan { commit } => {
            assert_eq!(commit.apply_cursor, Some(2));
            assert!(commit.clear_changed_sets && commit.clear_overflow);
        }
        other => panic!("unexpected delta {other:?}"),
    }
    match native_take_source_journal_delta(None, 0) {
        NativeSourceJournalDelta::FallbackFullScan { commit } => {
            assert_eq!(
                commit,
                NativeSourceJournalCommit { apply_cursor: None, clear_changed_sets: false, clear_overflow: false }
            );
        }
        other => panic!("unexpected delta {other:?}"),
    }
}

#[test]
fn commit_does_not_clear_changes_recorded_after_the_take() {
    let mut j = NativeSourceChangeJournal::new(true);
    native_record_source_changes(&mut j, &vec![(s("src/a.cairo"), false)]);
    let commit = NativeSourceJournalCommit { apply_cursor: Some(0), clear_changed_sets: true, clear_overflow: true };
    assert!(native_commit_source_journal_delta(&mut j, commit));
    assert!(j.overflowed);
    assert_eq!(j.changed_files.sorted_items(), vec![s("src/a.cairo")]);
    assert_eq!(j.applied_cursor, 0);
    j.applied_cursor = 9;
    let apply_only = NativeSourceJournalCommit { apply_cursor: None, clear_changed_sets: true, clear_overflow: false };
    native_commit_source_journal_delta(&mut j, apply_only);
    assert_eq!(j.applied_cursor, 1);
}

#[test]
fn journal_file_roundtrip_and_limits() {
    let mut j = NativeSourceChangeJournal::new(false);
    native_record_source_changes(&mut j, &vec![(s("src/z.cairo"), false), (s("src/y.cairo"), true)]);
    j.applied_cursor = 1;
    let f = native_source_journal_file_from_state(&j, 77);
    assert_eq!(f.schema_version, NATIVE_SOURCE_JOURNAL_SCHEMA_VERSION);
    assert_eq!(f.changed_files, vec![s("src/z.cairo")]);
    assert_eq!(f.removed_files, vec![s("src/y.cairo")]);
    assert_eq!((f.cursor, f.applied_cursor, f.updated_at_epoch_ms), (2, 1, 77));
    let back = native_source_journal_state_from_file(&f, 10);
    assert_eq!(back.changed_files.sorted_items(), vec![s("src/z.cairo")]);
    assert_eq!(back.removed_files.sorted_items(), vec![s("src/y.cairo")]);
    assert_eq!((back.overflowed, back.cursor, back.applied_cursor), (false, 2, 1));

    let big = NativeSourceJournalFile {
        schema_version: 1,
        changed_files: vec![s("a"), s("b"), s("c")],
        removed_files: vec![],
        overflowed: false,
        cursor: 4,
        applied_cursor: 8,
        updated_at_epoch_ms: 0,
    };
    let clipped = native_source_journal_state_from_file(&big, 2);
    assert!(clipped.overflowed);
    assert_eq!(clipped.changed_files.sorted_items(), vec![s("a"), s("b")]);
    assert_eq!(clipped.applied_cursor, 4);
    let persisted = native_source_journal_file_for_persist(&clipped, 1, 5);
    assert!(persisted.overflowed && persisted.changed_files.is_empty());
}

#[test]
fn load_outcomes_give_empty_or_overflowed_journals() {
    let empty = load_native_source_change_journal(&NativeSourceJournalLoad::Missing, 10);
    assert!(!empty.overflowed && empty.cursor == 0);
    let lost = load_native_source_change_journal(&NativeSourceJournalLoad::DecodeFailed, 10);
    assert!(lost.overflowed);
    let other_schema = NativeSourceJournalFile {
        schema_version: 2,
        changed_files: vec![s("a")],
        removed_files: vec![],
        overflowed: true,
        cursor: 3,
        applied_cursor: 0,
        updated_at_epoch_ms: 0,
    };
    let j = load_native_source_change_journal(&NativeSourceJournalLoad::Decoded(other_schema), 10);
    assert!(!j.overflowed && j.cursor == 0 && j.changed_files.sorted_items().is_empty());
}

#[test]
fn tracked_source_totals_respect_limits() {
    let st = |n: u64| NativeTrackedFileState { size_bytes: n, modified_unix_ms: 0 };
    let files = vec![(s("a"), st(10)), (s("b"), st(20))];
    assert_eq!(native_tracked_sources_total_bytes(&files, 5, 100).unwrap(), 30);
    assert!(matches!(
        native_tracked_sources_total_bytes(&files, 1, 100).unwrap_err().kind,
        ErrorKind::NativeTrackedSourcesTooMany { limit: 1 }
    ));
    assert!(matches!(
        native_tracked_sources_total_bytes(&files, 5, 29).unwrap_err().kind,
        ErrorKind::NativeTrackedSourcesBudgetExceeded { total_bytes: 30, limit_bytes: 29 }
    ));
    let huge = vec![(s("a"), st(u64::MAX)), (s("b"), st(5))];
    assert_eq!(native_tracked_sources_total_bytes(&huge, 5, u64::MAX).unwrap(), u64::MAX);
}
