use vstd::prelude::*;
use crate::access_cache::saturated;
use crate::errors::{plain_error, ErrorKind, UcError};
use crate::native_plan::NativeTrackedFileState;
use crate::path_parts::{native_workspace_relative_cairo_path, relative_cairo_path};
use crate::string_set::StringSet;
use crate::strorder::{lemma_sorted_distinct_exists, sorted_distinct};
use crate::surface::{copy_str, strings_view};

verus! {

/// The version of the persisted source change journal's layout.
pub const NATIVE_SOURCE_JOURNAL_SCHEMA_VERSION: u32 = 1;

/// The largest persisted source change journal that is read or written.
pub const MAX_NATIVE_SOURCE_JOURNAL_BYTES: u64 = 1048576;

/// What the source watcher has seen since the compile session last caught
/// up: the files changed and removed since then (each in one of the two
/// sets), whether events were lost, how many changes were recorded in all
/// (`cursor`), and up to which of them the session has applied.
pub struct NativeSourceChangeJournal {
    pub changed_files: StringSet,
    pub removed_files: StringSet,
    pub overflowed: bool,
    pub cursor: u64,
    pub applied_cursor: u64,
}

impl View for NativeSourceChangeJournal {
    type V = (Set<Seq<char>>, Set<Seq<char>>, bool, u64, u64);

    open spec fn view(&self) -> (Set<Seq<char>>, Set<Seq<char>>, bool, u64, u64) {
        (
            self.changed_files@,
            self.removed_files@,
            self.overflowed,
            self.cursor,
            self.applied_cursor,
        )
    }
}

/// The journal with nothing recorded.
pub open spec fn empty_journal() -> (Set<Seq<char>>, Set<Seq<char>>, bool, u64, u64) {
    (Set::empty(), Set::empty(), false, 0, 0)
}

/// The journal that only says events were lost.
pub open spec fn overflowed_journal() -> (Set<Seq<char>>, Set<Seq<char>>, bool, u64, u64) {
    (Set::empty(), Set::empty(), true, 0, 0)
}

impl NativeSourceChangeJournal {
    /// A journal with nothing recorded, or one that only says events were
    /// lost.
    pub fn new(overflowed: bool) -> (j: Self)
        ensures
            j@ == (if overflowed {
                overflowed_journal()
            } else {
                empty_journal()
            }),
    {
        NativeSourceChangeJournal {
            changed_files: StringSet::new(),
            removed_files: StringSet::new(),
            overflowed,
            cursor: 0,
            applied_cursor: 0,
        }
    }
}

/// `n + 1`, or `n` at `u64::MAX`.
pub open spec fn saturating_inc(n: u64) -> u64 {
    if n == u64::MAX {
        n
    } else {
        (n + 1) as u64
    }
}

/// The smaller of two cursors.
pub open spec fn min_u64(a: u64, b: u64) -> u64 {
    if a <= b {
        a
    } else {
        b
    }
}

/// One recorded change: a removed file moves to the removed set, any other
/// change to the changed set; the cursor counts it.
pub open spec fn record_change(
    j: (Set<Seq<char>>, Set<Seq<char>>, bool, u64, u64),
    path: Seq<char>,
    removed: bool,
) -> (Set<Seq<char>>, Set<Seq<char>>, bool, u64, u64) {
    if removed {
        (j.0.remove(path), j.1.insert(path), j.2, saturating_inc(j.3), j.4)
    } else {
        (j.0.insert(path), j.1.remove(path), j.2, saturating_inc(j.3), j.4)
    }
}

/// The changes recorded one after the other.
pub open spec fn record_changes(
    j: (Set<Seq<char>>, Set<Seq<char>>, bool, u64, u64),
    changes: Seq<(Seq<char>, bool)>,
) -> (Set<Seq<char>>, Set<Seq<char>>, bool, u64, u64)
    decreases changes.len(),
{
    if changes.len() == 0 {
        j
    } else {
        let prev = record_changes(j, changes.drop_last());
        record_change(prev, changes.last().0, changes.last().1)
    }
}

pub open spec fn changes_view(v: Seq<(String, bool)>) -> Seq<(Seq<char>, bool)> {
    v.map_values(|c: (String, bool)| (c.0@, c.1))
}

/// Records changes, each a workspace-relative path and whether the file
/// was removed; returns whether there were any (and the journal is to be
/// persisted).
pub fn native_record_source_changes(
    journal: &mut NativeSourceChangeJournal,
    changes: &Vec<(String, bool)>,
) -> (persist: bool)
    ensures
        final(journal)@ == record_changes(old(journal)@, changes_view(changes@)),
        persist == (changes@.len() > 0),
{
    let ghost start = journal@;
    let mut i: usize = 0;
    while i < changes.len()
        invariant
            i <= changes@.len(),
            journal@ == record_changes(start, changes_view(changes@).take(i as int)),
        decreases changes@.len() - i,
    {
        let path = changes[i].0.as_str();
        if changes[i].1 {
            journal.changed_files.remove(path);
            journal.removed_files.insert(copy_str(path));
        } else {
            journal.removed_files.remove(path);
            journal.changed_files.insert(copy_str(path));
        }
        journal.cursor = journal.cursor.saturating_add(1);
        assert(changes_view(changes@).take(i + 1).drop_last() =~= changes_view(changes@).take(
            i as int,
        ));
        i = i + 1;
    }
    assert(changes_view(changes@).take(i as int) =~= changes_view(changes@));
    changes.len() > 0
}

/// The kinds of file system events the source watcher tells apart: a
/// removal (or the old name of a rename), a rename that gives both names,
/// any other creation or modification, and events it ignores (accesses
/// and the like).
#[derive(Clone, Copy, Debug, PartialEq, Eq, Structural)]
pub enum SourceChangeEventKind {
    Removed,
    RenamedBoth,
    Changed,
    Ignored,
}

/// The change an event path gives, if it is a tracked Cairo source.
pub open spec fn path_change(root: Seq<char>, path: Seq<char>, removed: bool) -> Seq<
    (Seq<char>, bool),
> {
    match relative_cairo_path(root, path) {
        Some(r) => seq![(r, removed)],
        None => Seq::empty(),
    }
}

/// The changes that event paths give, in order.
pub open spec fn paths_changes(root: Seq<char>, paths: Seq<Seq<char>>, removed: bool) -> Seq<
    (Seq<char>, bool),
>
    decreases paths.len(),
{
    if paths.len() == 0 {
        Seq::empty()
    } else {
        paths_changes(root, paths.drop_last(), removed) + path_change(root, paths.last(), removed)
    }
}

/// The changes an event gives: its paths removed, or changed; for a rename
/// with both names, the first removed and the second changed (with fewer
/// than two paths, all changed); none for an ignored event.
pub open spec fn event_changes(
    root: Seq<char>,
    kind: SourceChangeEventKind,
    paths: Seq<Seq<char>>,
) -> Seq<(Seq<char>, bool)> {
    match kind {
        SourceChangeEventKind::Removed => paths_changes(root, paths, true),
        SourceChangeEventKind::RenamedBoth => if paths.len() >= 2 {
            path_change(root, paths[0], true) + path_change(root, paths[1], false)
        } else {
            paths_changes(root, paths, false)
        },
        SourceChangeEventKind::Changed => paths_changes(root, paths, false),
        SourceChangeEventKind::Ignored => Seq::empty(),
    }
}

fn push_path_change(out: &mut Vec<(String, bool)>, root: &str, path: &str, removed: bool)
    ensures
        changes_view(final(out)@) == changes_view(old(out)@) + path_change(root@, path@, removed),
{
    let ghost before = out@;
    match native_workspace_relative_cairo_path(root, path) {
        Some(r) => {
            out.push((r, removed));
        },
        None => {},
    }
    assert(changes_view(out@) =~= changes_view(before) + path_change(root@, path@, removed));
}

fn push_paths_changes(out: &mut Vec<(String, bool)>, root: &str, paths: &Vec<String>, removed: bool)
    ensures
        changes_view(final(out)@) == changes_view(old(out)@) + paths_changes(
            root@,
            strings_view(paths@),
            removed,
        ),
{
    let ghost start = changes_view(out@);
    let mut i: usize = 0;
    while i < paths.len()
        invariant
            i <= paths@.len(),
            changes_view(out@) == start + paths_changes(
                root@,
                strings_view(paths@).take(i as int),
                removed,
            ),
        decreases paths@.len() - i,
    {
        push_path_change(out, root, paths[i].as_str(), removed);
        assert(strings_view(paths@).take(i + 1).drop_last() =~= strings_view(paths@).take(
            i as int,
        ));
        assert(strings_view(paths@).take(i + 1).last() == paths@[i as int]@);
        i = i + 1;
    }
    assert(strings_view(paths@).take(i as int) =~= strings_view(paths@));
}

/// The changes a file system event gives for the journal.
pub fn native_source_event_changes(
    workspace_root: &str,
    kind: SourceChangeEventKind,
    paths: &Vec<String>,
) -> (changes: Vec<(String, bool)>)
    ensures
        changes_view(changes@) == event_changes(workspace_root@, kind, strings_view(paths@)),
{
    let mut out: Vec<(String, bool)> = Vec::new();
    assert(changes_view(out@) =~= Seq::<(Seq<char>, bool)>::empty());
    match kind {
        SourceChangeEventKind::Removed => push_paths_changes(&mut out, workspace_root, paths, true),
        SourceChangeEventKind::RenamedBoth => {
            if paths.len() >= 2 {
                push_path_change(&mut out, workspace_root, paths[0].as_str(), true);
                push_path_change(&mut out, workspace_root, paths[1].as_str(), false);
            } else {
                push_paths_changes(&mut out, workspace_root, paths, false);
            }
        },
        SourceChangeEventKind::Changed => push_paths_changes(&mut out, workspace_root, paths, false),
        SourceChangeEventKind::Ignored => {},
    }
    assert(changes_view(out@) =~= event_changes(workspace_root@, kind, strings_view(paths@)));
    out
}

/// Records what a file system event says of the workspace's Cairo sources;
/// returns whether anything was recorded (and the journal is to be
/// persisted).
pub fn native_record_source_change_event(
    workspace_root: &str,
    journal: &mut NativeSourceChangeJournal,
    kind: SourceChangeEventKind,
    paths: &Vec<String>,
) -> (persist: bool)
    ensures
        final(journal)@ == record_changes(
            old(journal)@,
            event_changes(workspace_root@, kind, strings_view(paths@)),
        ),
        persist == (event_changes(workspace_root@, kind, strings_view(paths@)).len() > 0),
{
    let changes = native_source_event_changes(workspace_root, kind, paths);
    native_record_source_changes(journal, &changes)
}

/// What a compile session that takes the journal's changes must do to the
/// journal afterwards: the cursor it has applied up to (if it moves), and
/// whether the change sets and the lost-events flag are to be cleared.
#[derive(Clone, Copy, Debug, PartialEq, Eq)]
pub struct NativeSourceJournalCommit {
    pub apply_cursor: Option<u64>,
    pub clear_changed_sets: bool,
    pub clear_overflow: bool,
}

/// What a compile session learns from the journal: nothing changed, these
/// files changed or were removed, or it must scan all sources.
#[derive(Debug)]
pub enum NativeSourceJournalDelta {
    NoChanges { commit: NativeSourceJournalCommit },
    Changed {
        changed_files: Vec<String>,
        removed_files: Vec<String>,
        commit: NativeSourceJournalCommit,
    },
    FallbackFullScan { commit: NativeSourceJournalCommit },
}

pub open spec fn commit_of(apply: Option<u64>, clear_sets: bool, clear_overflow: bool) -> NativeSourceJournalCommit {
    NativeSourceJournalCommit {
        apply_cursor: apply,
        clear_changed_sets: clear_sets,
        clear_overflow: clear_overflow,
    }
}

/// The commit a delta carries.
pub open spec fn delta_commit(d: NativeSourceJournalDelta) -> NativeSourceJournalCommit {
    match d {
        NativeSourceJournalDelta::NoChanges { commit } => commit,
        NativeSourceJournalDelta::Changed { commit, .. } => commit,
        NativeSourceJournalDelta::FallbackFullScan { commit } => commit,
    }
}

/// Whether taking the journal at this session cursor falls back to a full
/// scan: the session claims more than the journal applied (replay from
/// there is ambiguous), or events were lost.
pub open spec fn takes_full_scan(j: (Set<Seq<char>>, Set<Seq<char>>, bool, u64, u64), session_applied_cursor: u64) -> bool {
    session_applied_cursor > min_u64(j.4, j.3) || j.2
}

/// The commit that taking the journal at this session cursor decides.
pub open spec fn taken_commit(
    j: (Set<Seq<char>>, Set<Seq<char>>, bool, u64, u64),
    session_applied_cursor: u64,
) -> NativeSourceJournalCommit {
    if takes_full_scan(j, session_applied_cursor) {
        commit_of(Some(j.3), true, true)
    } else if j.0.len() == 0 && j.1.len() == 0 {
        commit_of(
            if min_u64(j.4, j.3) != j.3 {
                Some(j.3)
            } else {
                None
            },
            false,
            false,
        )
    } else {
        commit_of(Some(j.3), true, false)
    }
}

/// Takes the journal's changes for a compile session that has applied them
/// up to `session_applied_cursor`; with no journal (the watcher could not
/// be set up) the session scans all sources and commits nothing. Changed
/// and removed files come sorted.
pub fn native_take_source_journal_delta(
    journal: Option<&NativeSourceChangeJournal>,
    session_applied_cursor: u64,
) -> (d: NativeSourceJournalDelta)
    ensures
        match journal {
            None => d is FallbackFullScan && delta_commit(d) == commit_of(None, false, false),
            Some(j) => {
                &&& delta_commit(d) == taken_commit(j@, session_applied_cursor)
                &&& takes_full_scan(j@, session_applied_cursor) ==> d is FallbackFullScan
                &&& !takes_full_scan(j@, session_applied_cursor) && j@.0.len() == 0 && j@.1.len()
                    == 0 ==> d is NoChanges
                &&& !takes_full_scan(j@, session_applied_cursor) && !(j@.0.len() == 0 && j@.1.len()
                    == 0) ==> (d matches NativeSourceJournalDelta::Changed {
                    changed_files,
                    removed_files,
                    ..
                } && strings_view(changed_files@) == sorted_distinct(j@.0) && strings_view(
                    removed_files@,
                ) == sorted_distinct(j@.1))
            },
        },
{
    let j = match journal {
        None => {
            return NativeSourceJournalDelta::FallbackFullScan {
                commit: NativeSourceJournalCommit {
                    apply_cursor: None,
                    clear_changed_sets: false,
                    clear_overflow: false,
                },
            };
        },
        Some(j) => j,
    };
    let journal_applied_cursor = if j.applied_cursor <= j.cursor {
        j.applied_cursor
    } else {
        j.cursor
    };
    if session_applied_cursor > journal_applied_cursor || j.overflowed {
        return NativeSourceJournalDelta::FallbackFullScan {
            commit: NativeSourceJournalCommit {
                apply_cursor: Some(j.cursor),
                clear_changed_sets: true,
                clear_overflow: true,
            },
        };
    }
    let changed_len = j.changed_files.len();
    let removed_len = j.removed_files.len();
    if changed_len == 0 && removed_len == 0 {
        let apply = if journal_applied_cursor != j.cursor {
            Some(j.cursor)
        } else {
            None
        };
        return NativeSourceJournalDelta::NoChanges {
            commit: NativeSourceJournalCommit {
                apply_cursor: apply,
                clear_changed_sets: false,
                clear_overflow: false,
            },
        };
    }
    NativeSourceJournalDelta::Changed {
        changed_files: j.changed_files.sorted_items(),
        removed_files: j.removed_files.sorted_items(),
        commit: NativeSourceJournalCommit {
            apply_cursor: Some(j.cursor),
            clear_changed_sets: true,
            clear_overflow: false,
        },
    }
}

/// Whether a commit asks for nothing.
pub open spec fn commit_is_noop(c: NativeSourceJournalCommit) -> bool {
    c.apply_cursor is None && !c.clear_changed_sets && !c.clear_overflow
}

/// The journal after a commit: the change sets and the lost-events flag
/// are cleared as asked only when the applied cursor reaches the journal's
/// cursor (no change came in since the delta was taken); the applied
/// cursor moves to the commit's, never past the journal's cursor.
pub open spec fn committed(
    j: (Set<Seq<char>>, Set<Seq<char>>, bool, u64, u64),
    c: NativeSourceJournalCommit,
) -> (Set<Seq<char>>, Set<Seq<char>>, bool, u64, u64) {
    let caught_up = match c.apply_cursor {
        Some(a) => a >= j.3,
        None => false,
    };
    let clear_sets = c.clear_changed_sets && caught_up;
    (
        if clear_sets {
            Set::empty()
        } else {
            j.0
        },
        if clear_sets {
            Set::empty()
        } else {
            j.1
        },
        if c.clear_overflow && caught_up {
            false
        } else {
            j.2
        },
        j.3,
        match c.apply_cursor {
            Some(a) => min_u64(a, j.3),
            None => min_u64(j.4, j.3),
        },
    )
}

/// Applies a session's commit to the journal; returns whether it asked for
/// anything (and the journal is to be persisted).
pub fn native_commit_source_journal_delta(
    journal: &mut NativeSourceChangeJournal,
    commit: NativeSourceJournalCommit,
) -> (persist: bool)
    ensures
        persist == !commit_is_noop(commit),
        final(journal)@ == (if commit_is_noop(commit) {
            old(journal)@
        } else {
            committed(old(journal)@, commit)
        }),
{
    if commit.apply_cursor.is_none() && !commit.clear_changed_sets && !commit.clear_overflow {
        return false;
    }
    let caught_up = match commit.apply_cursor {
        Some(a) => a >= journal.cursor,
        None => false,
    };
    if commit.clear_changed_sets && caught_up {
        journal.changed_files = StringSet::new();
        journal.removed_files = StringSet::new();
    }
    if commit.clear_overflow && caught_up {
        journal.overflowed = false;
    }
    match commit.apply_cursor {
        Some(a) => {
            journal.applied_cursor = if a <= journal.cursor {
                a
            } else {
                journal.cursor
            };
        },
        None => {
            if journal.applied_cursor > journal.cursor {
                journal.applied_cursor = journal.cursor;
            }
        },
    }
    true
}

/// The journal as it is persisted.
#[derive(Debug, Clone)]
pub struct NativeSourceJournalFile {
    pub schema_version: u32,
    pub changed_files: Vec<String>,
    pub removed_files: Vec<String>,
    pub overflowed: bool,
    pub cursor: u64,
    pub applied_cursor: u64,
    pub updated_at_epoch_ms: u64,
}

/// The first `n` strings of `v` (all of them when fewer), as a set.
pub open spec fn first_set(v: Seq<String>, n: nat) -> Set<Seq<char>> {
    strings_view(v).take(if v.len() < n {
        v.len() as int
    } else {
        n as int
    }).to_set()
}

/// The journal a persisted file gives: at most `max_files` of each list
/// are kept, and a longer list counts as lost events.
pub open spec fn journal_from_file(f: NativeSourceJournalFile, max_files: nat) -> (
    Set<Seq<char>>,
    Set<Seq<char>>,
    bool,
    u64,
    u64,
) {
    (
        first_set(f.changed_files@, max_files),
        first_set(f.removed_files@, max_files),
        f.overflowed || f.changed_files@.len() > max_files || f.removed_files@.len() > max_files,
        f.cursor,
        min_u64(f.applied_cursor, f.cursor),
    )
}

fn first_set_exec(v: &Vec<String>, max_files: usize) -> (s: StringSet)
    ensures
        s@ == first_set(v@, max_files as nat),
{
    let n = if v.len() < max_files {
        v.len()
    } else {
        max_files
    };
    let mut s = StringSet::new();
    let mut i: usize = 0;
    while i < n
        invariant
            i <= n <= v@.len(),
            n == (if v@.len() < max_files {
                v@.len()
            } else {
                max_files as nat
            }),
            s@ == strings_view(v@).take(i as int).to_set(),
        decreases n - i,
    {
        let ghost before = s@;
        s.insert(copy_str(v[i].as_str()));
        assert(strings_view(v@).take(i + 1) =~= strings_view(v@).take(i as int).push(
            v@[i as int]@,
        ));
        proof {
            strings_view(v@).take(i as int).lemma_push_to_set_commute(v@[i as int]@);
        }
        i = i + 1;
    }
    s
}

/// The journal a persisted file gives.
pub fn native_source_journal_state_from_file(decoded: &NativeSourceJournalFile, max_files: usize) -> (j:
    NativeSourceChangeJournal)
    ensures
        j@ == journal_from_file(*decoded, max_files as nat),
{
    let changed_overflow = decoded.changed_files.len() > max_files;
    let removed_overflow = decoded.removed_files.len() > max_files;
    NativeSourceChangeJournal {
        changed_files: first_set_exec(&decoded.changed_files, max_files),
        removed_files: first_set_exec(&decoded.removed_files, max_files),
        overflowed: decoded.overflowed || changed_overflow || removed_overflow,
        cursor: decoded.cursor,
        applied_cursor: if decoded.applied_cursor <= decoded.cursor {
            decoded.applied_cursor
        } else {
            decoded.cursor
        },
    }
}

/// The file that persists a journal: its sets sorted, the applied cursor
/// never past the cursor, stamped with `updated_at_epoch_ms`.
pub fn native_source_journal_file_from_state(state: &NativeSourceChangeJournal, updated_at_epoch_ms: u64) -> (f:
    NativeSourceJournalFile)
    ensures
        f.schema_version == NATIVE_SOURCE_JOURNAL_SCHEMA_VERSION,
        strings_view(f.changed_files@) == sorted_distinct(state@.0),
        strings_view(f.removed_files@) == sorted_distinct(state@.1),
        f.overflowed == state@.2,
        f.cursor == state@.3,
        f.applied_cursor == min_u64(state@.4, state@.3),
        f.updated_at_epoch_ms == updated_at_epoch_ms,
{
    NativeSourceJournalFile {
        schema_version: NATIVE_SOURCE_JOURNAL_SCHEMA_VERSION,
        changed_files: state.changed_files.sorted_items(),
        removed_files: state.removed_files.sorted_items(),
        overflowed: state.overflowed,
        cursor: state.cursor,
        applied_cursor: if state.applied_cursor <= state.cursor {
            state.applied_cursor
        } else {
            state.cursor
        },
        updated_at_epoch_ms,
    }
}

/// The file written when the journal is persisted: a journal holding more
/// than `max_files` changed or removed files is written with empty lists
/// and marked as having lost events.
pub fn native_source_journal_file_for_persist(
    state: &NativeSourceChangeJournal,
    max_files: usize,
    updated_at_epoch_ms: u64,
) -> (f: NativeSourceJournalFile)
    ensures
        f.schema_version == NATIVE_SOURCE_JOURNAL_SCHEMA_VERSION,
        f.cursor == state@.3,
        f.applied_cursor == min_u64(state@.4, state@.3),
        f.updated_at_epoch_ms == updated_at_epoch_ms,
        state@.0.len() > max_files || state@.1.len() > max_files ==> f.changed_files@.len() == 0
            && f.removed_files@.len() == 0 && f.overflowed,
        !(state@.0.len() > max_files || state@.1.len() > max_files) ==> strings_view(
            f.changed_files@,
        ) == sorted_distinct(state@.0) && strings_view(f.removed_files@) == sorted_distinct(
            state@.1,
        ) && f.overflowed == state@.2,
{
    if state.changed_files.len() > max_files || state.removed_files.len() > max_files {
        return NativeSourceJournalFile {
            schema_version: NATIVE_SOURCE_JOURNAL_SCHEMA_VERSION,
            changed_files: Vec::new(),
            removed_files: Vec::new(),
            overflowed: true,
            cursor: state.cursor,
            applied_cursor: if state.applied_cursor <= state.cursor {
                state.applied_cursor
            } else {
                state.cursor
            },
            updated_at_epoch_ms,
        };
    }
    native_source_journal_file_from_state(state, updated_at_epoch_ms)
}

/// How reading the persisted journal went: no valid path for it, no file,
/// the file could not be examined, was over the size limit, could not be
/// read or decoded, or decoded to this file.
#[derive(Debug)]
pub enum NativeSourceJournalLoad {
    PathInvalid,
    Missing,
    StatFailed,
    Oversized,
    ReadFailed,
    DecodeFailed,
    Decoded(NativeSourceJournalFile),
}

/// The journal a load gives: an empty one when there was none (or it had
/// another layout version), one that says events were lost when it could
/// not be used, else the file's.
pub fn load_native_source_change_journal(outcome: &NativeSourceJournalLoad, max_files: usize) -> (j:
    NativeSourceChangeJournal)
    ensures
        match outcome {
            NativeSourceJournalLoad::PathInvalid => j@ == empty_journal(),
            NativeSourceJournalLoad::Missing => j@ == empty_journal(),
            NativeSourceJournalLoad::Decoded(f) => if f.schema_version
                == NATIVE_SOURCE_JOURNAL_SCHEMA_VERSION {
                j@ == journal_from_file(*f, max_files as nat)
            } else {
                j@ == empty_journal()
            },
            _ => j@ == overflowed_journal(),
        },
{
    match outcome {
        NativeSourceJournalLoad::PathInvalid => NativeSourceChangeJournal::new(false),
        NativeSourceJournalLoad::Missing => NativeSourceChangeJournal::new(false),
        NativeSourceJournalLoad::Decoded(f) => if f.schema_version
            == NATIVE_SOURCE_JOURNAL_SCHEMA_VERSION {
            native_source_journal_state_from_file(f, max_files)
        } else {
            NativeSourceChangeJournal::new(false)
        },
        _ => NativeSourceChangeJournal::new(true),
    }
}

/// The sizes of tracked source files, summed.
pub open spec fn sizes_sum(v: Seq<(String, NativeTrackedFileState)>) -> nat
    decreases v.len(),
{
    if v.len() == 0 {
        0
    } else {
        sizes_sum(v.drop_last()) + (v.last().1.size_bytes as nat)
    }
}

/// The total size of the tracked sources (summed with saturation), refused
/// when there are more than `max_files` of them or the total is over
/// `max_total_bytes`.
pub fn native_tracked_sources_total_bytes(
    tracked_sources: &Vec<(String, NativeTrackedFileState)>,
    max_files: usize,
    max_total_bytes: u64,
) -> (r: Result<u64, UcError>)
    ensures
        tracked_sources@.len() > max_files ==> r is Err && (r->Err_0.kind matches ErrorKind::NativeTrackedSourcesTooMany {
            limit,
        } && limit == max_files),
        tracked_sources@.len() <= max_files && saturated(sizes_sum(tracked_sources@))
            > max_total_bytes ==> r is Err && (r->Err_0.kind matches ErrorKind::NativeTrackedSourcesBudgetExceeded {
            total_bytes,
            limit_bytes,
        } && total_bytes == saturated(sizes_sum(tracked_sources@)) && limit_bytes
            == max_total_bytes),
        tracked_sources@.len() <= max_files && saturated(sizes_sum(tracked_sources@))
            <= max_total_bytes ==> r == Ok::<u64, UcError>(
            saturated(sizes_sum(tracked_sources@)) as u64,
        ),
{
    if tracked_sources.len() > max_files {
        return Err(plain_error(ErrorKind::NativeTrackedSourcesTooMany { limit: max_files }));
    }
    let mut total: u64 = 0;
    let mut i: usize = 0;
    while i < tracked_sources.len()
        invariant
            i <= tracked_sources@.len(),
            total == saturated(sizes_sum(tracked_sources@.take(i as int))),
        decreases tracked_sources@.len() - i,
    {
        assert(tracked_sources@.take(i + 1).drop_last() =~= tracked_sources@.take(i as int));
        total = total.saturating_add(tracked_sources[i].1.size_bytes);
        i = i + 1;
    }
    assert(tracked_sources@.take(i as int) =~= tracked_sources@);
    if total > max_total_bytes {
        return Err(
            plain_error(
                ErrorKind::NativeTrackedSourcesBudgetExceeded {
                    total_bytes: total,
                    limit_bytes: max_total_bytes,
                },
            ),
        );
    }
    Ok(total)
}


/// Recording changes keeps the changed and removed sets apart, leaves the
/// lost-events flag and the applied cursor alone, and moves the cursor on
/// by the number of changes (saturating at `u64::MAX`).
pub proof fn lemma_record_changes_keeps_sets_apart(
    j: (Set<Seq<char>>, Set<Seq<char>>, bool, u64, u64),
    changes: Seq<(Seq<char>, bool)>,
)
    requires
        j.0.disjoint(j.1),
    ensures
        record_changes(j, changes).0.disjoint(record_changes(j, changes).1),
        record_changes(j, changes).2 == j.2,
        record_changes(j, changes).4 == j.4,
        record_changes(j, changes).3 == (if j.3 + changes.len() > u64::MAX {
            u64::MAX as int
        } else {
            j.3 + changes.len()
        }),
    decreases changes.len(),
{
    if changes.len() > 0 {
        lemma_record_changes_keeps_sets_apart(j, changes.drop_last());
        let prev = record_changes(j, changes.drop_last());
        let r = record_changes(j, changes);
        let p = changes.last().0;
        assert(r.0.disjoint(r.1)) by {
            assert forall|y: Seq<char>| !(r.0.contains(y) && r.1.contains(y)) by {
                if y != p {
                    assert(r.0.contains(y) == prev.0.contains(y));
                    assert(r.1.contains(y) == prev.1.contains(y));
                }
            }
        }
    }
}

/// The last recorded change of a path decides where it stands: a removed
/// file ends in the removed set and not in the changed set, any other
/// change the other way round.
pub proof fn lemma_record_last_change_decides(
    j: (Set<Seq<char>>, Set<Seq<char>>, bool, u64, u64),
    changes: Seq<(Seq<char>, bool)>,
    k: int,
)
    requires
        0 <= k < changes.len(),
        forall|m: int| k < m < changes.len() ==> (#[trigger] changes[m]).0 != changes[k].0,
    ensures
        changes[k].1 ==> record_changes(j, changes).1.contains(changes[k].0) && !record_changes(
            j,
            changes,
        ).0.contains(changes[k].0),
        !changes[k].1 ==> record_changes(j, changes).0.contains(changes[k].0) && !record_changes(
            j,
            changes,
        ).1.contains(changes[k].0),
    decreases changes.len(),
{
    if k < changes.len() - 1 {
        let d = changes.drop_last();
        assert forall|m: int| k < m < d.len() implies (#[trigger] d[m]).0 != d[k].0 by {
            assert(d[m] == changes[m]);
        }
        lemma_record_last_change_decides(j, d, k);
        assert(changes.last() == changes[changes.len() - 1]);
        assert(d[k] == changes[k]);
    }
}

/// Recording changes that never name a path leaves where it stands alone.
pub proof fn lemma_record_leaves_other_paths(
    j: (Set<Seq<char>>, Set<Seq<char>>, bool, u64, u64),
    changes: Seq<(Seq<char>, bool)>,
    path: Seq<char>,
)
    requires
        forall|m: int| 0 <= m < changes.len() ==> (#[trigger] changes[m]).0 != path,
    ensures
        record_changes(j, changes).0.contains(path) == j.0.contains(path),
        record_changes(j, changes).1.contains(path) == j.1.contains(path),
    decreases changes.len(),
{
    if changes.len() > 0 {
        let d = changes.drop_last();
        assert forall|m: int| 0 <= m < d.len() implies (#[trigger] d[m]).0 != path by {
            assert(d[m] == changes[m]);
        }
        lemma_record_leaves_other_paths(j, d, path);
        assert(changes.last() == changes[changes.len() - 1]);
    }
}

/// Committing what a session took from the journal, with no change
/// recorded in between, leaves nothing pending: no changed or removed
/// files, no lost events, and the applied cursor at the cursor.
pub proof fn lemma_commit_after_take_catches_up(
    j: (Set<Seq<char>>, Set<Seq<char>>, bool, u64, u64),
    session_applied_cursor: u64,
)
    requires
        j.0.finite(),
        j.1.finite(),
    ensures
        ({
            let c = taken_commit(j, session_applied_cursor);
            let after = if commit_is_noop(c) {
                j
            } else {
                committed(j, c)
            };
            &&& after.0.len() == 0
            &&& after.1.len() == 0
            &&& !after.2
            &&& after.3 == j.3
            &&& min_u64(after.4, after.3) == after.3
        }),
{
}

/// A commit never moves the applied cursor past the journal's cursor.
pub proof fn lemma_commit_keeps_applied_within_cursor(
    j: (Set<Seq<char>>, Set<Seq<char>>, bool, u64, u64),
    c: NativeSourceJournalCommit,
)
    ensures
        committed(j, c).4 <= committed(j, c).3,
        committed(j, c).3 == j.3,
{
}

/// A journal written to its file reads back unchanged, when neither set
/// holds more than `max_files` files and the applied cursor is not past
/// the cursor.
pub proof fn lemma_journal_file_roundtrip(
    j: (Set<Seq<char>>, Set<Seq<char>>, bool, u64, u64),
    f: NativeSourceJournalFile,
    max_files: nat,
)
    requires
        j.0.finite(),
        j.1.finite(),
        j.0.len() <= max_files,
        j.1.len() <= max_files,
        j.4 <= j.3,
        strings_view(f.changed_files@) == sorted_distinct(j.0),
        strings_view(f.removed_files@) == sorted_distinct(j.1),
        f.overflowed == j.2,
        f.cursor == j.3,
        f.applied_cursor == min_u64(j.4, j.3),
    ensures
        journal_from_file(f, max_files) == j,
{
    lemma_sorted_distinct_exists(j.0);
    lemma_sorted_distinct_exists(j.1);
    let c = strings_view(f.changed_files@);
    let r = strings_view(f.removed_files@);
    assert(c.take(c.len() as int) =~= c);
    assert(r.take(r.len() as int) =~= r);
}

} // verus!
