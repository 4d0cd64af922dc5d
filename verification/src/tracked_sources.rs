use vstd::prelude::*;
use crate::errors::{plain_error, ErrorKind, UcError};
use crate::impact::is_absolute_path;
use crate::native_plan::NativeTrackedFileState;
use crate::path_parts::{
    file_name_of, has_kind, join_path, joined_path, path_components, path_components_spec,
    components_view, NORMAL, PARENT_DIR, ROOT_DIR,
};
use crate::paths::{has_cairo_extension, is_cairo_file_name, name_view, normalize_fingerprint_path, normalized_path};
use crate::artifact_paths::{clean_artifact_path, validated_relative_artifact_path};
use crate::path_parts::{strip_path_prefix, stripped_prefix};
use crate::source_journal::{native_tracked_sources_total_bytes, sizes_sum};
use crate::string_set::StringSet;
use crate::strorder::{sorted_distinct, str_lt, str_lt_exec};
use crate::surface::{copy_str, strings_view};
use crate::text::{chars_of, str_eq};
use crate::access_cache::saturated;

verus! {

/// The tracked sources as pairs of key and state.
pub open spec fn entries_view(v: Seq<(String, NativeTrackedFileState)>) -> Seq<
    (Seq<char>, NativeTrackedFileState),
> {
    v.map_values(|e: (String, NativeTrackedFileState)| (e.0@, e.1))
}

/// Whether the keys are in strictly increasing order, as a sorted map
/// lists them.
pub open spec fn keys_sorted(v: Seq<(Seq<char>, NativeTrackedFileState)>) -> bool {
    forall|i: int, j: int| 0 <= i < j < v.len() ==> str_lt(#[trigger] v[i].0, #[trigger] v[j].0)
}

/// The state recorded for `key`, if any (the first entry with it).
pub open spec fn lookup(v: Seq<(Seq<char>, NativeTrackedFileState)>, key: Seq<char>) -> Option<
    NativeTrackedFileState,
>
    decreases v.len(),
{
    if v.len() == 0 {
        None
    } else {
        match lookup(v.drop_last(), key) {
            Some(s) => Some(s),
            None => if v.last().0 == key {
                Some(v.last().1)
            } else {
                None
            },
        }
    }
}

/// The entries without `key`.
pub open spec fn without_key(v: Seq<(Seq<char>, NativeTrackedFileState)>, key: Seq<char>) -> Seq<
    (Seq<char>, NativeTrackedFileState),
>
    decreases v.len(),
{
    if v.len() == 0 {
        Seq::empty()
    } else if v.last().0 == key {
        without_key(v.drop_last(), key)
    } else {
        without_key(v.drop_last(), key).push(v.last())
    }
}

/// The entries whose keys come before `key`.
pub open spec fn entries_below(v: Seq<(Seq<char>, NativeTrackedFileState)>, key: Seq<char>) -> Seq<
    (Seq<char>, NativeTrackedFileState),
>
    decreases v.len(),
{
    if v.len() == 0 {
        Seq::empty()
    } else if str_lt(v.last().0, key) {
        entries_below(v.drop_last(), key).push(v.last())
    } else {
        entries_below(v.drop_last(), key)
    }
}

/// The entries whose keys come after `key`.
pub open spec fn entries_above(v: Seq<(Seq<char>, NativeTrackedFileState)>, key: Seq<char>) -> Seq<
    (Seq<char>, NativeTrackedFileState),
>
    decreases v.len(),
{
    if v.len() == 0 {
        Seq::empty()
    } else if str_lt(key, v.last().0) {
        entries_above(v.drop_last(), key).push(v.last())
    } else {
        entries_above(v.drop_last(), key)
    }
}

/// The entries with `key` set to `state`, at its place in key order.
pub open spec fn with_key(
    v: Seq<(Seq<char>, NativeTrackedFileState)>,
    key: Seq<char>,
    state: NativeTrackedFileState,
) -> Seq<(Seq<char>, NativeTrackedFileState)> {
    entries_below(v, key) + seq![(key, state)] + entries_above(v, key)
}

fn lookup_exec(v: &Vec<(String, NativeTrackedFileState)>, key: &str) -> (r: Option<
    NativeTrackedFileState,
>)
    ensures
        r == lookup(entries_view(v@), key@),
{
    let ghost ev = entries_view(v@);
    let mut i: usize = 0;
    while i < v.len()
        invariant
            i <= v@.len(),
            ev == entries_view(v@),
            lookup(ev.take(i as int), key@) is None,
        decreases v@.len() - i,
    {
        assert(ev.take(i + 1).drop_last() =~= ev.take(i as int));
        if str_eq(v[i].0.as_str(), key) {
            proof {
                lemma_lookup_prefix(ev, key@, i + 1);
            }
            return Some(v[i].1);
        }
        i = i + 1;
    }
    assert(ev.take(i as int) =~= ev);
    None
}

proof fn lemma_lookup_prefix(v: Seq<(Seq<char>, NativeTrackedFileState)>, key: Seq<char>, i: int)
    requires
        0 <= i <= v.len(),
        lookup(v.take(i), key) is Some,
    ensures
        lookup(v, key) == lookup(v.take(i), key),
    decreases v.len(),
{
    if i < v.len() {
        assert(v.drop_last().take(i) =~= v.take(i));
        lemma_lookup_prefix(v.drop_last(), key, i);
    } else {
        assert(v.take(i) =~= v);
    }
}

proof fn lemma_without_absent(v: Seq<(Seq<char>, NativeTrackedFileState)>, key: Seq<char>)
    requires
        lookup(v, key) is None,
    ensures
        without_key(v, key) == v,
    decreases v.len(),
{
    if v.len() > 0 {
        lemma_without_absent(v.drop_last(), key);
        assert(v.drop_last().push(v.last()) =~= v);
    }
}

fn copy_entry(e: &(String, NativeTrackedFileState)) -> (c: (String, NativeTrackedFileState))
    ensures
        c.0@ == e.0@,
        c.1 == e.1,
{
    (copy_str(e.0.as_str()), e.1)
}

/// Takes `key` out of the tracked sources; returns whether it was there.
fn remove_tracked(v: &mut Vec<(String, NativeTrackedFileState)>, key: &str) -> (found: bool)
    ensures
        entries_view(final(v)@) == without_key(entries_view(old(v)@), key@),
        found == (lookup(entries_view(old(v)@), key@) is Some),
        !found ==> entries_view(final(v)@) == entries_view(old(v)@),
{
    let ghost start = entries_view(v@);
    let found = lookup_exec(v, key).is_some();
    if !found {
        proof {
            lemma_without_absent(start, key@);
        }
        return false;
    }
    let mut kept: Vec<(String, NativeTrackedFileState)> = Vec::new();
    let mut i: usize = 0;
    while i < v.len()
        invariant
            i <= v@.len(),
            start == entries_view(v@),
            entries_view(kept@) == without_key(start.take(i as int), key@),
        decreases v@.len() - i,
    {
        assert(start.take(i + 1).drop_last() =~= start.take(i as int));
        let ghost before = kept@;
        if !str_eq(v[i].0.as_str(), key) {
            kept.push(copy_entry(&v[i]));
            assert(entries_view(kept@) =~= entries_view(before).push(start[i as int]));
        }
        i = i + 1;
    }
    assert(start.take(i as int) =~= start);
    *v = kept;
    found
}

/// Sets `key` to `state`, keeping the keys in order.
fn set_tracked(v: &mut Vec<(String, NativeTrackedFileState)>, key: &str, state: NativeTrackedFileState)
    ensures
        entries_view(final(v)@) == with_key(entries_view(old(v)@), key@, state),
{
    let ghost start = entries_view(v@);
    let kc = chars_of(key);
    let mut below: Vec<(String, NativeTrackedFileState)> = Vec::new();
    let mut above: Vec<(String, NativeTrackedFileState)> = Vec::new();
    let mut i: usize = 0;
    while i < v.len()
        invariant
            i <= v@.len(),
            start == entries_view(v@),
            kc@ == key@,
            entries_view(below@) == entries_below(start.take(i as int), key@),
            entries_view(above@) == entries_above(start.take(i as int), key@),
        decreases v@.len() - i,
    {
        assert(start.take(i + 1).drop_last() =~= start.take(i as int));
        let ec = chars_of(v[i].0.as_str());
        let ghost b0 = below@;
        let ghost a0 = above@;
        if str_lt_exec(&ec, &kc) {
            below.push(copy_entry(&v[i]));
            assert(entries_view(below@) =~= entries_view(b0).push(start[i as int]));
        }
        if str_lt_exec(&kc, &ec) {
            above.push(copy_entry(&v[i]));
            assert(entries_view(above@) =~= entries_view(a0).push(start[i as int]));
        }
        i = i + 1;
    }
    assert(start.take(i as int) =~= start);
    let ghost bv = entries_view(below@);
    below.push((copy_str(key), state));
    assert(entries_view(below@) =~= bv.push((key@, state)));
    let mut k: usize = 0;
    let ghost b1 = entries_view(below@);
    let ghost av = entries_view(above@);
    while k < above.len()
        invariant
            k <= above@.len(),
            av == entries_view(above@),
            entries_view(below@) == b1 + av.take(k as int),
        decreases above@.len() - k,
    {
        let ghost b2 = below@;
        below.push(copy_entry(&above[k]));
        assert(entries_view(below@) =~= entries_view(b2).push(av[k as int]));
        assert(av.take(k + 1) =~= av.take(k as int).push(av[k as int]));
        k = k + 1;
    }
    assert(av.take(k as int) =~= av);
    *v = below;
}

/// What the source watcher found of a changed file: nothing (it is gone),
/// an error, or the file's metadata (whether it is a regular file, its
/// size, and its modification time when that could be read).
#[derive(Clone, Copy, Debug)]
pub enum ChangedFileObservation {
    Missing,
    StatFailed,
    Present { is_file: bool, size_bytes: u64, modified_unix_ms: Option<u64> },
}

/// Where the tracked sources stand while a journal delta is applied: the
/// entries, and the files found changed and removed so far.
pub open spec fn drop_tracked(
    st: (Seq<(Seq<char>, NativeTrackedFileState)>, Set<Seq<char>>, Set<Seq<char>>),
    key: Seq<char>,
) -> (Seq<(Seq<char>, NativeTrackedFileState)>, Set<Seq<char>>, Set<Seq<char>>) {
    if lookup(st.0, key) is Some {
        (without_key(st.0, key), st.1.remove(key), st.2.insert(key))
    } else {
        st
    }
}

/// The removed files taken out one after the other.
pub open spec fn apply_removed(
    st: (Seq<(Seq<char>, NativeTrackedFileState)>, Set<Seq<char>>, Set<Seq<char>>),
    removed: Seq<Seq<char>>,
) -> (Seq<(Seq<char>, NativeTrackedFileState)>, Set<Seq<char>>, Set<Seq<char>>)
    decreases removed.len(),
{
    if removed.len() == 0 {
        st
    } else {
        drop_tracked(apply_removed(st, removed.drop_last()), removed.last())
    }
}

/// Whether a reported path is a plain relative path (not absolute, no root
/// or `..` component).
pub open spec fn relative_path_ok(path: Seq<char>) -> bool {
    let cs = path_components_spec(path);
    !is_absolute_path(path) && !has_kind(cs, PARENT_DIR) && !has_kind(cs, ROOT_DIR)
}

/// Whether the changed file under the workspace names a `.cairo` file.
pub open spec fn names_cairo_file(root: Seq<char>, path: Seq<char>) -> bool {
    has_cairo_extension(file_name_of(path_components_spec(joined_path(root, path))))
}

/// Why applying a changed file fails, if it does: 1 for a path that is not
/// plainly relative, 2 for a file that could not be examined, 3 for a
/// Cairo file over the size limit, 4 for one without a readable
/// modification time; 0 when it goes through.
pub open spec fn change_failure(
    root: Seq<char>,
    path: Seq<char>,
    o: ChangedFileObservation,
    max_file_bytes: u64,
) -> u8 {
    if !relative_path_ok(path) {
        1
    } else {
        match o {
            ChangedFileObservation::Missing => 0,
            ChangedFileObservation::StatFailed => 2,
            ChangedFileObservation::Present { is_file, size_bytes, modified_unix_ms } => if !is_file
                || !names_cairo_file(root, path) {
                0
            } else if size_bytes > max_file_bytes {
                3
            } else if modified_unix_ms is None {
                4
            } else {
                0
            },
        }
    }
}

/// One changed file applied: a missing file, or one that is not a Cairo
/// file, is dropped; otherwise its state is recorded, and it counts as
/// changed unless the state is the one already recorded (watcher noise).
pub open spec fn change_step(
    root: Seq<char>,
    st: (Seq<(Seq<char>, NativeTrackedFileState)>, Set<Seq<char>>, Set<Seq<char>>),
    path: Seq<char>,
    o: ChangedFileObservation,
) -> (Seq<(Seq<char>, NativeTrackedFileState)>, Set<Seq<char>>, Set<Seq<char>>) {
    match o {
        ChangedFileObservation::Present { is_file, size_bytes, modified_unix_ms } => if !is_file
            || !names_cairo_file(root, path) {
            drop_tracked(st, path)
        } else {
            let next = NativeTrackedFileState {
                size_bytes: size_bytes,
                modified_unix_ms: modified_unix_ms.unwrap(),
            };
            let entries = with_key(st.0, path, next);
            if lookup(st.0, path) == Some(next) {
                (entries, st.1.remove(path), st.2.remove(path))
            } else {
                (entries, st.1.insert(path), st.2.remove(path))
            }
        },
        _ => drop_tracked(st, path),
    }
}

/// The changed files applied one after the other until one fails: the
/// state reached, and the position of the failing file (-1 when none
/// failed).
pub open spec fn apply_changed(
    root: Seq<char>,
    st: (Seq<(Seq<char>, NativeTrackedFileState)>, Set<Seq<char>>, Set<Seq<char>>),
    paths: Seq<Seq<char>>,
    obs: Seq<ChangedFileObservation>,
    max_file_bytes: u64,
) -> ((Seq<(Seq<char>, NativeTrackedFileState)>, Set<Seq<char>>, Set<Seq<char>>), int)
    decreases paths.len(),
{
    if paths.len() == 0 {
        (st, -1)
    } else {
        let i = paths.len() - 1;
        let prev = apply_changed(root, st, paths.drop_last(), obs, max_file_bytes);
        if prev.1 >= 0 {
            prev
        } else if change_failure(root, paths[i], obs[i], max_file_bytes) != 0 {
            (prev.0, i)
        } else {
            (change_step(root, prev.0, paths[i], obs[i]), -1)
        }
    }
}

/// Whether an error reports the failure of applying a changed file.
pub open spec fn reports_failure(kind: ErrorKind, code: u8, path: Seq<char>, o: ChangedFileObservation, max_file_bytes: u64) -> bool {
    if code == 1 {
        kind matches ErrorKind::NativeJournalInvalidRelativePath { path: p } && p@ == path
    } else if code == 2 {
        kind matches ErrorKind::NativeSourceStatFailed { path: p } && p@ == path
    } else if code == 3 {
        kind matches ErrorKind::NativeTrackedFileTooLarge { path: p, size_bytes, limit_bytes } && p@
            == path && limit_bytes == max_file_bytes && (o matches ChangedFileObservation::Present {
            size_bytes: s,
            ..
        } && s == size_bytes)
    } else {
        kind matches ErrorKind::NativeSourceModifiedTimeUnavailable { path: p } && p@ == path
    }
}

pub open spec fn start_state(v: Seq<(String, NativeTrackedFileState)>) -> (
    Seq<(Seq<char>, NativeTrackedFileState)>,
    Set<Seq<char>>,
    Set<Seq<char>>,
) {
    (entries_view(v), Set::empty(), Set::empty())
}

proof fn lemma_sizes_sum_view(v: Seq<(String, NativeTrackedFileState)>)
    ensures
        sizes_sum(v) == view_sizes_sum(entries_view(v)),
    decreases v.len(),
{
    if v.len() > 0 {
        lemma_sizes_sum_view(v.drop_last());
        assert(entries_view(v.drop_last()) =~= entries_view(v).drop_last());
    }
}

/// The sizes of tracked source entries, summed.
pub open spec fn view_sizes_sum(v: Seq<(Seq<char>, NativeTrackedFileState)>) -> nat
    decreases v.len(),
{
    if v.len() == 0 {
        0
    } else {
        view_sizes_sum(v.drop_last()) + (v.last().1.size_bytes as nat)
    }
}

fn relative_path_ok_exec(path: &str) -> (b: bool)
    ensures
        b == relative_path_ok(path@),
{
    let chars = chars_of(path);
    if chars.len() > 0 && chars[0] == '/' {
        return false;
    }
    let cs = path_components(path);
    let ghost csv = components_view(cs@);
    let mut i: usize = 0;
    while i < cs.len()
        invariant
            i <= cs@.len(),
            csv == components_view(cs@),
            csv == path_components_spec(path@),
            forall|j: int| 0 <= j < i ==> (#[trigger] csv[j]).0 != PARENT_DIR && csv[j].0 != ROOT_DIR,
        decreases cs@.len() - i,
    {
        assert(csv[i as int].0 == cs@[i as int].0);
        if cs[i].0 == PARENT_DIR || cs[i].0 == ROOT_DIR {
            return false;
        }
        i = i + 1;
    }
    true
}

fn names_cairo_file_exec(root: &str, path: &str) -> (b: bool)
    ensures
        b == names_cairo_file(root@, path@),
{
    let absolute = join_path(root, path);
    let cs = path_components(absolute.as_str());
    let ghost csv = components_view(cs@);
    let name: Option<&str> = if cs.len() > 0 && cs[cs.len() - 1].0 == NORMAL {
        Some(cs[cs.len() - 1].1.as_str())
    } else {
        None
    };
    assert(name_view(name) == file_name_of(csv)) by {
        if cs@.len() > 0 {
            assert(csv.last() == (cs@.last().0, cs@.last().1@));
        }
    }
    is_cairo_file_name(name)
}

/// Applies what the journal reports to the tracked sources: removed files
/// are dropped, then each changed file is dropped or recorded as the
/// watcher found it (`observations`, one per changed file). Returns the
/// total size of the tracked sources and the files that really changed and
/// were removed (sorted); refuses paths that are not plainly relative,
/// files that could not be examined, oversized Cairo files or ones without
/// a modification time, and totals over the tracker's limits. The tracked
/// sources keep what was applied before a failure.
pub fn native_apply_source_change_journal_delta_in_place(
    workspace_root: &str,
    tracked_sources: &mut Vec<(String, NativeTrackedFileState)>,
    changed_files: &Vec<String>,
    removed_files: &Vec<String>,
    observations: &Vec<ChangedFileObservation>,
    max_file_bytes: u64,
    max_files: usize,
    max_total_bytes: u64,
) -> (r: Result<(u64, Vec<String>, Vec<String>), UcError>)
    requires
        observations@.len() == changed_files@.len(),
    ensures
        ({
            let removed_st = apply_removed(start_state(old(tracked_sources)@), strings_view(removed_files@));
            let applied = apply_changed(
                workspace_root@,
                removed_st,
                strings_view(changed_files@),
                observations@,
                max_file_bytes,
            );
            let st = applied.0;
            let f = applied.1;
            let total = saturated(view_sizes_sum(st.0));
            &&& entries_view(final(tracked_sources)@) == st.0
            &&& f >= 0 ==> r is Err && reports_failure(
                r->Err_0.kind,
                change_failure(workspace_root@, changed_files@[f]@, observations@[f], max_file_bytes),
                changed_files@[f]@,
                observations@[f],
                max_file_bytes,
            )
            &&& f < 0 && st.0.len() > max_files ==> r is Err && (r->Err_0.kind matches ErrorKind::NativeTrackedSourcesTooMany {
                limit,
            } && limit == max_files)
            &&& f < 0 && st.0.len() <= max_files && total > max_total_bytes ==> r is Err
                && (r->Err_0.kind matches ErrorKind::NativeTrackedSourcesBudgetExceeded {
                total_bytes,
                limit_bytes,
            } && total_bytes == total && limit_bytes == max_total_bytes)
            &&& f < 0 && st.0.len() <= max_files && total <= max_total_bytes ==> (r matches Ok(
                (t, changed, removed),
            ) && t == total && strings_view(changed@) == sorted_distinct(st.1) && strings_view(
                removed@,
            ) == sorted_distinct(st.2))
        }),
{
    let ghost start = start_state(tracked_sources@);
    let mut effective_changed = StringSet::new();
    let mut effective_removed = StringSet::new();
    let ghost rv = strings_view(removed_files@);
    let mut i: usize = 0;
    while i < removed_files.len()
        invariant
            i <= removed_files@.len(),
            rv == strings_view(removed_files@),
            start == start_state(old(tracked_sources)@),
            (entries_view(tracked_sources@), effective_changed@, effective_removed@) == apply_removed(
                start,
                rv.take(i as int),
            ),
        decreases removed_files@.len() - i,
    {
        assert(rv.take(i + 1).drop_last() =~= rv.take(i as int));
        assert(rv.take(i + 1).last() == removed_files@[i as int]@);
        let relative = removed_files[i].as_str();
        let ghost prev = (entries_view(tracked_sources@), effective_changed@, effective_removed@);
        if remove_tracked(tracked_sources, relative) {
            effective_removed.insert(copy_str(relative));
            effective_changed.remove(relative);
        }
        i = i + 1;
    }
    assert(rv.take(i as int) =~= rv);
    let ghost removed_st = apply_removed(start, rv);
    let ghost cv = strings_view(changed_files@);
    let mut k: usize = 0;
    while k < changed_files.len()
        invariant
            k <= changed_files@.len(),
            observations@.len() == changed_files@.len(),
            cv == strings_view(changed_files@),
            removed_st == apply_removed(start_state(old(tracked_sources)@), strings_view(removed_files@)),
            apply_changed(workspace_root@, removed_st, cv.take(k as int), observations@, max_file_bytes)
                == ((entries_view(tracked_sources@), effective_changed@, effective_removed@), -1int),
        decreases changed_files@.len() - k,
    {
        let ghost prev = (entries_view(tracked_sources@), effective_changed@, effective_removed@);
        assert(cv[k as int] == changed_files@[k as int]@);
        assert(cv.take(k + 1).drop_last() =~= cv.take(k as int));
        assert(cv.take(k + 1)[k as int] == changed_files@[k as int]@);
        let relative = changed_files[k].as_str();
        let o = observations[k];
        if !relative_path_ok_exec(relative) {
            proof {
                lemma_apply_changed_stops(workspace_root@, removed_st, cv, observations@, max_file_bytes, k as int);
            }
            return Err(
                plain_error(ErrorKind::NativeJournalInvalidRelativePath { path: copy_str(relative) }),
            );
        }
        match o {
            ChangedFileObservation::Missing => {
                if remove_tracked(tracked_sources, relative) {
                    effective_removed.insert(copy_str(relative));
                    effective_changed.remove(relative);
                }
            },
            ChangedFileObservation::StatFailed => {
                proof {
                    lemma_apply_changed_stops(workspace_root@, removed_st, cv, observations@, max_file_bytes, k as int);
                }
                return Err(plain_error(ErrorKind::NativeSourceStatFailed { path: copy_str(relative) }));
            },
            ChangedFileObservation::Present { is_file, size_bytes, modified_unix_ms } => {
                if !is_file || !names_cairo_file_exec(workspace_root, relative) {
                    if remove_tracked(tracked_sources, relative) {
                        effective_removed.insert(copy_str(relative));
                        effective_changed.remove(relative);
                    }
                } else if size_bytes > max_file_bytes {
                    proof {
                        lemma_apply_changed_stops(workspace_root@, removed_st, cv, observations@, max_file_bytes, k as int);
                    }
                    return Err(
                        plain_error(
                            ErrorKind::NativeTrackedFileTooLarge {
                                path: copy_str(relative),
                                size_bytes,
                                limit_bytes: max_file_bytes,
                            },
                        ),
                    );
                } else {
                    match modified_unix_ms {
                        None => {
                            proof {
                                lemma_apply_changed_stops(workspace_root@, removed_st, cv, observations@, max_file_bytes, k as int);
                            }
                            return Err(
                                plain_error(
                                    ErrorKind::NativeSourceModifiedTimeUnavailable {
                                        path: copy_str(relative),
                                    },
                                ),
                            );
                        },
                        Some(m) => {
                            let next = NativeTrackedFileState { size_bytes, modified_unix_ms: m };
                            let previous = lookup_exec(tracked_sources, relative);
                            set_tracked(tracked_sources, relative, next);
                            let same = match previous {
                                Some(p) => p == next,
                                None => false,
                            };
                            if same {
                                effective_changed.remove(relative);
                                effective_removed.remove(relative);
                            } else {
                                effective_removed.remove(relative);
                                effective_changed.insert(copy_str(relative));
                            }
                        },
                    }
                }
            },
        }
        k = k + 1;
    }
    assert(cv.take(k as int) =~= cv);
    proof {
        lemma_sizes_sum_view(tracked_sources@);
        assert(entries_view(tracked_sources@).len() == tracked_sources@.len());
    }
    let total = match native_tracked_sources_total_bytes(tracked_sources, max_files, max_total_bytes) {
        Ok(t) => t,
        Err(e) => {
            return Err(e);
        },
    };
    Ok((total, effective_changed.sorted_items(), effective_removed.sorted_items()))
}

proof fn lemma_apply_changed_stops(
    root: Seq<char>,
    st: (Seq<(Seq<char>, NativeTrackedFileState)>, Set<Seq<char>>, Set<Seq<char>>),
    paths: Seq<Seq<char>>,
    obs: Seq<ChangedFileObservation>,
    max_file_bytes: u64,
    k: int,
)
    requires
        0 <= k < paths.len(),
        apply_changed(root, st, paths.take(k), obs, max_file_bytes).1 == -1,
        change_failure(root, paths[k], obs[k], max_file_bytes) != 0,
    ensures
        apply_changed(root, st, paths, obs, max_file_bytes) == (
            apply_changed(root, st, paths.take(k), obs, max_file_bytes).0,
            k,
        ),
    decreases paths.len(),
{
    if k < paths.len() - 1 {
        let d = paths.drop_last();
        assert(d.take(k) =~= paths.take(k));
        assert(d[k] == paths[k]);
        lemma_apply_changed_stops(root, st, d, obs, max_file_bytes, k);
    } else {
        assert(paths.drop_last() =~= paths.take(k));
    }
}


proof fn lemma_below_parts(v: Seq<(Seq<char>, NativeTrackedFileState)>, key: Seq<char>)
    ensures
        forall|i: int|
            0 <= i < entries_below(v, key).len() ==> v.contains(#[trigger] entries_below(v, key)[i])
                && str_lt(entries_below(v, key)[i].0, key),
        keys_sorted(v) ==> keys_sorted(entries_below(v, key)),
        forall|q: Seq<char>| str_lt(q, key) ==> #[trigger] lookup(entries_below(v, key), q) == lookup(v, q),
    decreases v.len(),
{
    if v.len() > 0 {
        let d = v.drop_last();
        lemma_below_parts(d, key);
        let b = entries_below(d, key);
        assert forall|i: int| 0 <= i < b.len() implies v.contains(#[trigger] b[i]) by {
            let j = choose|j: int| 0 <= j < d.len() && d[j] == b[i];
            assert(v[j] == d[j]);
        }
        if str_lt(v.last().0, key) {
            assert(v[v.len() - 1] == v.last());
            if keys_sorted(v) {
                assert(keys_sorted(d)) by {
                    assert forall|i: int, j: int| 0 <= i < j < d.len() implies str_lt(#[trigger] d[i].0, #[trigger] d[j].0) by {
                        assert(d[i] == v[i] && d[j] == v[j]);
                    }
                }
                let nb = b.push(v.last());
                assert forall|i: int, j: int| 0 <= i < j < nb.len() implies str_lt(#[trigger] nb[i].0, #[trigger] nb[j].0) by {
                    if j == b.len() {
                        let m = choose|m: int| 0 <= m < d.len() && d[m] == b[i];
                        assert(v[m] == d[m]);
                        assert(str_lt(v[m].0, v[v.len() - 1].0));
                    } else {
                        assert(nb[i] == b[i] && nb[j] == b[j]);
                    }
                }
            }
            assert forall|q: Seq<char>| str_lt(q, key) implies #[trigger] lookup(entries_below(v, key), q) == lookup(v, q) by {
                assert(entries_below(v, key).drop_last() =~= b);
                assert(lookup(b, q) == lookup(d, q));
            }
        } else {
            if keys_sorted(v) {
                assert forall|i: int, j: int| 0 <= i < j < d.len() implies str_lt(#[trigger] d[i].0, #[trigger] d[j].0) by {
                    assert(d[i] == v[i] && d[j] == v[j]);
                }
            }
            assert forall|q: Seq<char>| str_lt(q, key) implies #[trigger] lookup(entries_below(v, key), q) == lookup(v, q) by {
                assert(lookup(b, q) == lookup(d, q));
                if v.last().0 == q {
                    crate::strorder::lemma_str_lt_asymmetric(q, key);
                }
            }
        }
    }
}

proof fn lemma_above_parts(v: Seq<(Seq<char>, NativeTrackedFileState)>, key: Seq<char>)
    ensures
        forall|i: int|
            0 <= i < entries_above(v, key).len() ==> v.contains(#[trigger] entries_above(v, key)[i])
                && str_lt(key, entries_above(v, key)[i].0),
        keys_sorted(v) ==> keys_sorted(entries_above(v, key)),
        forall|q: Seq<char>| str_lt(key, q) ==> #[trigger] lookup(entries_above(v, key), q) == lookup(v, q),
    decreases v.len(),
{
    if v.len() > 0 {
        let d = v.drop_last();
        lemma_above_parts(d, key);
        let b = entries_above(d, key);
        assert forall|i: int| 0 <= i < b.len() implies v.contains(#[trigger] b[i]) by {
            let j = choose|j: int| 0 <= j < d.len() && d[j] == b[i];
            assert(v[j] == d[j]);
        }
        if str_lt(key, v.last().0) {
            assert(v[v.len() - 1] == v.last());
            if keys_sorted(v) {
                assert(keys_sorted(d)) by {
                    assert forall|i: int, j: int| 0 <= i < j < d.len() implies str_lt(#[trigger] d[i].0, #[trigger] d[j].0) by {
                        assert(d[i] == v[i] && d[j] == v[j]);
                    }
                }
                let nb = b.push(v.last());
                assert forall|i: int, j: int| 0 <= i < j < nb.len() implies str_lt(#[trigger] nb[i].0, #[trigger] nb[j].0) by {
                    if j == b.len() {
                        let m = choose|m: int| 0 <= m < d.len() && d[m] == b[i];
                        assert(v[m] == d[m]);
                        assert(str_lt(v[m].0, v[v.len() - 1].0));
                    } else {
                        assert(nb[i] == b[i] && nb[j] == b[j]);
                    }
                }
            }
            assert forall|q: Seq<char>| str_lt(key, q) implies #[trigger] lookup(entries_above(v, key), q) == lookup(v, q) by {
                assert(entries_above(v, key).drop_last() =~= b);
                assert(lookup(b, q) == lookup(d, q));
            }
        } else {
            if keys_sorted(v) {
                assert forall|i: int, j: int| 0 <= i < j < d.len() implies str_lt(#[trigger] d[i].0, #[trigger] d[j].0) by {
                    assert(d[i] == v[i] && d[j] == v[j]);
                }
            }
            assert forall|q: Seq<char>| str_lt(key, q) implies #[trigger] lookup(entries_above(v, key), q) == lookup(v, q) by {
                assert(lookup(b, q) == lookup(d, q));
                if v.last().0 == q {
                    crate::strorder::lemma_str_lt_asymmetric(key, q);
                }
            }
        }
    }
}

proof fn lemma_lookup_concat(a: Seq<(Seq<char>, NativeTrackedFileState)>, b: Seq<(Seq<char>, NativeTrackedFileState)>, q: Seq<char>)
    ensures
        lookup(a + b, q) == (if lookup(a, q) is Some {
            lookup(a, q)
        } else {
            lookup(b, q)
        }),
    decreases b.len(),
{
    if b.len() == 0 {
        assert(a + b =~= a);
    } else {
        lemma_lookup_concat(a, b.drop_last(), q);
        assert((a + b).drop_last() =~= a + b.drop_last());
    }
}

proof fn lemma_lookup_none_below(v: Seq<(Seq<char>, NativeTrackedFileState)>, q: Seq<char>, below: bool)
    requires
        forall|i: int| 0 <= i < v.len() ==> (if below {
            str_lt(#[trigger] v[i].0, q)
        } else {
            str_lt(q, #[trigger] v[i].0)
        }),
    ensures
        lookup(v, q) is None,
    decreases v.len(),
{
    if v.len() > 0 {
        let d = v.drop_last();
        assert forall|i: int| 0 <= i < d.len() implies (if below {
            str_lt(#[trigger] d[i].0, q)
        } else {
            str_lt(q, #[trigger] d[i].0)
        }) by {
            assert(d[i] == v[i]);
        }
        lemma_lookup_none_below(d, q, below);
        assert(v[v.len() - 1] == v.last());
        crate::strorder::lemma_str_lt_irreflexive(q);
    }
}

/// Setting a key in the tracked sources keeps them a sorted map: the keys
/// stay in strictly increasing order, the key reads back the state it was
/// set to, and every other key reads as before.
pub proof fn lemma_with_key_is_map_insert(
    v: Seq<(Seq<char>, NativeTrackedFileState)>,
    key: Seq<char>,
    state: NativeTrackedFileState,
    other: Seq<char>,
)
    requires
        keys_sorted(v),
        other != key,
    ensures
        keys_sorted(with_key(v, key, state)),
        lookup(with_key(v, key, state), key) == Some(state),
        lookup(with_key(v, key, state), other) == lookup(v, other),
{
    lemma_below_parts(v, key);
    lemma_above_parts(v, key);
    let b = entries_below(v, key);
    let a = entries_above(v, key);
    let w = with_key(v, key, state);
    assert(w == b + seq![(key, state)] + a);
    assert forall|i: int, j: int| 0 <= i < j < w.len() implies str_lt(#[trigger] w[i].0, #[trigger] w[j].0) by {
        if j < b.len() {
            assert(w[i] == b[i] && w[j] == b[j]);
        } else if j == b.len() {
            assert(w[i] == b[i]);
        } else if i < b.len() {
            assert(w[i] == b[i]);
            assert(w[j] == a[j - b.len() - 1]);
            crate::strorder::lemma_str_lt_transitive(b[i].0, key, a[j - b.len() - 1].0);
        } else if i == b.len() {
            assert(w[j] == a[j - b.len() - 1]);
        } else {
            assert(w[i] == a[i - b.len() - 1] && w[j] == a[j - b.len() - 1]);
        }
    }
    lemma_lookup_concat(b + seq![(key, state)], a, key);
    lemma_lookup_concat(b, seq![(key, state)], key);
    lemma_lookup_none_below(b, key, true);
    let one = seq![(key, state)];
    let none = Seq::<(Seq<char>, NativeTrackedFileState)>::empty();
    assert(one.drop_last() =~= none);
    assert(one.last() == (key, state));
    assert(lookup(none, key) is None);
    assert(lookup(none, other) is None);
    assert(lookup(one, key) == Some(state));
    lemma_lookup_concat(b + seq![(key, state)], a, other);
    lemma_lookup_concat(b, seq![(key, state)], other);
    assert(lookup(one, other) is None);
    crate::strorder::lemma_str_lt_total(other, key);
    if str_lt(other, key) {
        assert forall|i: int| 0 <= i < a.len() implies str_lt(other, #[trigger] a[i].0) by {
            crate::strorder::lemma_str_lt_transitive(other, key, a[i].0);
        }
        lemma_lookup_none_below(a, other, false);
    } else {
        assert forall|i: int| 0 <= i < b.len() implies str_lt(#[trigger] b[i].0, other) by {
            crate::strorder::lemma_str_lt_transitive(b[i].0, key, other);
        }
        lemma_lookup_none_below(b, other, true);
    }
}


proof fn lemma_without_parts(v: Seq<(Seq<char>, NativeTrackedFileState)>, key: Seq<char>)
    ensures
        forall|i: int| 0 <= i < without_key(v, key).len() ==> v.contains(#[trigger] without_key(v, key)[i]),
        keys_sorted(v) ==> keys_sorted(without_key(v, key)),
        lookup(without_key(v, key), key) is None,
        forall|q: Seq<char>| q != key ==> #[trigger] lookup(without_key(v, key), q) == lookup(v, q),
    decreases v.len(),
{
    if v.len() > 0 {
        let d = v.drop_last();
        lemma_without_parts(d, key);
        let b = without_key(d, key);
        assert forall|i: int| 0 <= i < b.len() implies v.contains(#[trigger] b[i]) by {
            let j = choose|j: int| 0 <= j < d.len() && d[j] == b[i];
            assert(v[j] == d[j]);
        }
        if keys_sorted(v) {
            assert(keys_sorted(d)) by {
                assert forall|i: int, j: int| 0 <= i < j < d.len() implies str_lt(#[trigger] d[i].0, #[trigger] d[j].0) by {
                    assert(d[i] == v[i] && d[j] == v[j]);
                }
            }
        }
        if v.last().0 != key {
            let nb = b.push(v.last());
            assert(v[v.len() - 1] == v.last());
            if keys_sorted(v) {
                assert forall|i: int, j: int| 0 <= i < j < nb.len() implies str_lt(#[trigger] nb[i].0, #[trigger] nb[j].0) by {
                    if j == b.len() {
                        let m = choose|m: int| 0 <= m < d.len() && d[m] == b[i];
                        assert(v[m] == d[m]);
                        assert(str_lt(v[m].0, v[v.len() - 1].0));
                    } else {
                        assert(nb[i] == b[i] && nb[j] == b[j]);
                    }
                }
            }
            assert(nb.drop_last() =~= b);
            assert forall|q: Seq<char>| q != key implies #[trigger] lookup(without_key(v, key), q) == lookup(v, q) by {
                assert(lookup(b, q) == lookup(d, q));
            }
        } else {
            assert forall|q: Seq<char>| q != key implies #[trigger] lookup(without_key(v, key), q) == lookup(v, q) by {
                assert(lookup(b, q) == lookup(d, q));
            }
        }
    }
}

/// Taking a key out of the tracked sources keeps them a sorted map: the
/// keys stay in strictly increasing order, the key reads as absent, and
/// every other key reads as before.
pub proof fn lemma_without_key_is_map_remove(
    v: Seq<(Seq<char>, NativeTrackedFileState)>,
    key: Seq<char>,
    other: Seq<char>,
)
    requires
        keys_sorted(v),
        other != key,
    ensures
        keys_sorted(without_key(v, key)),
        lookup(without_key(v, key), key) is None,
        lookup(without_key(v, key), other) == lookup(v, other),
{
    lemma_without_parts(v, key);
}


proof fn lemma_removed_keeps_sorted(
    st: (Seq<(Seq<char>, NativeTrackedFileState)>, Set<Seq<char>>, Set<Seq<char>>),
    removed: Seq<Seq<char>>,
)
    requires
        keys_sorted(st.0),
    ensures
        keys_sorted(apply_removed(st, removed).0),
    decreases removed.len(),
{
    if removed.len() > 0 {
        lemma_removed_keeps_sorted(st, removed.drop_last());
        lemma_without_parts(apply_removed(st, removed.drop_last()).0, removed.last());
    }
}

proof fn lemma_changed_keeps_sorted(
    root: Seq<char>,
    st: (Seq<(Seq<char>, NativeTrackedFileState)>, Set<Seq<char>>, Set<Seq<char>>),
    paths: Seq<Seq<char>>,
    obs: Seq<ChangedFileObservation>,
    max_file_bytes: u64,
)
    requires
        keys_sorted(st.0),
    ensures
        keys_sorted(apply_changed(root, st, paths, obs, max_file_bytes).0.0),
    decreases paths.len(),
{
    if paths.len() > 0 {
        lemma_changed_keeps_sorted(root, st, paths.drop_last(), obs, max_file_bytes);
        let prev = apply_changed(root, st, paths.drop_last(), obs, max_file_bytes);
        let p = paths[paths.len() - 1];
        lemma_without_parts(prev.0.0, p);
        match obs[paths.len() - 1] {
            ChangedFileObservation::Present { is_file, size_bytes, modified_unix_ms } => {
                if modified_unix_ms is Some {
                    let next = NativeTrackedFileState {
                        size_bytes: size_bytes,
                        modified_unix_ms: modified_unix_ms.unwrap(),
                    };
                    assert(p.push('a').len() != p.len());
                    lemma_with_key_is_map_insert(prev.0.0, p, next, p.push('a'));
                }
            },
            _ => {},
        }
    }
}

/// Applying a journal delta keeps the tracked sources a sorted map: when
/// their keys start in strictly increasing order they end so, whether or
/// not a changed file fails.
pub proof fn lemma_apply_delta_keeps_keys_sorted(
    root: Seq<char>,
    sources: Seq<(String, NativeTrackedFileState)>,
    removed: Seq<Seq<char>>,
    changed: Seq<Seq<char>>,
    obs: Seq<ChangedFileObservation>,
    max_file_bytes: u64,
)
    requires
        keys_sorted(entries_view(sources)),
    ensures
        keys_sorted(
            apply_changed(
                root,
                apply_removed(start_state(sources), removed),
                changed,
                obs,
                max_file_bytes,
            ).0.0,
        ),
{
    lemma_removed_keeps_sorted(start_state(sources), removed);
    lemma_changed_keeps_sorted(root, apply_removed(start_state(sources), removed), changed, obs, max_file_bytes);
}


/// The canonical key of a tracked source: an absolute path under the
/// workspace becomes its cleaned workspace-relative path, another absolute
/// path stays as it is, and a relative path is cleaned; all with forward
/// slashes. `None` when a relative path cannot be cleaned (it climbs out
/// or names nothing).
pub open spec fn canonical_source_key(root: Seq<char>, key: Seq<char>) -> Option<Seq<char>> {
    if is_absolute_path(key) {
        match stripped_prefix(key, root) {
            Some(rest) => match clean_artifact_path(normalized_path(rest)) {
                Ok(c) => Some(normalized_path(c)),
                Err(_) => None,
            },
            None => Some(normalized_path(key)),
        }
    } else {
        match clean_artifact_path(key) {
            Ok(c) => Some(normalized_path(c)),
            Err(_) => None,
        }
    }
}

/// The canonical key of a tracked source, refused when it cannot be made
/// a clean workspace-relative path.
pub fn native_normalize_tracked_source_key(workspace_root: &str, tracked_path: &str) -> (r: Result<
    String,
    UcError,
>)
    ensures
        match canonical_source_key(workspace_root@, tracked_path@) {
            Some(k) => r is Ok && r->Ok_0@ == k,
            None => r is Err && (r->Err_0.kind matches ErrorKind::NativeTrackedSourceKeyInvalid {
                key,
            } && key@ == tracked_path@),
        },
{
    let chars = chars_of(tracked_path);
    if chars.len() > 0 && chars[0] == '/' {
        match strip_path_prefix(tracked_path, workspace_root) {
            Some(rest) => {
                let relative = normalize_fingerprint_path(rest.as_str());
                return match validated_relative_artifact_path(relative.as_str()) {
                    Ok(c) => Ok(normalize_fingerprint_path(c.as_str())),
                    Err(_) => Err(
                        plain_error(ErrorKind::NativeTrackedSourceKeyInvalid { key: copy_str(tracked_path) }),
                    ),
                };
            },
            None => {
                return Ok(normalize_fingerprint_path(tracked_path));
            },
        }
    }
    match validated_relative_artifact_path(tracked_path) {
        Ok(c) => Ok(normalize_fingerprint_path(c.as_str())),
        Err(_) => Err(plain_error(ErrorKind::NativeTrackedSourceKeyInvalid { key: copy_str(tracked_path) })),
    }
}

/// The tracked sources under canonical keys, folded in order: the entries
/// so far and whether any key changed; or the failure: 1 with a key that
/// cannot be made canonical, 2 with a canonical key that two entries reach
/// with different states.
pub open spec fn canonical_sources(root: Seq<char>, v: Seq<(Seq<char>, NativeTrackedFileState)>) -> Result<
    (Seq<(Seq<char>, NativeTrackedFileState)>, bool),
    (u8, Seq<char>),
>
    decreases v.len(),
{
    if v.len() == 0 {
        Ok((Seq::empty(), false))
    } else {
        match canonical_sources(root, v.drop_last()) {
            Err(e) => Err(e),
            Ok(acc) => {
                let (path, state) = v.last();
                match canonical_source_key(root, path) {
                    None => Err((1u8, path)),
                    Some(k) => {
                        let renamed = acc.1 || k != path;
                        match lookup(acc.0, k) {
                            None => Ok((with_key(acc.0, k, state), renamed)),
                            Some(existing) => if existing != state {
                                Err((2u8, k))
                            } else {
                                Ok((acc.0, true))
                            },
                        }
                    },
                }
            },
        }
    }
}

/// Puts the tracked sources under canonical keys; returns them with
/// whether any key changed or two merged, refusing a key that cannot be
/// made canonical and two entries that reach one key with different
/// states.
pub fn native_normalize_tracked_sources(
    workspace_root: &str,
    tracked_sources: &Vec<(String, NativeTrackedFileState)>,
) -> (r: Result<(Vec<(String, NativeTrackedFileState)>, bool), UcError>)
    ensures
        match canonical_sources(workspace_root@, entries_view(tracked_sources@)) {
            Ok((entries, changed)) => (r matches Ok((out, c)) && entries_view(out@) == entries && c
                == changed),
            Err((code, key)) => r is Err && (if code == 1 {
                r->Err_0.kind matches ErrorKind::NativeTrackedSourceKeyInvalid { key: k } && k@ == key
            } else {
                r->Err_0.kind matches ErrorKind::NativeTrackedSourceKeyConflict { key: k } && k@
                    == key
            }),
        },
{
    let ghost ev = entries_view(tracked_sources@);
    let mut out: Vec<(String, NativeTrackedFileState)> = Vec::new();
    let mut changed = false;
    let mut i: usize = 0;
    assert(ev.take(0) =~= Seq::<(Seq<char>, NativeTrackedFileState)>::empty());
    assert(entries_view(out@) =~= Seq::<(Seq<char>, NativeTrackedFileState)>::empty());
    while i < tracked_sources.len()
        invariant
            i <= tracked_sources@.len(),
            ev == entries_view(tracked_sources@),
            canonical_sources(workspace_root@, ev.take(i as int)) == Ok::<
                (Seq<(Seq<char>, NativeTrackedFileState)>, bool),
                (u8, Seq<char>),
            >((entries_view(out@), changed)),
        decreases tracked_sources@.len() - i,
    {
        let ghost pre = ev.take(i as int);
        assert(ev.take(i + 1).drop_last() =~= pre);
        assert(ev.take(i + 1).last() == ev[i as int]);
        let path = tracked_sources[i].0.as_str();
        let state = tracked_sources[i].1;
        let key = match native_normalize_tracked_source_key(workspace_root, path) {
            Ok(k) => k,
            Err(_) => {
                proof {
                    lemma_canonical_sources_stops(workspace_root@, ev, i as int);
                }
                return Err(plain_error(ErrorKind::NativeTrackedSourceKeyInvalid { key: copy_str(path) }));
            },
        };
        if !str_eq(key.as_str(), path) {
            changed = true;
        }
        match lookup_exec(&out, key.as_str()) {
            None => {
                set_tracked(&mut out, key.as_str(), state);
            },
            Some(existing) => {
                if existing != state {
                    proof {
                        lemma_canonical_sources_stops(workspace_root@, ev, i as int);
                    }
                    return Err(plain_error(ErrorKind::NativeTrackedSourceKeyConflict { key }));
                }
                changed = true;
            },
        }
        i = i + 1;
    }
    assert(ev.take(i as int) =~= ev);
    Ok((out, changed))
}

proof fn lemma_canonical_sources_stops(root: Seq<char>, v: Seq<(Seq<char>, NativeTrackedFileState)>, i: int)
    requires
        0 <= i < v.len(),
        canonical_sources(root, v.take(i + 1)) is Err,
    ensures
        canonical_sources(root, v) == canonical_sources(root, v.take(i + 1)),
    decreases v.len(),
{
    if i + 1 < v.len() {
        assert(v.drop_last().take(i + 1) =~= v.take(i + 1));
        lemma_canonical_sources_stops(root, v.drop_last(), i);
    } else {
        assert(v.take(i + 1) =~= v);
    }
}

} // verus!
