use vstd::prelude::*;
use crate::surface::{copy_str, strings_view};
use crate::text::{push_char, push_str, str_eq};

verus! {

/// What is remembered of a tracked source file: its size and modification
/// time.
#[derive(Clone, Copy, Debug, PartialEq, Eq, Structural)]
pub struct NativeTrackedFileState {
    pub size_bytes: u64,
    pub modified_unix_ms: u64,
}

/// The state recorded for `key` in a list of tracked files (the first
/// entry with that key), if any.
pub open spec fn tracked_state(m: Seq<(String, NativeTrackedFileState)>, key: Seq<char>) -> Option<
    NativeTrackedFileState,
>
    decreases m.len(),
{
    if m.len() == 0 {
        None
    } else {
        match tracked_state(m.drop_last(), key) {
            Some(s) => Some(s),
            None => if m.last().0@ == key {
                Some(m.last().1)
            } else {
                None
            },
        }
    }
}

/// The keys of `current` whose state differs from (or is missing in)
/// `previous`, in order.
pub open spec fn changed_keys(
    previous: Seq<(String, NativeTrackedFileState)>,
    current: Seq<(String, NativeTrackedFileState)>,
) -> Seq<Seq<char>>
    decreases current.len(),
{
    if current.len() == 0 {
        Seq::empty()
    } else {
        let r = changed_keys(previous, current.drop_last());
        if tracked_state(previous, current.last().0@) != Some(current.last().1) {
            r.push(current.last().0@)
        } else {
            r
        }
    }
}

/// The keys of `previous` missing from `current`, in order.
pub open spec fn removed_keys(
    previous: Seq<(String, NativeTrackedFileState)>,
    current: Seq<(String, NativeTrackedFileState)>,
) -> Seq<Seq<char>>
    decreases previous.len(),
{
    if previous.len() == 0 {
        Seq::empty()
    } else {
        let r = removed_keys(previous.drop_last(), current);
        if tracked_state(current, previous.last().0@) is None {
            r.push(previous.last().0@)
        } else {
            r
        }
    }
}

fn lookup_tracked(m: &Vec<(String, NativeTrackedFileState)>, key: &str) -> (r: Option<
    NativeTrackedFileState,
>)
    ensures
        r == tracked_state(m@, key@),
{
    let mut i: usize = 0;
    while i < m.len()
        invariant
            i <= m@.len(),
            tracked_state(m@.take(i as int), key@) is None,
        decreases m@.len() - i,
    {
        assert(m@.take(i + 1).drop_last() =~= m@.take(i as int));
        if str_eq(m[i].0.as_str(), key) {
            proof {
                lemma_tracked_state_prefix(m@, key@, i + 1);
            }
            return Some(m[i].1);
        }
        i = i + 1;
    }
    assert(m@.take(i as int) =~= m@);
    None
}

proof fn lemma_tracked_state_prefix(m: Seq<(String, NativeTrackedFileState)>, key: Seq<char>, i: int)
    requires
        0 <= i <= m.len(),
        tracked_state(m.take(i), key) is Some,
    ensures
        tracked_state(m, key) == tracked_state(m.take(i), key),
    decreases m.len(),
{
    if i < m.len() {
        assert(m.drop_last().take(i) =~= m.take(i));
        lemma_tracked_state_prefix(m.drop_last(), key, i);
    } else {
        assert(m.take(i) =~= m);
    }
}

/// Compares two snapshots of the tracked sources (each in key order): the
/// keys that changed or appeared, and the keys that disappeared.
pub fn native_diff_tracked_sources(
    previous: &Vec<(String, NativeTrackedFileState)>,
    current: &Vec<(String, NativeTrackedFileState)>,
) -> (r: (Vec<String>, Vec<String>))
    ensures
        strings_view(r.0@) == changed_keys(previous@, current@),
        strings_view(r.1@) == removed_keys(previous@, current@),
{
    let mut changed: Vec<String> = Vec::new();
    let mut i: usize = 0;
    while i < current.len()
        invariant
            i <= current@.len(),
            strings_view(changed@) == changed_keys(previous@, current@.take(i as int)),
        decreases current@.len() - i,
    {
        let ghost before = changed@;
        assert(current@.take(i + 1).drop_last() =~= current@.take(i as int));
        let prev = lookup_tracked(previous, current[i].0.as_str());
        let differs = match prev {
            Some(p) => p != current[i].1,
            None => true,
        };
        if differs {
            changed.push(copy_str(current[i].0.as_str()));
            assert(strings_view(changed@) =~= strings_view(before).push(current@[i as int].0@));
        }
        i = i + 1;
    }
    assert(current@.take(i as int) =~= current@);
    let mut removed: Vec<String> = Vec::new();
    let mut j: usize = 0;
    while j < previous.len()
        invariant
            j <= previous@.len(),
            strings_view(removed@) == removed_keys(previous@.take(j as int), current@),
        decreases previous@.len() - j,
    {
        let ghost before = removed@;
        assert(previous@.take(j + 1).drop_last() =~= previous@.take(j as int));
        if lookup_tracked(current, previous[j].0.as_str()).is_none() {
            removed.push(copy_str(previous[j].0.as_str()));
            assert(strings_view(removed@) =~= strings_view(before).push(previous@[j as int].0@));
        }
        j = j + 1;
    }
    assert(previous@.take(j as int) =~= previous@);
    (changed, removed)
}

/// Whether some string of `v` reads `k`.
pub open spec fn names_contain(v: Seq<String>, k: Seq<char>) -> bool {
    exists|i: int| 0 <= i < v.len() && (#[trigger] v[i])@ == k
}

/// The entries of `deps` whose module path is one of `mod_paths`, in order.
pub open spec fn kept_dependencies(
    deps: Seq<(String, Vec<String>)>,
    mod_paths: Seq<String>,
) -> Seq<(String, Vec<String>)>
    decreases deps.len(),
{
    if deps.len() == 0 {
        Seq::empty()
    } else {
        let r = kept_dependencies(deps.drop_last(), mod_paths);
        if names_contain(mod_paths, deps.last().0@) {
            r.push(deps.last())
        } else {
            r
        }
    }
}

proof fn lemma_kept_len(deps: Seq<(String, Vec<String>)>, mod_paths: Seq<String>)
    ensures
        kept_dependencies(deps, mod_paths).len() <= deps.len(),
        kept_dependencies(deps, mod_paths).len() == deps.len() <==> forall|i: int|
            0 <= i < deps.len() ==> names_contain(mod_paths, #[trigger] deps[i].0@),
    decreases deps.len(),
{
    if deps.len() > 0 {
        let d = deps.drop_last();
        lemma_kept_len(d, mod_paths);
        assert forall|i: int| 0 <= i < d.len() implies #[trigger] d[i] == deps[i] by {}
        if forall|i: int| 0 <= i < deps.len() ==> names_contain(mod_paths, #[trigger] deps[i].0@) {
            assert forall|i: int| 0 <= i < d.len() implies names_contain(mod_paths, #[trigger] d[i].0@) by {
                assert(d[i] == deps[i]);
            }
            assert(names_contain(mod_paths, deps[deps.len() - 1].0@));
        } else {
            let k = choose|k: int| 0 <= k < deps.len() && !names_contain(mod_paths, #[trigger] deps[k].0@);
            if k < deps.len() - 1 {
                assert(d[k] == deps[k]);
                assert(!names_contain(mod_paths, d[k].0@));
            }
        }
    }
}

fn names_contain_exec(v: &Vec<String>, k: &str) -> (b: bool)
    ensures
        b == names_contain(v@, k@),
{
    let mut i: usize = 0;
    while i < v.len()
        invariant
            i <= v@.len(),
            forall|j: int| 0 <= j < i ==> v@[j]@ != k@,
        decreases v@.len() - i,
    {
        if str_eq(v[i].as_str(), k) {
            return true;
        }
        i = i + 1;
    }
    false
}

/// Drops the source dependencies of contracts that are no longer planned
/// (by module path); returns whether any were dropped.
pub fn native_prune_contract_source_dependencies_for_output_plans(
    deps: &mut Vec<(String, Vec<String>)>,
    mod_paths: &Vec<String>,
) -> (pruned: bool)
    ensures
        final(deps)@ == kept_dependencies(old(deps)@, mod_paths@),
        pruned == (final(deps)@.len() != old(deps)@.len()),
{
    let ghost start = deps@;
    let mut kept: Vec<(String, Vec<String>)> = Vec::new();
    let before_len = deps.len();
    let mut rest: Vec<(String, Vec<String>)> = Vec::new();
    std::mem::swap(&mut rest, deps);
    let ghost mut i: int = 0;
    while rest.len() > 0
        invariant
            0 <= i <= start.len(),
            rest@ == start.skip(i),
            kept@ == kept_dependencies(start.take(i), mod_paths@),
        decreases rest@.len(),
    {
        assert(start.take(i + 1).drop_last() =~= start.take(i));
        assert(start[i] == rest@[0]);
        let e = rest.remove(0);
        if names_contain_exec(mod_paths, e.0.as_str()) {
            kept.push(e);
        }
        proof {
            assert(rest@ =~= start.skip(i + 1));
            i = i + 1;
        }
    }
    assert(start.take(i) =~= start);
    proof {
        lemma_kept_len(start, mod_paths@);
    }
    *deps = kept;
    deps.len() != before_len
}


/// The decimal digit `d`.
pub open spec fn digit_char(d: nat) -> char {
    seq!['0', '1', '2', '3', '4', '5', '6', '7', '8', '9'][d as int]
}

/// The decimal notation of `n`, without leading zeros.
pub open spec fn decimal(n: nat) -> Seq<char>
    decreases n,
{
    if n < 10 {
        seq![digit_char(n)]
    } else {
        decimal(n / 10).push(digit_char(n % 10))
    }
}

fn digit_char_exec(d: u64) -> (c: char)
    requires
        d < 10,
    ensures
        c == digit_char(d as nat),
{
    match d {
        0 => '0',
        1 => '1',
        2 => '2',
        3 => '3',
        4 => '4',
        5 => '5',
        6 => '6',
        7 => '7',
        8 => '8',
        _ => '9',
    }
}

/// Writes `n` in decimal.
pub fn decimal_string(n: u64) -> (s: String)
    ensures
        s@ == decimal(n as nat),
    decreases n,
{
    if n < 10 {
        let mut s = String::new();
        push_char(&mut s, digit_char_exec(n));
        assert(s@ =~= seq![digit_char(n as nat)]);
        s
    } else {
        let mut s = decimal_string(n / 10);
        push_char(&mut s, digit_char_exec(n % 10));
        s
    }
}

/// The module paths of the selected contracts that exist, in order.
pub open spec fn preview_from(paths: Seq<String>, selected: Seq<usize>) -> Seq<Seq<char>>
    decreases selected.len(),
{
    if selected.len() == 0 {
        Seq::empty()
    } else {
        let r = preview_from(paths, selected.drop_last());
        if selected.last() < paths.len() {
            r.push(paths[selected.last() as int]@)
        } else {
            r
        }
    }
}

proof fn lemma_preview_len(paths: Seq<String>, selected: Seq<usize>)
    ensures
        preview_from(paths, selected).len() <= selected.len(),
    decreases selected.len(),
{
    if selected.len() > 0 {
        lemma_preview_len(paths, selected.drop_last());
    }
}

/// The parts joined by `, `.
pub open spec fn comma_joined(parts: Seq<Seq<char>>) -> Seq<char>
    decreases parts.len(),
{
    if parts.len() == 0 {
        Seq::empty()
    } else if parts.len() == 1 {
        parts[0]
    } else {
        comma_joined(parts.drop_last()) + ", "@ + parts.last()
    }
}

/// How a batch of selected contracts is described in progress output: the
/// module paths of the first three selected (those that exist), joined by
/// commas, followed by how many more there are; just a count when none of
/// the first three exists.
pub open spec fn batch_summary(paths: Seq<String>, selected: Seq<usize>) -> Seq<char> {
    let first = selected.take(if selected.len() < 3 {
        selected.len() as int
    } else {
        3
    });
    let preview = preview_from(paths, first);
    let remaining = selected.len() - preview.len();
    if preview.len() == 0 {
        decimal(selected.len()) + " contract(s)"@
    } else if remaining == 0 {
        comma_joined(preview)
    } else {
        comma_joined(preview) + " (+"@ + decimal(remaining as nat) + " more)"@
    }
}

/// Describes a batch of selected contracts (by position among all planned
/// contracts' module paths).
pub fn native_compile_batch_summary(all_mod_paths: &Vec<String>, selected_indices: &Vec<usize>) -> (s:
    String)
    ensures
        s@ == batch_summary(all_mod_paths@, selected_indices@),
{
    let n: usize = if selected_indices.len() < 3 {
        selected_indices.len()
    } else {
        3
    };
    let ghost first = selected_indices@.take(n as int);
    let mut joined = String::new();
    let mut count: usize = 0;
    let mut i: usize = 0;
    while i < n
        invariant
            i <= n,
            n <= selected_indices@.len(),
            n <= 3,
            first == selected_indices@.take(n as int),
            count == preview_from(all_mod_paths@, first.take(i as int)).len(),
            joined@ == comma_joined(preview_from(all_mod_paths@, first.take(i as int))),
        decreases n - i,
    {
        proof {
            lemma_preview_len(all_mod_paths@, first.take(i as int));
        }
        assert(first.take(i + 1).drop_last() =~= first.take(i as int));
        assert(first.take(i + 1).last() == selected_indices@[i as int]);
        let idx = selected_indices[i];
        if idx < all_mod_paths.len() {
            if count > 0 {
                push_str(&mut joined, ", ");
            }
            push_str(&mut joined, all_mod_paths[idx].as_str());
            count = count + 1;
            proof {
                let p = preview_from(all_mod_paths@, first.take(i + 1));
                assert(p.drop_last() == preview_from(all_mod_paths@, first.take(i as int)));
                if p.len() == 1 {
                    assert(p.drop_last().len() == 0);
                    assert(joined@ =~= p[0]);
                }
            }
        }
        i = i + 1;
    }
    assert(first.take(i as int) =~= first);
    proof {
        lemma_preview_len(all_mod_paths@, first);
    }
    let remaining = selected_indices.len() - count;
    if count == 0 {
        let mut s = decimal_string(selected_indices.len() as u64);
        push_str(&mut s, " contract(s)");
        return s;
    }
    if remaining == 0 {
        return joined;
    }
    push_str(&mut joined, " (+");
    let r = decimal_string(remaining as u64);
    push_str(&mut joined, r.as_str());
    push_str(&mut joined, " more)");
    joined
}

} // verus!
