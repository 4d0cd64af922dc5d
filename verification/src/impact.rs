use vstd::prelude::*;
use crate::surface::strings_view;
use crate::text::{chars_of, str_eq, string_from_range};

verus! {

/// Whether the source set lookup should go through `scarb metadata`:
/// always when there are registry (non-path) dependencies, else when
/// metadata resolution is enabled and there are path dependencies.
pub fn native_should_use_dependency_metadata_with_flags(
    metadata_enabled: bool,
    path_dependency_count: usize,
    external_dependency_count: usize,
) -> (b: bool)
    ensures
        b == (external_dependency_count != 0 || (metadata_enabled && path_dependency_count != 0)),
{
    if external_dependency_count != 0 {
        return true;
    }
    metadata_enabled && path_dependency_count != 0
}

/// Whether a native compile records statement locations: never when the
/// feature is off; on a cold compile or an empty change set only when
/// capturing on cold compiles is on; otherwise always.
pub fn native_should_capture_statement_locations_with_flags(
    base_enabled: bool,
    capture_on_cold: bool,
    changed_files: &Vec<String>,
    removed_files: &Vec<String>,
    cold_compile: bool,
) -> (b: bool)
    ensures
        b == (base_enabled && (if cold_compile || (changed_files@.len() == 0
            && removed_files@.len() == 0) {
            capture_on_cold
        } else {
            true
        })),
{
    if !base_enabled {
        return false;
    }
    if cold_compile || (changed_files.len() == 0 && removed_files.len() == 0) {
        return capture_on_cold;
    }
    true
}

/// Whether a cached session with no detected change is rebuilt anyway:
/// only when so configured, on a session cache hit that needs no full
/// rebuild for another reason.
pub fn native_should_force_full_rebuild_on_empty_delta(
    rebuild_on_empty_delta: bool,
    session_cache_hit: bool,
    needs_full_rebuild: bool,
    changed_source_set_detected: bool,
) -> (b: bool)
    ensures
        b == (rebuild_on_empty_delta && session_cache_hit && !needs_full_rebuild
            && !changed_source_set_detected),
{
    rebuild_on_empty_delta && session_cache_hit && !needs_full_rebuild
        && !changed_source_set_detected
}

/// Whether the outputs of the last build may be reused as they are: nothing
/// changed or was removed, and the change journal did not fall back to a
/// full scan.
pub fn native_should_try_cached_noop_reuse(
    changed_files: &Vec<String>,
    removed_files: &Vec<String>,
    journal_fallback_full_scan: bool,
) -> (b: bool)
    ensures
        b == (changed_files@.len() == 0 && removed_files@.len() == 0
            && !journal_fallback_full_scan),
{
    changed_files.len() == 0 && removed_files.len() == 0 && !journal_fallback_full_scan
}

/// Whether the crate cache is written after a native build: only by the
/// daemon, with the crate cache enabled, after a build that compiled
/// contracts from an unchanged source set.
pub fn native_should_persist_crate_cache_after_build(
    daemon_context: bool,
    crate_cache_enabled: bool,
    changed_files_count: u64,
    removed_files_count: u64,
    compiled_contracts: u64,
) -> (b: bool)
    ensures
        b == (daemon_context && crate_cache_enabled && compiled_contracts != 0
            && changed_files_count == 0 && removed_files_count == 0),
{
    daemon_context && crate_cache_enabled && compiled_contracts != 0 && changed_files_count == 0
        && removed_files_count == 0
}

/// Whether a build compiled only part of the contracts.
pub fn native_impacted_subset_used(total_contracts: usize, compiled_contracts: usize) -> (b: bool)
    ensures
        b == (compiled_contracts > 0 && compiled_contracts < total_contracts),
{
    compiled_contracts > 0 && compiled_contracts < total_contracts
}

/// `a * b + c` with each step saturating at `u64::MAX`.
pub open spec fn saturating_mul_add(a: u64, b: u64, c: u64) -> u64 {
    let m = if a * b > u64::MAX {
        u64::MAX as int
    } else {
        a * b
    };
    if m + c > u64::MAX {
        u64::MAX
    } else {
        (m + c) as u64
    }
}

/// The estimated heap use of a compile session over `tracked_source_bytes`
/// of sources: the sources times the memory multiplier plus the base
/// overhead, saturating.
pub fn native_compile_session_estimated_heap_bytes(
    tracked_source_bytes: u64,
    memory_multiplier: u64,
    base_overhead_bytes: u64,
) -> (b: u64)
    ensures
        b == saturating_mul_add(tracked_source_bytes, memory_multiplier, base_overhead_bytes),
{
    let m = match tracked_source_bytes.checked_mul(memory_multiplier) {
        Some(m) => m,
        None => u64::MAX,
    };
    m.saturating_add(base_overhead_bytes)
}

/// Whether `s` has `::` at position `k`.
pub open spec fn path_sep_at(s: Seq<char>, k: int) -> bool {
    0 <= k && k + 1 < s.len() && s[k] == ':' && s[k + 1] == ':'
}

/// The position of the first `::` in `s`, or -1.
pub open spec fn first_path_sep(s: Seq<char>) -> int {
    if exists|k: int| #[trigger] path_sep_at(s, k) {
        choose|k: int| #[trigger] path_sep_at(s, k) && forall|j: int| 0 <= j < k ==> !path_sep_at(s, j)
    } else {
        -1
    }
}

/// The position of the last `::` in `s`, or -1.
pub open spec fn last_path_sep(s: Seq<char>) -> int {
    if exists|k: int| #[trigger] path_sep_at(s, k) {
        choose|k: int|
            #[trigger] path_sep_at(s, k) && forall|j: int| k < j < s.len() ==> !path_sep_at(s, j)
    } else {
        -1
    }
}

/// The contract name of a module path: what follows its last `::`, or the
/// whole path.
pub open spec fn contract_name_of(mod_path: Seq<char>) -> Seq<char> {
    let k = last_path_sep(mod_path);
    if k >= 0 {
        mod_path.skip(k + 2)
    } else {
        mod_path
    }
}

/// The package of a module path: what precedes its first `::`, or the
/// whole path.
pub open spec fn package_name_of(mod_path: Seq<char>) -> Seq<char> {
    let k = first_path_sep(mod_path);
    if k >= 0 {
        mod_path.take(k)
    } else {
        mod_path
    }
}

/// The contract name of a module path.
pub fn native_contract_name(mod_path: &str) -> (n: String)
    ensures
        n@ == contract_name_of(mod_path@),
{
    let s = chars_of(mod_path);
    let mut k: usize = s.len();
    while k >= 2
        invariant
            k <= s@.len(),
            s@ == mod_path@,
            forall|j: int| k - 1 <= j < s@.len() ==> !path_sep_at(s@, j),
        decreases k,
    {
        if s[k - 2] == ':' && s[k - 1] == ':' {
            let start = k;
            proof {
                let p = (k - 2) as int;
                assert(path_sep_at(s@, p));
                assert forall|j: int| p < j < s@.len() implies !path_sep_at(s@, j) by {
                    if j == p + 1 {
                        assert(j >= k - 1);
                    }
                }
                let c = choose|c: int|
                    #[trigger] path_sep_at(s@, c) && forall|j: int| c < j < s@.len() ==> !path_sep_at(s@, j);
                if c < p {
                    assert(!path_sep_at(s@, p));
                }
                if c > p {
                    assert(!path_sep_at(s@, c));
                }
                assert(last_path_sep(s@) == p);
            }
            return string_from_range(&s, start, s.len());
        }
        k = k - 1;
    }
    proof {
        assert forall|j: int| !#[trigger] path_sep_at(s@, j) by {
            if path_sep_at(s@, j) {
                assert(j >= k - 1);
            }
        }
        assert(s@.subrange(0, s@.len() as int) =~= s@);
    }
    string_from_range(&s, 0, s.len())
}

/// The package name of a module path.
pub fn native_contract_package_name(mod_path: &str) -> (n: String)
    ensures
        n@ == package_name_of(mod_path@),
{
    let s = chars_of(mod_path);
    let mut k: usize = 0;
    while k < s.len() && k + 1 < s.len()
        invariant
            k <= s@.len(),
            s@ == mod_path@,
            forall|j: int| 0 <= j < k ==> !path_sep_at(s@, j),
        decreases s@.len() - k,
    {
        if s[k] == ':' && s[k + 1] == ':' {
            proof {
                assert(path_sep_at(s@, k as int));
                let c = choose|c: int|
                    #[trigger] path_sep_at(s@, c) && forall|j: int| 0 <= j < c ==> !path_sep_at(s@, j);
                if c < k {
                    assert(!path_sep_at(s@, c));
                }
                if c > k {
                    assert(!path_sep_at(s@, k as int));
                }
                assert(first_path_sep(s@) == k);
                assert(s@.subrange(0, k as int) =~= s@.take(k as int));
            }
            return string_from_range(&s, 0, k);
        }
        k = k + 1;
    }
    proof {
        assert forall|j: int| !#[trigger] path_sep_at(s@, j) by {
            if path_sep_at(s@, j) {
                assert(j < k);
            }
        }
        assert(s@.subrange(0, s@.len() as int) =~= s@);
    }
    string_from_range(&s, 0, s.len())
}


/// Whether a path is absolute, as `Path::is_absolute` decides on Unix: it
/// starts at the root.
pub open spec fn is_absolute_path(s: Seq<char>) -> bool {
    s.len() > 0 && s[0] == '/'
}

/// The position of the first entry of `deps` for module `m`, or -1.
pub open spec fn dep_entry_index(deps: Seq<(String, Vec<String>)>, m: Seq<char>) -> int
    decreases deps.len(),
{
    if deps.len() == 0 {
        -1
    } else {
        let r = dep_entry_index(deps.drop_last(), m);
        if r >= 0 {
            r
        } else if deps.last().0@ == m {
            deps.len() - 1
        } else {
            -1
        }
    }
}

proof fn lemma_dep_entry_index(deps: Seq<(String, Vec<String>)>, m: Seq<char>)
    ensures
        -1 <= dep_entry_index(deps, m) < deps.len(),
        dep_entry_index(deps, m) >= 0 ==> deps[dep_entry_index(deps, m)].0@ == m,
        forall|j: int| 0 <= j < deps.len() && j < dep_entry_index(deps, m) ==> deps[j].0@ != m,
        dep_entry_index(deps, m) < 0 ==> forall|j: int| 0 <= j < deps.len() ==> deps[j].0@ != m,
    decreases deps.len(),
{
    if deps.len() > 0 {
        lemma_dep_entry_index(deps.drop_last(), m);
        assert forall|j: int| 0 <= j < deps.len() - 1 implies deps.drop_last()[j] == deps[j] by {}
    }
}

/// Whether contract `i` (by its module path) depends on source `src`
/// according to the dependency index.
pub open spec fn depends_on(
    mod_paths: Seq<String>,
    deps: Seq<(String, Vec<String>)>,
    i: int,
    src: Seq<char>,
) -> bool {
    let e = dep_entry_index(deps, mod_paths[i]@);
    e >= 0 && strings_view(deps[e].1@).contains(src)
}

/// Whether the dependency index covers every contract: there is at least
/// one, and each has a non-empty dependency entry.
pub open spec fn index_complete(mod_paths: Seq<String>, deps: Seq<(String, Vec<String>)>) -> bool {
    mod_paths.len() > 0 && forall|i: int|
        0 <= i < mod_paths.len() ==> {
            let e = #[trigger] dep_entry_index(deps, mod_paths[i]@);
            e >= 0 && deps[e].1@.len() > 0
        }
}

/// Whether some contract depends on source `src`.
pub open spec fn indexed(mod_paths: Seq<String>, deps: Seq<(String, Vec<String>)>, src: Seq<char>) -> bool {
    exists|i: int| 0 <= i < mod_paths.len() && #[trigger] depends_on(mod_paths, deps, i, src)
}

/// Whether some contract's own source file is `src`.
pub open spec fn tracked_source(sources: Seq<Option<String>>, src: Seq<char>) -> bool {
    exists|i: int| 0 <= i < sources.len() && #[trigger] sources[i] is Some && sources[i]->0@ == src
}

/// The first contract whose own source file is `src`, or -1.
pub open spec fn first_tracked_index(sources: Seq<Option<String>>, src: Seq<char>) -> int
    decreases sources.len(),
{
    if sources.len() == 0 {
        -1
    } else {
        let r = first_tracked_index(sources.drop_last(), src);
        if r >= 0 {
            r
        } else if sources.last() is Some && sources.last()->0@ == src {
            sources.len() - 1
        } else {
            -1
        }
    }
}

proof fn lemma_first_tracked_index(sources: Seq<Option<String>>, src: Seq<char>)
    ensures
        -1 <= first_tracked_index(sources, src) < sources.len(),
        first_tracked_index(sources, src) >= 0 <==> tracked_source(sources, src),
        first_tracked_index(sources, src) >= 0 ==> sources[first_tracked_index(sources, src)] is Some
            && sources[first_tracked_index(sources, src)]->0@ == src,
        forall|j: int|
            0 <= j < first_tracked_index(sources, src) ==> !(sources[j] is Some && sources[j]->0@
                == src),
    decreases sources.len(),
{
    if sources.len() > 0 {
        let d = sources.drop_last();
        lemma_first_tracked_index(d, src);
        assert forall|j: int| 0 <= j < sources.len() - 1 implies d[j] == sources[j] by {}
        if tracked_source(sources, src) && first_tracked_index(d, src) < 0 {
            let i = choose|i: int| 0 <= i < sources.len() && #[trigger] sources[i] is Some && sources[i]->0@ == src;
            if i < sources.len() - 1 {
                assert(d[i] is Some && d[i]->0@ == src);
                assert(tracked_source(d, src));
            }
        }
        if first_tracked_index(d, src) >= 0 {
            let k = first_tracked_index(d, src);
            assert(sources[k] == d[k]);
        }
    }
}

/// The contracts a change set impacts, or none when the whole set must be
/// compiled: an empty change set impacts nothing; an absolute path forces
/// a full compile; otherwise every contract that depends on a changed or
/// removed source is impacted. A source that no contract depends on forces
/// a full compile when the index is complete but the source is some
/// contract's own file (the index then contradicts itself); when the index
/// is incomplete it impacts the first contract whose own file it is, and
/// forces a full compile when there is none.
pub open spec fn impacted_contracts(
    mod_paths: Seq<String>,
    contract_sources: Seq<Option<String>>,
    changed: Seq<String>,
    removed: Seq<String>,
    deps: Seq<(String, Vec<String>)>,
) -> Option<Set<int>> {
    let sources = strings_view(changed) + strings_view(removed);
    if sources.len() == 0 {
        Some(Set::empty())
    } else if exists|k: int| 0 <= k < sources.len() && #[trigger] is_absolute_path(sources[k]) {
        None
    } else {
        let hit = Set::new(
            |i: int|
                0 <= i < mod_paths.len() && exists|k: int|
                    0 <= k < sources.len() && #[trigger] depends_on(mod_paths, deps, i, sources[k]),
        );
        let unmatched = Set::new(|s: Seq<char>| sources.contains(s) && !indexed(mod_paths, deps, s));
        if index_complete(mod_paths, deps) {
            if exists|s: Seq<char>| #[trigger] unmatched.contains(s) && tracked_source(contract_sources, s) {
                None
            } else {
                Some(hit)
            }
        } else if exists|s: Seq<char>| #[trigger] unmatched.contains(s) && !tracked_source(contract_sources, s) {
            None
        } else {
            Some(
                hit.union(
                    Set::new(
                        |i: int|
                            exists|s: Seq<char>|
                                #[trigger] unmatched.contains(s) && i == first_tracked_index(
                                    contract_sources,
                                    s,
                                ),
                    ),
                ),
            )
        }
    }
}

/// Whether `v` is strictly increasing.
pub open spec fn strictly_increasing(v: Seq<usize>) -> bool {
    forall|i: int, j: int| 0 <= i < j < v.len() ==> #[trigger] v[i] < #[trigger] v[j]
}

fn find_dep_entry(deps: &Vec<(String, Vec<String>)>, m: &str) -> (r: Option<usize>)
    ensures
        match r {
            Some(e) => e == dep_entry_index(deps@, m@),
            None => dep_entry_index(deps@, m@) == -1,
        },
{
    proof {
        lemma_dep_entry_index(deps@, m@);
    }
    let mut e: usize = 0;
    while e < deps.len()
        invariant
            e <= deps@.len(),
            forall|j: int| 0 <= j < e ==> deps@[j].0@ != m@,
            -1 <= dep_entry_index(deps@, m@) < deps@.len(),
            dep_entry_index(deps@, m@) >= 0 ==> deps@[dep_entry_index(deps@, m@)].0@ == m@,
            forall|j: int| 0 <= j < deps@.len() && j < dep_entry_index(deps@, m@) ==> deps@[j].0@ != m@,
            dep_entry_index(deps@, m@) < 0 ==> forall|j: int| 0 <= j < deps@.len() ==> deps@[j].0@ != m@,
        decreases deps@.len() - e,
    {
        if str_eq(deps[e].0.as_str(), m) {
            return Some(e);
        }
        e = e + 1;
    }
    None
}

fn depends_on_exec(
    mod_paths: &Vec<String>,
    deps: &Vec<(String, Vec<String>)>,
    i: usize,
    src: &str,
) -> (b: bool)
    requires
        i < mod_paths@.len(),
    ensures
        b == depends_on(mod_paths@, deps@, i as int, src@),
{
    proof {
        lemma_dep_entry_index(deps@, mod_paths@[i as int]@);
    }
    match find_dep_entry(deps, mod_paths[i].as_str()) {
        None => false,
        Some(e) => {
            let list = &deps[e].1;
            let mut j: usize = 0;
            while j < list.len()
                invariant
                    j <= list@.len(),
                    e == dep_entry_index(deps@, mod_paths@[i as int]@),
                    e < deps@.len(),
                    list@ == deps@[e as int].1@,
                    forall|q: int| 0 <= q < j ==> list@[q]@ != src@,
                decreases list@.len() - j,
            {
                if str_eq(list[j].as_str(), src) {
                    assert(strings_view(list@)[j as int] == src@);
                    return true;
                }
                j = j + 1;
            }
            proof {
                if strings_view(list@).contains(src@) {
                    let q = choose|q: int| 0 <= q < strings_view(list@).len() && strings_view(list@)[q] == src@;
                    assert(list@[q]@ == src@);
                }
            }
            false
        },
    }
}

fn index_complete_exec(mod_paths: &Vec<String>, deps: &Vec<(String, Vec<String>)>) -> (b: bool)
    ensures
        b == index_complete(mod_paths@, deps@),
{
    if mod_paths.len() == 0 {
        return false;
    }
    let mut i: usize = 0;
    while i < mod_paths.len()
        invariant
            i <= mod_paths@.len(),
            forall|q: int|
                0 <= q < i ==> {
                    let e = #[trigger] dep_entry_index(deps@, mod_paths@[q]@);
                    e >= 0 && deps@[e].1@.len() > 0
                },
        decreases mod_paths@.len() - i,
    {
        proof {
            lemma_dep_entry_index(deps@, mod_paths@[i as int]@);
        }
        match find_dep_entry(deps, mod_paths[i].as_str()) {
            None => {
                return false;
            },
            Some(e) => {
                if deps[e].1.len() == 0 {
                    return false;
                }
            },
        }
        i = i + 1;
    }
    true
}

fn first_tracked_exec(contract_sources: &Vec<Option<String>>, src: &str) -> (r: Option<usize>)
    ensures
        match r {
            Some(i) => i == first_tracked_index(contract_sources@, src@),
            None => first_tracked_index(contract_sources@, src@) == -1,
        },
{
    proof {
        lemma_first_tracked_index(contract_sources@, src@);
    }
    let mut i: usize = 0;
    while i < contract_sources.len()
        invariant
            i <= contract_sources@.len(),
            forall|j: int| 0 <= j < i ==> !(contract_sources@[j] is Some && contract_sources@[j]->0@ == src@),
        decreases contract_sources@.len() - i,
    {
        match &contract_sources[i] {
            Some(s) => {
                if str_eq(s.as_str(), src) {
                    proof {
                        lemma_first_tracked_index(contract_sources@, src@);
                        assert(tracked_source(contract_sources@, src@));
                        let k = first_tracked_index(contract_sources@, src@);
                        if k < i {
                            assert(!(contract_sources@[k] is Some && contract_sources@[k]->0@ == src@));
                        }
                    }
                    return Some(i);
                }
            },
            None => {},
        }
        i = i + 1;
    }
    proof {
        if first_tracked_index(contract_sources@, src@) >= 0 {
            let k = first_tracked_index(contract_sources@, src@);
            assert(!(contract_sources@[k] is Some && contract_sources@[k]->0@ == src@));
        }
    }
    None
}


/// The contracts (by position) that a change set impacts, in increasing
/// order, or none when everything must be compiled; see
/// `impacted_contracts`. `contract_sources[i]` is the `i`-th contract's own
/// source file, and `deps` maps module paths to the sources they depend on.
pub fn native_impacted_contract_indices(
    mod_paths: &Vec<String>,
    contract_sources: &Vec<Option<String>>,
    changed_files: &Vec<String>,
    removed_files: &Vec<String>,
    deps: &Vec<(String, Vec<String>)>,
) -> (r: Option<Vec<usize>>)
    ensures
        match impacted_contracts(
            mod_paths@,
            contract_sources@,
            changed_files@,
            removed_files@,
            deps@,
        ) {
            None => r is None,
            Some(set) => r is Some && strictly_increasing(r->0@) && r->0@.map_values(
                |i: usize| i as int,
            ).to_set() == set,
        },
{
    if changed_files.len() == 0 && removed_files.len() == 0 {
        let v: Vec<usize> = Vec::new();
        assert(v@.map_values(|i: usize| i as int).to_set() =~= Set::<int>::empty());
        return Some(v);
    }
    let ghost sv = strings_view(changed_files@) + strings_view(removed_files@);
    let mut sources: Vec<String> = Vec::new();
    let mut i: usize = 0;
    while i < changed_files.len()
        invariant
            i <= changed_files@.len(),
            strings_view(sources@) == strings_view(changed_files@).take(i as int),
        decreases changed_files@.len() - i,
    {
        let ghost before = sources@;
        sources.push(crate::surface::copy_str(changed_files[i].as_str()));
        assert(strings_view(sources@) =~= strings_view(before).push(changed_files@[i as int]@));
        assert(strings_view(sources@) =~= strings_view(changed_files@).take(i + 1));
        i = i + 1;
    }
    let mut i: usize = 0;
    while i < removed_files.len()
        invariant
            i <= removed_files@.len(),
            strings_view(sources@) == strings_view(changed_files@) + strings_view(
                removed_files@,
            ).take(i as int),
        decreases removed_files@.len() - i,
    {
        let ghost before = sources@;
        sources.push(crate::surface::copy_str(removed_files[i].as_str()));
        assert(strings_view(sources@) =~= strings_view(before).push(removed_files@[i as int]@));
        assert(strings_view(sources@) =~= strings_view(changed_files@) + strings_view(
            removed_files@,
        ).take(i + 1));
        i = i + 1;
    }
    assert(strings_view(sources@) =~= sv);
    let mut k: usize = 0;
    while k < sources.len()
        invariant
            k <= sources@.len(),
            strings_view(sources@) == sv,
            sv == strings_view(changed_files@) + strings_view(removed_files@),
            !(changed_files@.len() == 0 && removed_files@.len() == 0),
            sv.len() == sources@.len(),
            forall|kk: int| 0 <= kk < k ==> !#[trigger] is_absolute_path(sv[kk]),
        decreases sources@.len() - k,
    {
        let c = chars_of(sources[k].as_str());
        assert(sv[k as int] == c@);
        if c.len() > 0 && c[0] == '/' {
            assert(is_absolute_path(sv[k as int]));
            assert(sv.len() > 0);
            assert(exists|kk: int| 0 <= kk < sv.len() && #[trigger] is_absolute_path(sv[kk]));

            return None;
        }
        k = k + 1;
    }
    let n = mod_paths.len();
    let len: usize = if n >= contract_sources.len() {
        n
    } else {
        contract_sources.len()
    };
    let mut flags: Vec<bool> = Vec::new();
    while flags.len() < len
        invariant
            flags@.len() <= len,
            forall|q: int| 0 <= q < flags@.len() ==> !flags@[q],
        decreases len - flags@.len(),
    {
        flags.push(false);
    }
    let mut unmatched: Vec<String> = Vec::new();
    let mut k: usize = 0;
    while k < sources.len()
        invariant
            k <= sources@.len(),
            n == mod_paths@.len(),
            n <= len,
            flags@.len() == len,
            strings_view(sources@) == sv,
            forall|q: int|
                #![trigger flags@[q]]
                0 <= q < len ==> flags@[q] == (q < n && exists|kk: int|
                    0 <= kk < k && #[trigger] depends_on(mod_paths@, deps@, q, sv[kk])),
            strings_view(unmatched@).to_set() == Set::new(
                |s: Seq<char>|
                    (exists|kk: int| 0 <= kk < k && #[trigger] sv[kk] == s) && !indexed(
                        mod_paths@,
                        deps@,
                        s,
                    ),
            ),
        decreases sources@.len() - k,
    {
        let ghost src = sv[k as int];
        let ghost before_flags = flags@;
        let mut matched = false;
        let mut q: usize = 0;
        while q < n
            invariant
                q <= n,
                n == mod_paths@.len(),
                n <= len,
                flags@.len() == len,
                sv.len() == sources@.len(),
                src == sv[k as int],
                before_flags.len() == len,
                sources@[k as int]@ == src,
                k < sources@.len(),
                forall|p: int|
                    #![trigger flags@[p]]
                    0 <= p < len ==> flags@[p] == (before_flags[p] || (p < q && depends_on(
                        mod_paths@,
                        deps@,
                        p,
                        src,
                    ))),
                matched == exists|p: int| 0 <= p < q && #[trigger] depends_on(mod_paths@, deps@, p, src),
            decreases n - q,
        {
            let ghost f0 = flags@;
            let ghost m0 = matched;
            let hit = depends_on_exec(mod_paths, deps, q, sources[k].as_str());
            if hit {
                flags.set(q, true);
                matched = true;
            }
            proof {
                assert forall|p: int| 0 <= p < len implies flags@[p] == (before_flags[p] || (p < q + 1
                    && depends_on(mod_paths@, deps@, p, src))) by {
                    assert(f0[p] == (before_flags[p] || (p < q && depends_on(
                        mod_paths@,
                        deps@,
                        p,
                        src,
                    ))));
                    if p == q && hit {
                        assert(flags@[p]);
                        assert(depends_on(mod_paths@, deps@, p, src));
                    } else {
                        assert(flags@[p] == f0[p]);
                    }
                }
                if hit {
                    assert(depends_on(mod_paths@, deps@, q as int, src));
                }
                assert(matched == exists|p: int| 0 <= p < q + 1 && #[trigger] depends_on(mod_paths@, deps@, p, src));
            }
            q = q + 1;
        }
        let ghost before_unmatched = unmatched@;
        if !matched {
            unmatched.push(crate::surface::copy_str(sources[k].as_str()));
            assert(strings_view(unmatched@) =~= strings_view(before_unmatched).push(src));
        }
        proof {
            assert forall|p: int| 0 <= p < len implies flags@[p] == (p < n && exists|kk: int|
                0 <= kk < k + 1 && #[trigger] depends_on(mod_paths@, deps@, p, sv[kk])) by {
                if p < n && depends_on(mod_paths@, deps@, p, sv[k as int]) {
                    assert(flags@[p]);
                }
            }
            assert forall|s: Seq<char>| #[trigger] strings_view(unmatched@).to_set().contains(s) == ((
            exists|kk: int| 0 <= kk < k + 1 && #[trigger] sv[kk] == s) && !indexed(mod_paths@, deps@, s)) by {
                if strings_view(unmatched@).to_set().contains(s) && !strings_view(before_unmatched).to_set().contains(s) {
                    let w = choose|w: int| 0 <= w < strings_view(unmatched@).len() && strings_view(unmatched@)[w] == s;
                    assert(w == before_unmatched.len());
                    assert(!matched);
                    assert(sv[k as int] == s);
                }
                if strings_view(before_unmatched).to_set().contains(s) {
                    let w = choose|w: int| 0 <= w < strings_view(before_unmatched).len() && strings_view(before_unmatched)[w] == s;
                    assert(strings_view(unmatched@)[w] == s);
                }
                if s == src && !indexed(mod_paths@, deps@, s) {
                    assert(!matched);
                    assert(strings_view(unmatched@)[before_unmatched.len() as int] == s);
                }
                if (exists|kk: int| 0 <= kk < k + 1 && #[trigger] sv[kk] == s) && !indexed(mod_paths@, deps@, s) {
                    let kk = choose|kk: int| 0 <= kk < k + 1 && #[trigger] sv[kk] == s;
                    if kk < k {
                        assert(strings_view(before_unmatched).to_set().contains(s));
                    }
                }
                if matched && s == src {
                    let p = choose|p: int| 0 <= p < n && #[trigger] depends_on(mod_paths@, deps@, p, src);
                    assert(indexed(mod_paths@, deps@, s));
                }
            }
            assert(strings_view(unmatched@).to_set() =~= Set::new(
                |s: Seq<char>|
                    (exists|kk: int| 0 <= kk < k + 1 && #[trigger] sv[kk] == s) && !indexed(
                        mod_paths@,
                        deps@,
                        s,
                    ),
            ));
        }
        k = k + 1;
    }
    let ghost hit = Set::new(
        |q: int|
            0 <= q < mod_paths@.len() && exists|kk: int|
                0 <= kk < sv.len() && #[trigger] depends_on(mod_paths@, deps@, q, sv[kk]),
    );
    let ghost unmatched_set = Set::new(
        |s: Seq<char>| sv.contains(s) && !indexed(mod_paths@, deps@, s),
    );
    proof {
        assert forall|s: Seq<char>| #[trigger] strings_view(unmatched@).to_set().contains(s)
            == unmatched_set.contains(s) by {
            if sv.contains(s) {
                let kk = choose|kk: int| 0 <= kk < sv.len() && sv[kk] == s;
                assert(sv[kk] == s);
            }
        }
        assert(strings_view(unmatched@).to_set() =~= unmatched_set);
    }
    let ghost mut target: Set<int> = Set::empty();
    if index_complete_exec(mod_paths, deps) {
        let mut q: usize = 0;
        while q < unmatched.len()
            invariant
                q <= unmatched@.len(),
                strings_view(unmatched@).to_set() == unmatched_set,
                unmatched_set == Set::new(
                    |s: Seq<char>| sv.contains(s) && !indexed(mod_paths@, deps@, s),
                ),
                sv == strings_view(changed_files@) + strings_view(removed_files@),
                sv.len() > 0,
                forall|kk: int| 0 <= kk < sv.len() ==> !#[trigger] is_absolute_path(sv[kk]),
                index_complete(mod_paths@, deps@),
                forall|w: int| 0 <= w < q ==> !tracked_source(contract_sources@, #[trigger] unmatched@[w]@),
            decreases unmatched@.len() - q,
        {
            proof {
                lemma_first_tracked_index(contract_sources@, unmatched@[q as int]@);
            }
            if first_tracked_exec(contract_sources, unmatched[q].as_str()).is_some() {
                assert(strings_view(unmatched@)[q as int] == unmatched@[q as int]@);
                assert(unmatched_set.contains(unmatched@[q as int]@));
                return None;
            }
            q = q + 1;
        }
        proof {
            assert forall|s: Seq<char>| #[trigger] unmatched_set.contains(s) implies !tracked_source(contract_sources@, s) by {
                assert(strings_view(unmatched@).to_set().contains(s));
                let w = choose|w: int| 0 <= w < strings_view(unmatched@).len() && strings_view(unmatched@)[w] == s;
                assert(unmatched@[w]@ == s);
            }
            assert(impacted_contracts(mod_paths@, contract_sources@, changed_files@, removed_files@, deps@) == Some(hit));
            target = hit;
            assert forall|p: int| 0 <= p < len implies flags@[p] == target.contains(p) by {}
            assert forall|v: int| target.contains(v) implies 0 <= v < len by {}
        }
    } else {
        let ghost before_flags = flags@;
        let mut q: usize = 0;
        while q < unmatched.len()
            invariant
                q <= unmatched@.len(),
                flags@.len() == len,
                before_flags.len() == len,
                contract_sources@.len() <= len,
                strings_view(unmatched@).to_set() == unmatched_set,
                unmatched_set == Set::new(
                    |s: Seq<char>| sv.contains(s) && !indexed(mod_paths@, deps@, s),
                ),
                sv == strings_view(changed_files@) + strings_view(removed_files@),
                sv.len() > 0,
                forall|kk: int| 0 <= kk < sv.len() ==> !#[trigger] is_absolute_path(sv[kk]),
                !index_complete(mod_paths@, deps@),
                forall|p: int|
                    #![trigger flags@[p]]
                    0 <= p < len ==> flags@[p] == (before_flags[p] || exists|w: int|
                        0 <= w < q && p == first_tracked_index(contract_sources@, #[trigger] unmatched@[w]@)),
                forall|w: int| 0 <= w < q ==> tracked_source(contract_sources@, #[trigger] unmatched@[w]@),
            decreases unmatched@.len() - q,
        {
            proof {
                lemma_first_tracked_index(contract_sources@, unmatched@[q as int]@);
            }
            match first_tracked_exec(contract_sources, unmatched[q].as_str()) {
                None => {
                    assert(strings_view(unmatched@)[q as int] == unmatched@[q as int]@);
                    assert(unmatched_set.contains(unmatched@[q as int]@));
                    return None;
                },
                Some(t) => {
                    let ghost f0 = flags@;
                    flags.set(t, true);
                    proof {
                        assert forall|p: int| 0 <= p < len implies flags@[p] == (before_flags[p] || exists|w: int|
                            0 <= w < q + 1 && p == first_tracked_index(contract_sources@, #[trigger] unmatched@[w]@)) by {
                            assert(f0[p] == (before_flags[p] || exists|w: int|
                                0 <= w < q && p == first_tracked_index(contract_sources@, #[trigger] unmatched@[w]@)));
                            if p == t {
                                assert(p == first_tracked_index(contract_sources@, unmatched@[q as int]@));
                            } else {
                                assert(flags@[p] == f0[p]);
                            }
                        }
                        assert(tracked_source(contract_sources@, unmatched@[q as int]@));
                    }
                },
            }
            q = q + 1;
        }
        proof {
            assert forall|s: Seq<char>| #[trigger] unmatched_set.contains(s) implies tracked_source(contract_sources@, s) by {
                assert(strings_view(unmatched@).to_set().contains(s));
                let w = choose|w: int| 0 <= w < strings_view(unmatched@).len() && strings_view(unmatched@)[w] == s;
                assert(unmatched@[w]@ == s);
            }
            let added = Set::new(
                |i: int|
                    exists|s: Seq<char>|
                        #[trigger] unmatched_set.contains(s) && i == first_tracked_index(
                            contract_sources@,
                            s,
                        ),
            );
            assert(impacted_contracts(mod_paths@, contract_sources@, changed_files@, removed_files@, deps@)
                == Some(hit.union(added)));
            target = hit.union(added);
            assert forall|p: int| 0 <= p < len implies flags@[p] == target.contains(p) by {
                if exists|w: int| 0 <= w < unmatched@.len() && p == first_tracked_index(contract_sources@, #[trigger] unmatched@[w]@) {
                    let w = choose|w: int| 0 <= w < unmatched@.len() && p == first_tracked_index(contract_sources@, #[trigger] unmatched@[w]@);
                    assert(strings_view(unmatched@)[w] == unmatched@[w]@);
                    assert(strings_view(unmatched@).to_set().contains(unmatched@[w]@));
                    assert(added.contains(p));
                }
                if added.contains(p) {
                    let s0 = choose|s0: Seq<char>| #[trigger] unmatched_set.contains(s0) && p == first_tracked_index(contract_sources@, s0);
                    assert(strings_view(unmatched@).to_set().contains(s0));
                    let w = choose|w: int| 0 <= w < strings_view(unmatched@).len() && strings_view(unmatched@)[w] == s0;
                    assert(unmatched@[w]@ == s0);
                }
            }
            assert forall|v: int| target.contains(v) implies 0 <= v < len by {
                if added.contains(v) {
                    let s0 = choose|s0: Seq<char>| #[trigger] unmatched_set.contains(s0) && v == first_tracked_index(contract_sources@, s0);
                    lemma_first_tracked_index(contract_sources@, s0);
                }
            }
        }
    }
    let ghost fin = flags@;
    let mut out: Vec<usize> = Vec::new();
    let mut p: usize = 0;
    while p < len
        invariant
            p <= len,
            flags@ == fin,
            fin.len() == len,
            strictly_increasing(out@),
            forall|w: int| 0 <= w < out@.len() ==> #[trigger] out@[w] < p,
            out@.map_values(|v: usize| v as int).to_set() == Set::new(|v: int| 0 <= v < p && fin[v]),
        decreases len - p,
    {
        let ghost before = out@;
        if flags[p] {
            out.push(p);
            assert(out@.map_values(|v: usize| v as int) =~= before.map_values(|v: usize| v as int).push(p as int));
            proof {
                before.map_values(|v: usize| v as int).lemma_push_to_set_commute(p as int);
            }
        }
        proof {
            assert(out@.map_values(|v: usize| v as int).to_set() =~= Set::new(|v: int| 0 <= v < p + 1 && fin[v]));
        }
        p = p + 1;
    }
    proof {
        let result = out@.map_values(|v: usize| v as int).to_set();
        assert(result == Set::new(|v: int| 0 <= v < len && fin[v]));
        assert(result =~= target);
    }
    Some(out)
}


fn any_absolute(changed_files: &Vec<String>, removed_files: &Vec<String>) -> (b: bool)
    ensures
        b == exists|k: int|
            0 <= k < (strings_view(changed_files@) + strings_view(removed_files@)).len()
                && #[trigger] is_absolute_path(
                (strings_view(changed_files@) + strings_view(removed_files@))[k],
            ),
{
    let ghost sv = strings_view(changed_files@) + strings_view(removed_files@);
    let mut i: usize = 0;
    while i < changed_files.len()
        invariant
            i <= changed_files@.len(),
            sv == strings_view(changed_files@) + strings_view(removed_files@),
            forall|k: int| 0 <= k < i ==> !#[trigger] is_absolute_path(sv[k]),
        decreases changed_files@.len() - i,
    {
        let c = chars_of(changed_files[i].as_str());
        assert(sv[i as int] == c@);
        if c.len() > 0 && c[0] == '/' {
            assert(is_absolute_path(sv[i as int]));
            return true;
        }
        i = i + 1;
    }
    let mut j: usize = 0;
    while j < removed_files.len()
        invariant
            j <= removed_files@.len(),
            sv == strings_view(changed_files@) + strings_view(removed_files@),
            forall|k: int| 0 <= k < changed_files@.len() + j ==> !#[trigger] is_absolute_path(sv[k]),
        decreases removed_files@.len() - j,
    {
        let c = chars_of(removed_files[j].as_str());
        assert(sv[changed_files@.len() + j] == c@);
        if c.len() > 0 && c[0] == '/' {
            assert(is_absolute_path(sv[changed_files@.len() + j]));
            return true;
        }
        j = j + 1;
    }
    false
}

fn indexed_exec(mod_paths: &Vec<String>, deps: &Vec<(String, Vec<String>)>, src: &str) -> (b: bool)
    ensures
        b == indexed(mod_paths@, deps@, src@),
{
    let mut i: usize = 0;
    while i < mod_paths.len()
        invariant
            i <= mod_paths@.len(),
            forall|p: int| 0 <= p < i ==> !#[trigger] depends_on(mod_paths@, deps@, p, src@),
        decreases mod_paths@.len() - i,
    {
        if depends_on_exec(mod_paths, deps, i, src) {
            return true;
        }
        i = i + 1;
    }
    false
}

/// Whether a change set can affect the tracked contracts: not when it is
/// empty; always when it holds an absolute path or the dependency index is
/// incomplete; otherwise when some changed or removed source is indexed.
pub fn native_changed_files_affect_tracked_contracts(
    changed_files: &Vec<String>,
    removed_files: &Vec<String>,
    mod_paths: &Vec<String>,
    deps: &Vec<(String, Vec<String>)>,
) -> (b: bool)
    ensures
        ({
            let sources = strings_view(changed_files@) + strings_view(removed_files@);
            b == (sources.len() > 0 && ((exists|k: int|
                0 <= k < sources.len() && #[trigger] is_absolute_path(sources[k])) || !index_complete(
                mod_paths@,
                deps@,
            ) || exists|k: int| 0 <= k < sources.len() && #[trigger] indexed(mod_paths@, deps@, sources[k])))
        }),
{
    let ghost sv = strings_view(changed_files@) + strings_view(removed_files@);
    if changed_files.len() == 0 && removed_files.len() == 0 {
        return false;
    }
    if any_absolute(changed_files, removed_files) {
        return true;
    }
    if !index_complete_exec(mod_paths, deps) {
        return true;
    }
    let mut i: usize = 0;
    while i < changed_files.len()
        invariant
            i <= changed_files@.len(),
            sv == strings_view(changed_files@) + strings_view(removed_files@),
            forall|k: int| 0 <= k < i ==> !#[trigger] indexed(mod_paths@, deps@, sv[k]),
        decreases changed_files@.len() - i,
    {
        if indexed_exec(mod_paths, deps, changed_files[i].as_str()) {
            assert(indexed(mod_paths@, deps@, sv[i as int]));
            return true;
        }
        i = i + 1;
    }
    let mut j: usize = 0;
    while j < removed_files.len()
        invariant
            j <= removed_files@.len(),
            sv == strings_view(changed_files@) + strings_view(removed_files@),
            forall|k: int| 0 <= k < changed_files@.len() + j ==> !#[trigger] indexed(mod_paths@, deps@, sv[k]),
        decreases removed_files@.len() - j,
    {
        if indexed_exec(mod_paths, deps, removed_files[j].as_str()) {
            assert(indexed(mod_paths@, deps@, sv[changed_files@.len() + j]));
            return true;
        }
        j = j + 1;
    }
    false
}

/// The indexed entries of `files`, in order.
pub open spec fn indexed_only(
    files: Seq<String>,
    mod_paths: Seq<String>,
    deps: Seq<(String, Vec<String>)>,
) -> Seq<Seq<char>> {
    strings_view(files).filter(indexed_pred(mod_paths, deps))
}

/// `indexed` as a predicate on sources.
pub open spec fn indexed_pred(
    mod_paths: Seq<String>,
    deps: Seq<(String, Vec<String>)>,
) -> spec_fn(Seq<char>) -> bool {
    |s: Seq<char>| indexed(mod_paths, deps, s)
}

fn copy_strings(v: &Vec<String>) -> (c: Vec<String>)
    ensures
        strings_view(c@) == strings_view(v@),
{
    let mut c: Vec<String> = Vec::new();
    let mut i: usize = 0;
    while i < v.len()
        invariant
            i <= v@.len(),
            strings_view(c@) == strings_view(v@).take(i as int),
        decreases v@.len() - i,
    {
        let ghost before = c@;
        c.push(crate::surface::copy_str(v[i].as_str()));
        assert(strings_view(c@) =~= strings_view(before).push(v@[i as int]@));
        assert(strings_view(c@) =~= strings_view(v@).take(i + 1));
        i = i + 1;
    }
    assert(strings_view(v@).take(i as int) =~= strings_view(v@));
    c
}

fn filter_indexed(files: &Vec<String>, mod_paths: &Vec<String>, deps: &Vec<(String, Vec<String>)>) -> (r: Vec<String>)
    ensures
        strings_view(r@) == indexed_only(files@, mod_paths@, deps@),
{
    let mut r: Vec<String> = Vec::new();
    let mut i: usize = 0;
    while i < files.len()
        invariant
            i <= files@.len(),
            strings_view(r@) == strings_view(files@).take(i as int).filter(
                indexed_pred(mod_paths@, deps@),
            ),
        decreases files@.len() - i,
    {
        let ghost before = r@;
        let ghost f = indexed_pred(mod_paths@, deps@);
        let ghost t1 = strings_view(files@).take(i + 1);
        assert(t1.drop_last() =~= strings_view(files@).take(i as int));
        assert(t1.last() == files@[i as int]@);
        proof {
            reveal(Seq::filter);
        }
        assert(t1.filter(f) == (if f(t1.last()) {
            t1.drop_last().filter(f).push(t1.last())
        } else {
            t1.drop_last().filter(f)
        }));
        if indexed_exec(mod_paths, deps, files[i].as_str()) {
            r.push(crate::surface::copy_str(files[i].as_str()));
            assert(strings_view(r@) =~= strings_view(before).push(files@[i as int]@));
        }
        i = i + 1;
    }
    assert(strings_view(files@).take(i as int) =~= strings_view(files@));
    r
}

/// Narrows a change set to the sources the dependency index knows, when it
/// can: unchanged when it holds an absolute path or the index is
/// incomplete.
pub fn native_filter_changed_files_to_contract_source_index(
    changed_files: &Vec<String>,
    removed_files: &Vec<String>,
    mod_paths: &Vec<String>,
    deps: &Vec<(String, Vec<String>)>,
) -> (r: (Vec<String>, Vec<String>))
    ensures
        ({
            let sources = strings_view(changed_files@) + strings_view(removed_files@);
            if (exists|k: int| 0 <= k < sources.len() && #[trigger] is_absolute_path(sources[k]))
                || !index_complete(mod_paths@, deps@) {
                strings_view(r.0@) == strings_view(changed_files@) && strings_view(r.1@)
                    == strings_view(removed_files@)
            } else {
                strings_view(r.0@) == indexed_only(changed_files@, mod_paths@, deps@)
                    && strings_view(r.1@) == indexed_only(removed_files@, mod_paths@, deps@)
            }
        }),
{
    if any_absolute(changed_files, removed_files) || !index_complete_exec(mod_paths, deps) {
        return (copy_strings(changed_files), copy_strings(removed_files));
    }
    (filter_indexed(changed_files, mod_paths, deps), filter_indexed(removed_files, mod_paths, deps))
}

/// How many changed and removed paths the index covered, for logging: their
/// number less the unmatched ones, saturating at both ends.
pub fn native_indexed_source_metric(
    changed_files: &Vec<String>,
    removed_files: &Vec<String>,
    unmatched_count: usize,
) -> (m: usize)
    ensures
        m == ({
            let t: int = if changed_files@.len() + removed_files@.len() > usize::MAX {
                usize::MAX as int
            } else {
                (changed_files@.len() + removed_files@.len()) as int
            };
            if t >= unmatched_count {
                t - unmatched_count
            } else {
                0
            }
        }),
{
    changed_files.len().saturating_add(removed_files.len()).saturating_sub(unmatched_count)
}

} // verus!
