use vstd::prelude::*;
use crate::fingerprint::opt_view;
use crate::native_session::NativeContractOutputPlan;
use crate::string_set::StringSet;
use crate::strorder::sorted_distinct;
use crate::surface::{copy_str, strings_view};
use crate::text::{push_str, str_eq};

verus! {

/// The artifact files of a contract in the Starknet artifacts manifest.
#[derive(Debug)]
pub struct StarknetArtifactFiles {
    pub sierra: String,
    pub casm: Option<String>,
}

/// A contract of the Starknet artifacts manifest.
#[derive(Debug)]
pub struct StarknetArtifactEntry {
    pub id: String,
    pub package_name: String,
    pub contract_name: String,
    pub mod_path: String,
    pub artifacts: StarknetArtifactFiles,
}

/// An entry by its strings.
pub open spec fn entry_view(e: StarknetArtifactEntry) -> (
    Seq<char>,
    Seq<char>,
    Seq<char>,
    Seq<char>,
    Seq<char>,
    Option<Seq<char>>,
) {
    (
        e.id@,
        e.package_name@,
        e.contract_name@,
        e.mod_path@,
        e.artifacts.sierra@,
        opt_view(e.artifacts.casm),
    )
}

pub open spec fn entries_view(v: Seq<StarknetArtifactEntry>) -> Seq<
    (Seq<char>, Seq<char>, Seq<char>, Seq<char>, Seq<char>, Option<Seq<char>>),
> {
    v.map_values(|e: StarknetArtifactEntry| entry_view(e))
}

/// The entry of the manifest with this id (the last one, as a map built
/// from the list keeps it), if any.
pub open spec fn entry_by_id(v: Seq<StarknetArtifactEntry>, id: Seq<char>) -> Option<StarknetArtifactEntry>
    decreases v.len(),
{
    if v.len() == 0 {
        None
    } else if v.last().id@ == id {
        Some(v.last())
    } else {
        entry_by_id(v.drop_last(), id)
    }
}

/// Whether a manifest entry still describes a planned contract: same module
/// path and artifact files.
pub open spec fn entry_matches_plan(e: StarknetArtifactEntry, p: NativeContractOutputPlan) -> bool {
    e.mod_path@ == p.mod_path@ && e.artifacts.sierra@ == p.artifact_file@ && opt_view(
        e.artifacts.casm,
    ) == opt_view(p.casm_file)
}

/// The reusable entries and files to keep after the first `n` plans (each
/// contract not in `impacted`), or `None` once one cannot be reused: its
/// entry is missing or differs from its plan, or one of its artifact files
/// is not present.
pub open spec fn reusable_upto(
    entries: Seq<StarknetArtifactEntry>,
    plans: Seq<NativeContractOutputPlan>,
    impacted: Set<int>,
    present: Set<Seq<char>>,
    n: int,
) -> Option<(Seq<StarknetArtifactEntry>, Set<Seq<char>>)>
    decreases n,
{
    if n <= 0 {
        Some((Seq::empty(), Set::empty()))
    } else {
        match reusable_upto(entries, plans, impacted, present, n - 1) {
            None => None,
            Some(acc) => if impacted.contains(n - 1) {
                Some(acc)
            } else {
                match entry_by_id(entries, plans[n - 1].artifact_id@) {
                    None => None,
                    Some(e) => if !entry_matches_plan(e, plans[n - 1]) {
                        None
                    } else if !present.contains(e.artifacts.sierra@) {
                        None
                    } else {
                        match e.artifacts.casm {
                            Some(c) => if !present.contains(c@) {
                                None
                            } else {
                                Some(
                                    (acc.0.push(e), acc.1.insert(e.artifacts.sierra@).insert(c@)),
                                )
                            },
                            None => Some((acc.0.push(e), acc.1.insert(e.artifacts.sierra@))),
                        }
                    },
                }
            },
        }
    }
}

/// What can be reused of the previous Starknet artifacts manifest for the
/// contracts a build does not recompile.
pub open spec fn reusable_entries(
    version: u32,
    entries: Seq<StarknetArtifactEntry>,
    plans: Seq<NativeContractOutputPlan>,
    impacted: Set<int>,
    present: Set<Seq<char>>,
) -> Option<(Seq<StarknetArtifactEntry>, Set<Seq<char>>)> {
    if version != 1 {
        None
    } else {
        reusable_upto(entries, plans, impacted, present, plans.len() as int)
    }
}

proof fn lemma_reusable_finite(
    entries: Seq<StarknetArtifactEntry>,
    plans: Seq<NativeContractOutputPlan>,
    impacted: Set<int>,
    present: Set<Seq<char>>,
    n: int,
)
    ensures
        match reusable_upto(entries, plans, impacted, present, n) {
            Some((_, keep)) => keep.finite(),
            None => true,
        },
    decreases n,
{
    if n > 0 {
        lemma_reusable_finite(entries, plans, impacted, present, n - 1);
    }
}

proof fn lemma_reusable_none_propagates(
    entries: Seq<StarknetArtifactEntry>,
    plans: Seq<NativeContractOutputPlan>,
    impacted: Set<int>,
    present: Set<Seq<char>>,
    k: int,
    n: int,
)
    requires
        0 <= k <= n,
        reusable_upto(entries, plans, impacted, present, k) is None,
    ensures
        reusable_upto(entries, plans, impacted, present, n) is None,
    decreases n - k,
{
    if k < n {
        lemma_reusable_none_propagates(entries, plans, impacted, present, k, n - 1);
    }
}

fn copy_entry(e: &StarknetArtifactEntry) -> (c: StarknetArtifactEntry)
    ensures
        entry_view(c) == entry_view(*e),
{
    StarknetArtifactEntry {
        id: copy_str(e.id.as_str()),
        package_name: copy_str(e.package_name.as_str()),
        contract_name: copy_str(e.contract_name.as_str()),
        mod_path: copy_str(e.mod_path.as_str()),
        artifacts: StarknetArtifactFiles {
            sierra: copy_str(e.artifacts.sierra.as_str()),
            casm: match &e.artifacts.casm {
                Some(c) => Some(copy_str(c.as_str())),
                None => None,
            },
        },
    }
}

fn find_entry(entries: &Vec<StarknetArtifactEntry>, id: &str) -> (r: Option<usize>)
    ensures
        match r {
            Some(i) => i < entries@.len() && entry_by_id(entries@, id@) == Some(entries@[i as int]),
            None => entry_by_id(entries@, id@) is None,
        },
{
    let mut i: usize = entries.len();
    assert(entries@.take(i as int) =~= entries@);
    while i > 0
        invariant
            i <= entries@.len(),
            entry_by_id(entries@, id@) == entry_by_id(entries@.take(i as int), id@),
        decreases i,
    {
        assert(entries@.take(i as int).drop_last() =~= entries@.take(i - 1));
        assert(entries@.take(i as int).last() == entries@[i - 1]);
        if str_eq(entries[i - 1].id.as_str(), id) {
            return Some(i - 1);
        }
        i = i - 1;
    }
    None
}

fn index_in(v: &Vec<usize>, x: usize) -> (b: bool)
    ensures
        b == v@.contains(x),
{
    let mut i: usize = 0;
    while i < v.len()
        invariant
            i <= v@.len(),
            forall|j: int| 0 <= j < i ==> v@[j] != x,
        decreases v@.len() - i,
    {
        if v[i] == x {
            assert(v@[i as int] == x);
            return true;
        }
        i = i + 1;
    }
    false
}

fn opt_eq(a: &Option<String>, b: &Option<String>) -> (r: bool)
    ensures
        r == (opt_view(*a) == opt_view(*b)),
{
    match (a, b) {
        (Some(x), Some(y)) => str_eq(x.as_str(), y.as_str()),
        (None, None) => true,
        _ => false,
    }
}

pub open spec fn index_set(v: Seq<usize>) -> Set<int> {
    Set::new(|i: int| exists|j: int| 0 <= j < v.len() && v[j] as int == i)
}

/// What can be reused of the previous Starknet artifacts manifest (of
/// layout `version`, with these `entries`) for the contracts a build does
/// not recompile (those not in `impacted_indices`): the entries to keep and
/// the artifact files they need (sorted), or `None` when the manifest is of
/// another version or some unaffected contract cannot be reused.
/// `present_files` are the artifact files that exist in the target
/// directory.
pub fn native_reusable_unaffected_manifest_entries(
    version: u32,
    entries: &Vec<StarknetArtifactEntry>,
    plans: &Vec<NativeContractOutputPlan>,
    impacted_indices: &Vec<usize>,
    present_files: &Vec<String>,
) -> (r: Option<(Vec<StarknetArtifactEntry>, Vec<String>)>)
    ensures
        match reusable_entries(
            version,
            entries@,
            plans@,
            index_set(impacted_indices@),
            strings_view(present_files@).to_set(),
        ) {
            None => r is None,
            Some((es, keep)) => (r matches Some((out, files)) && entries_view(out@) == entries_view(es)
                && strings_view(files@) == sorted_distinct(keep)),
        },
{
    if version != 1 {
        return None;
    }
    let mut present = StringSet::new();
    let mut p: usize = 0;
    while p < present_files.len()
        invariant
            p <= present_files@.len(),
            present@ == strings_view(present_files@).take(p as int).to_set(),
        decreases present_files@.len() - p,
    {
        present.insert(copy_str(present_files[p].as_str()));
        assert(strings_view(present_files@).take(p + 1) =~= strings_view(present_files@).take(
            p as int,
        ).push(present_files@[p as int]@));
        proof {
            strings_view(present_files@).take(p as int).lemma_push_to_set_commute(present_files@[p as int]@);
        }
        p = p + 1;
    }
    assert(strings_view(present_files@).take(p as int) =~= strings_view(present_files@));
    let ghost impacted = index_set(impacted_indices@);
    let ghost present_set = strings_view(present_files@).to_set();
    let mut kept: Vec<StarknetArtifactEntry> = Vec::new();
    let mut keep = StringSet::new();
    let ghost mut acc_entries: Seq<StarknetArtifactEntry> = Seq::empty();
    let mut i: usize = 0;
    while i < plans.len()
        invariant
            i <= plans@.len(),
            present@ == present_set,
            present_set == strings_view(present_files@).to_set(),
            version == 1,
            impacted == index_set(impacted_indices@),
            reusable_upto(entries@, plans@, impacted, present_set, i as int) == Some(
                (acc_entries, keep@),
            ),
            entries_view(kept@) == entries_view(acc_entries),
        decreases plans@.len() - i,
    {
        if index_in(impacted_indices, i) {
            assert(impacted.contains(i as int)) by {
                let j = choose|j: int| 0 <= j < impacted_indices@.len() && impacted_indices@[j] == i;
                assert(impacted_indices@[j] as int == i as int);
            }
            i = i + 1;
            continue;
        }
        assert(!impacted.contains(i as int)) by {
            if impacted.contains(i as int) {
                let j = choose|j: int| 0 <= j < impacted_indices@.len() && impacted_indices@[j] as int == i as int;
                assert(impacted_indices@.contains(i));
            }
        }
        let plan = &plans[i];
        let found = match find_entry(entries, plan.artifact_id.as_str()) {
            None => {
                proof {
                    assert(reusable_upto(entries@, plans@, impacted, present_set, i + 1) is None);
                    lemma_reusable_none_propagates(entries@, plans@, impacted, present_set, i + 1, plans@.len() as int);
                }
                return None;
            },
            Some(k) => k,
        };
        let e = &entries[found];
        if !str_eq(e.mod_path.as_str(), plan.mod_path.as_str()) || !str_eq(
            e.artifacts.sierra.as_str(),
            plan.artifact_file.as_str(),
        ) || !opt_eq(&e.artifacts.casm, &plan.casm_file) {
            proof {
                    assert(reusable_upto(entries@, plans@, impacted, present_set, i + 1) is None);
                    lemma_reusable_none_propagates(entries@, plans@, impacted, present_set, i + 1, plans@.len() as int);
                }
                return None;
        }
        if !present.contains(e.artifacts.sierra.as_str()) {
            proof {
                    assert(reusable_upto(entries@, plans@, impacted, present_set, i + 1) is None);
                    lemma_reusable_none_propagates(entries@, plans@, impacted, present_set, i + 1, plans@.len() as int);
                }
                return None;
        }
        keep.insert(copy_str(e.artifacts.sierra.as_str()));
        match &e.artifacts.casm {
            Some(c) => {
                if !present.contains(c.as_str()) {
                    proof {
                    assert(reusable_upto(entries@, plans@, impacted, present_set, i + 1) is None);
                    lemma_reusable_none_propagates(entries@, plans@, impacted, present_set, i + 1, plans@.len() as int);
                }
                return None;
                }
                keep.insert(copy_str(c.as_str()));
            },
            None => {},
        }
        let ghost before = kept@;
        kept.push(copy_entry(e));
        proof {
            acc_entries = acc_entries.push(entries@[found as int]);
            assert(entries_view(kept@) =~= entries_view(before).push(entry_view(entries@[found as int])));
        }
        i = i + 1;
    }
    Some((kept, keep.sorted_items()))
}

/// The files a no-op build keeps in the target directory: the files of
/// every planned contract (when all can be reused) and the manifest
/// itself; `None` when there are no plans or some contract cannot be
/// reused.
pub fn native_cached_noop_keep_files(
    package_name: &str,
    version: u32,
    entries: &Vec<StarknetArtifactEntry>,
    plans: &Vec<NativeContractOutputPlan>,
    present_files: &Vec<String>,
) -> (r: Option<Vec<String>>)
    ensures
        plans@.len() == 0 ==> r is None,
        plans@.len() > 0 ==> match reusable_entries(
            version,
            entries@,
            plans@,
            Set::empty(),
            strings_view(present_files@).to_set(),
        ) {
            None => r is None,
            Some((_, keep)) => r is Some && strings_view(r->0@) == sorted_distinct(
                keep.insert(package_name@ + ".starknet_artifacts.json"@),
            ),
        },
{
    if plans.len() == 0 {
        return None;
    }
    let none: Vec<usize> = Vec::new();
    assert(index_set(none@) =~= Set::<int>::empty());
    let reused = native_reusable_unaffected_manifest_entries(version, entries, plans, &none, present_files);
    match reused {
        None => None,
        Some((_, files)) => {
            let mut keep = StringSet::new();
            let mut i: usize = 0;
            while i < files.len()
                invariant
                    i <= files@.len(),
                    keep@ == strings_view(files@).take(i as int).to_set(),
                decreases files@.len() - i,
            {
                keep.insert(copy_str(files[i].as_str()));
                assert(strings_view(files@).take(i + 1) =~= strings_view(files@).take(i as int).push(
                    files@[i as int]@,
                ));
                proof {
                    strings_view(files@).take(i as int).lemma_push_to_set_commute(files@[i as int]@);
                }
                i = i + 1;
            }
            assert(strings_view(files@).take(i as int) =~= strings_view(files@));
            let mut manifest = copy_str(package_name);
            push_str(&mut manifest, ".starknet_artifacts.json");
            keep.insert(manifest);
            proof {
                let present_set = strings_view(present_files@).to_set();
                lemma_reusable_finite(entries@, plans@, Set::empty(), present_set, plans@.len() as int);
                let res = reusable_entries(version, entries@, plans@, Set::empty(), present_set);
                let pair = res->0;
                crate::strorder::lemma_sorted_distinct_exists(pair.1);
            }
            Some(keep.sorted_items())
        },
    }
}

} // verus!
