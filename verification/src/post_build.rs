use vstd::prelude::*;
use crate::fingerprint::opt_view;
use crate::native_plan::{kept_dependencies, names_contain, native_prune_contract_source_dependencies_for_output_plans};
use crate::native_session::NativeContractOutputPlan;
use crate::strorder::{str_lt, str_lt_exec};
use crate::surface::{copy_str, strings_view};
use crate::text::{chars_of, str_eq};

verus! {

/// The dependency set recorded for a contract module, if any (the first
/// entry with it).
pub open spec fn deps_lookup(v: Seq<(String, Vec<String>)>, key: Seq<char>) -> Option<Vec<String>>
    decreases v.len(),
{
    if v.len() == 0 {
        None
    } else {
        match deps_lookup(v.drop_last(), key) {
            Some(d) => Some(d),
            None => if v.last().0@ == key {
                Some(v.last().1)
            } else {
                None
            },
        }
    }
}

/// The entries without `key`.
pub open spec fn deps_without(v: Seq<(String, Vec<String>)>, key: Seq<char>) -> Seq<(String, Vec<String>)>
    decreases v.len(),
{
    if v.len() == 0 {
        Seq::empty()
    } else if v.last().0@ == key {
        deps_without(v.drop_last(), key)
    } else {
        deps_without(v.drop_last(), key).push(v.last())
    }
}

/// The entries whose modules come before `key`.
pub open spec fn deps_below(v: Seq<(String, Vec<String>)>, key: Seq<char>) -> Seq<(String, Vec<String>)>
    decreases v.len(),
{
    if v.len() == 0 {
        Seq::empty()
    } else if str_lt(v.last().0@, key) {
        deps_below(v.drop_last(), key).push(v.last())
    } else {
        deps_below(v.drop_last(), key)
    }
}

/// The entries whose modules come after `key`.
pub open spec fn deps_above(v: Seq<(String, Vec<String>)>, key: Seq<char>) -> Seq<(String, Vec<String>)>
    decreases v.len(),
{
    if v.len() == 0 {
        Seq::empty()
    } else if str_lt(key, v.last().0@) {
        deps_above(v.drop_last(), key).push(v.last())
    } else {
        deps_above(v.drop_last(), key)
    }
}

/// The entries with `e` put in its module's place in module order.
pub open spec fn deps_with(v: Seq<(String, Vec<String>)>, e: (String, Vec<String>)) -> Seq<
    (String, Vec<String>),
> {
    deps_below(v, e.0@) + seq![e] + deps_above(v, e.0@)
}

/// One dependency update: an empty set drops the module's entry (a change
/// when there was one); another set replaces it unless it is the set
/// already recorded. Returns the entries and whether they changed.
pub open spec fn dependency_update(v: Seq<(String, Vec<String>)>, u: (String, Vec<String>)) -> (
    Seq<(String, Vec<String>)>,
    bool,
) {
    if u.1@.len() == 0 {
        if deps_lookup(v, u.0@) is Some {
            (deps_without(v, u.0@), true)
        } else {
            (v, false)
        }
    } else {
        match deps_lookup(v, u.0@) {
            Some(existing) => if strings_view(existing@) == strings_view(u.1@) {
                (v, false)
            } else {
                (deps_with(v, u), true)
            },
            None => (deps_with(v, u), true),
        }
    }
}

/// The updates applied one after the other.
pub open spec fn applied_updates(v: Seq<(String, Vec<String>)>, us: Seq<(String, Vec<String>)>) -> (
    Seq<(String, Vec<String>)>,
    bool,
)
    decreases us.len(),
{
    if us.len() == 0 {
        (v, false)
    } else {
        let prev = applied_updates(v, us.drop_last());
        let step = dependency_update(prev.0, us.last());
        (step.0, prev.1 || step.1)
    }
}

/// A contract output plan by its strings.
pub open spec fn plan_view(p: NativeContractOutputPlan) -> (
    Seq<char>,
    Seq<char>,
    Seq<char>,
    Seq<char>,
    Seq<char>,
    Option<Seq<char>>,
) {
    (p.mod_path@, p.artifact_id@, p.package_name@, p.contract_name@, p.artifact_file@, opt_view(p.casm_file))
}

pub open spec fn plans_view(v: Seq<NativeContractOutputPlan>) -> Seq<
    (Seq<char>, Seq<char>, Seq<char>, Seq<char>, Seq<char>, Option<Seq<char>>),
> {
    v.map_values(|p: NativeContractOutputPlan| plan_view(p))
}

/// The module paths of plans.
pub open spec fn plan_mod_paths(v: Seq<NativeContractOutputPlan>) -> Seq<String> {
    v.map_values(|p: NativeContractOutputPlan| p.mod_path)
}

fn lookup_deps(v: &Vec<(String, Vec<String>)>, key: &str) -> (r: Option<usize>)
    ensures
        match r {
            Some(i) => i < v@.len() && deps_lookup(v@, key@) == Some(v@[i as int].1),
            None => deps_lookup(v@, key@) is None,
        },
{
    let mut i: usize = 0;
    while i < v.len()
        invariant
            i <= v@.len(),
            deps_lookup(v@.take(i as int), key@) is None,
        decreases v@.len() - i,
    {
        assert(v@.take(i + 1).drop_last() =~= v@.take(i as int));
        if str_eq(v[i].0.as_str(), key) {
            proof {
                lemma_deps_lookup_prefix(v@, key@, i + 1);
            }
            return Some(i);
        }
        i = i + 1;
    }
    assert(v@.take(i as int) =~= v@);
    None
}

proof fn lemma_deps_lookup_prefix(v: Seq<(String, Vec<String>)>, key: Seq<char>, i: int)
    requires
        0 <= i <= v.len(),
        deps_lookup(v.take(i), key) is Some,
    ensures
        deps_lookup(v, key) == deps_lookup(v.take(i), key),
    decreases v.len(),
{
    if i < v.len() {
        assert(v.drop_last().take(i) =~= v.take(i));
        lemma_deps_lookup_prefix(v.drop_last(), key, i);
    } else {
        assert(v.take(i) =~= v);
    }
}

fn strings_equal(a: &Vec<String>, b: &Vec<String>) -> (r: bool)
    ensures
        r == (strings_view(a@) == strings_view(b@)),
{
    if a.len() != b.len() {
        assert(strings_view(a@).len() != strings_view(b@).len());
        return false;
    }
    let mut i: usize = 0;
    while i < a.len()
        invariant
            i <= a@.len(),
            a@.len() == b@.len(),
            forall|j: int| 0 <= j < i ==> a@[j]@ == b@[j]@,
        decreases a@.len() - i,
    {
        if !str_eq(a[i].as_str(), b[i].as_str()) {
            assert(strings_view(a@)[i as int] != strings_view(b@)[i as int]);
            return false;
        }
        i = i + 1;
    }
    assert(strings_view(a@) =~= strings_view(b@));
    true
}

/// Takes the entries out of `v`, leaving it empty.
fn take_all(v: &mut Vec<(String, Vec<String>)>) -> (all: Vec<(String, Vec<String>)>)
    ensures
        all@ == old(v)@,
        final(v)@.len() == 0,
{
    let mut all: Vec<(String, Vec<String>)> = Vec::new();
    std::mem::swap(&mut all, v);
    all
}

fn remove_deps(v: &mut Vec<(String, Vec<String>)>, key: &str)
    ensures
        final(v)@ == deps_without(old(v)@, key@),
{
    let mut rest = take_all(v);
    let ghost start = rest@;
    let mut kept: Vec<(String, Vec<String>)> = Vec::new();
    let ghost mut i: int = 0;
    while rest.len() > 0
        invariant
            0 <= i <= start.len(),
            rest@ == start.skip(i),
            kept@ == deps_without(start.take(i), key@),
        decreases rest@.len(),
    {
        let e = rest.remove(0);
        proof {
            assert(e == start[i]);
            assert(start.take(i + 1).drop_last() =~= start.take(i));
            assert(start.take(i + 1).last() == start[i]);
            assert(rest@ =~= start.skip(i + 1));
            i = i + 1;
        }
        if !str_eq(e.0.as_str(), key) {
            kept.push(e);
        }
    }
    assert(start.take(i) =~= start);
    *v = kept;
}

fn insert_deps(v: &mut Vec<(String, Vec<String>)>, e: (String, Vec<String>))
    ensures
        final(v)@ == deps_with(old(v)@, e),
{
    let key = chars_of(e.0.as_str());
    let mut rest = take_all(v);
    let ghost start = rest@;
    let mut below: Vec<(String, Vec<String>)> = Vec::new();
    let mut above: Vec<(String, Vec<String>)> = Vec::new();
    let ghost mut i: int = 0;
    while rest.len() > 0
        invariant
            0 <= i <= start.len(),
            key@ == e.0@,
            rest@ == start.skip(i),
            below@ == deps_below(start.take(i), e.0@),
            above@ == deps_above(start.take(i), e.0@),
        decreases rest@.len(),
    {
        let x = rest.remove(0);
        proof {
            assert(x == start[i]);
            assert(start.take(i + 1).drop_last() =~= start.take(i));
            assert(start.take(i + 1).last() == start[i]);
            assert(rest@ =~= start.skip(i + 1));
            i = i + 1;
        }
        let xc = chars_of(x.0.as_str());
        if str_lt_exec(&xc, &key) {
            proof {
                crate::strorder::lemma_str_lt_asymmetric(xc@, key@);
            }
            below.push(x);
        } else if str_lt_exec(&key, &xc) {
            above.push(x);
        }
    }
    assert(start.take(i) =~= start);
    below.push(e);
    below.append(&mut above);
    *v = below;
}

/// The plans' module paths, copied.
fn plan_paths(plans: &Vec<NativeContractOutputPlan>) -> (v: Vec<String>)
    ensures
        strings_view(v@) == strings_view(plan_mod_paths(plans@)),
{
    let mut v: Vec<String> = Vec::new();
    let mut i: usize = 0;
    while i < plans.len()
        invariant
            i <= plans@.len(),
            strings_view(v@) == strings_view(plan_mod_paths(plans@)).take(i as int),
        decreases plans@.len() - i,
    {
        let ghost before = v@;
        v.push(copy_str(plans[i].mod_path.as_str()));
        assert(strings_view(v@) =~= strings_view(before).push(plans@[i as int].mod_path@));
        assert(strings_view(plan_mod_paths(plans@)).take(i + 1) =~= strings_view(plan_mod_paths(plans@)).take(
            i as int,
        ).push(plans@[i as int].mod_path@));
        i = i + 1;
    }
    assert(strings_view(plan_mod_paths(plans@)).take(i as int) =~= strings_view(plan_mod_paths(plans@)));
    v
}

proof fn lemma_kept_same_names(deps: Seq<(String, Vec<String>)>, a: Seq<String>, b: Seq<String>)
    requires
        strings_view(a) == strings_view(b),
    ensures
        kept_dependencies(deps, a) == kept_dependencies(deps, b),
    decreases deps.len(),
{
    if deps.len() > 0 {
        lemma_kept_same_names(deps.drop_last(), a, b);
        let k = deps.last().0@;
        assert(strings_view(a).len() == a.len() && strings_view(b).len() == b.len());
        if names_contain(a, k) {
            let i = choose|i: int| 0 <= i < a.len() && (#[trigger] a[i])@ == k;
            assert(strings_view(a)[i] == a[i]@);
            assert(strings_view(b)[i] == b[i]@);
            assert(b[i]@ == k);
        }
        if names_contain(b, k) {
            let i = choose|i: int| 0 <= i < b.len() && (#[trigger] b[i])@ == k;
            assert(strings_view(a)[i] == a[i]@);
            assert(strings_view(b)[i] == b[i]@);
            assert(a[i]@ == k);
        }
    }
}

fn plans_equal(a: &Vec<NativeContractOutputPlan>, b: &Vec<NativeContractOutputPlan>) -> (r: bool)
    ensures
        r == (plans_view(a@) == plans_view(b@)),
{
    if a.len() != b.len() {
        assert(plans_view(a@).len() != plans_view(b@).len());
        return false;
    }
    let mut i: usize = 0;
    while i < a.len()
        invariant
            i <= a@.len(),
            a@.len() == b@.len(),
            forall|j: int| 0 <= j < i ==> plan_view(a@[j]) == plan_view(b@[j]),
        decreases a@.len() - i,
    {
        let x = &a[i];
        let y = &b[i];
        let same_casm = match (&x.casm_file, &y.casm_file) {
            (Some(p), Some(q)) => str_eq(p.as_str(), q.as_str()),
            (None, None) => true,
            _ => false,
        };
        if !(str_eq(x.mod_path.as_str(), y.mod_path.as_str()) && str_eq(
            x.artifact_id.as_str(),
            y.artifact_id.as_str(),
        ) && str_eq(x.package_name.as_str(), y.package_name.as_str()) && str_eq(
            x.contract_name.as_str(),
            y.contract_name.as_str(),
        ) && str_eq(x.artifact_file.as_str(), y.artifact_file.as_str()) && same_casm) {
            assert(plans_view(a@)[i as int] != plans_view(b@)[i as int]);
            return false;
        }
        i = i + 1;
    }
    assert(plans_view(a@) =~= plans_view(b@));
    true
}

/// What a finished build leaves in a compile session: each contract's new
/// source dependencies recorded, and, when the output plans changed, the
/// dependencies of contracts no longer planned dropped and the new plans
/// kept. Returns whether the session state changed (and is to be
/// persisted).
pub fn native_update_compile_session_post_build_state(
    contract_source_dependencies: &mut Vec<(String, Vec<String>)>,
    contract_output_plans: &mut Vec<NativeContractOutputPlan>,
    dependency_updates: Vec<(String, Vec<String>)>,
    new_output_plans: Option<Vec<NativeContractOutputPlan>>,
) -> (changed: bool)
    ensures
        ({
            let applied = applied_updates(old(contract_source_dependencies)@, dependency_updates@);
            match new_output_plans {
                Some(p) => if plans_view(old(contract_output_plans)@) != plans_view(p@) {
                    &&& final(contract_source_dependencies)@ == kept_dependencies(
                        applied.0,
                        plan_mod_paths(p@),
                    )
                    &&& final(contract_output_plans)@ == p@
                    &&& changed
                } else {
                    &&& final(contract_source_dependencies)@ == applied.0
                    &&& final(contract_output_plans)@ == old(contract_output_plans)@
                    &&& changed == applied.1
                },
                None => {
                    &&& final(contract_source_dependencies)@ == applied.0
                    &&& final(contract_output_plans)@ == old(contract_output_plans)@
                    &&& changed == applied.1
                },
            }
        }),
{
    let ghost start = contract_source_dependencies@;
    let mut changed = false;
    let mut updates = dependency_updates;
    let ghost all = updates@;
    let ghost mut i: int = 0;
    while updates.len() > 0
        invariant
            0 <= i <= all.len(),
            updates@ == all.skip(i),
            applied_updates(start, all.take(i)) == (contract_source_dependencies@, changed),
        decreases updates@.len(),
    {
        let u = updates.remove(0);
        proof {
            assert(u == all[i]);
            assert(all.take(i + 1).drop_last() =~= all.take(i));
            assert(all.take(i + 1).last() == all[i]);
            assert(updates@ =~= all.skip(i + 1));
            i = i + 1;
        }
        if u.1.len() == 0 {
            if lookup_deps(contract_source_dependencies, u.0.as_str()).is_some() {
                remove_deps(contract_source_dependencies, u.0.as_str());
                changed = true;
            }
        } else {
            let same = match lookup_deps(contract_source_dependencies, u.0.as_str()) {
                Some(k) => strings_equal(&contract_source_dependencies[k].1, &u.1),
                None => false,
            };
            if !same {
                insert_deps(contract_source_dependencies, u);
                changed = true;
            }
        }
    }
    assert(all.take(i) =~= all);
    match new_output_plans {
        Some(p) => {
            if !plans_equal(contract_output_plans, &p) {
                let paths = plan_paths(&p);
                native_prune_contract_source_dependencies_for_output_plans(
                    contract_source_dependencies,
                    &paths,
                );
                proof {
                    lemma_kept_same_names(applied_updates(start, all).0, paths@, plan_mod_paths(p@));
                }
                *contract_output_plans = p;
                changed = true;
            }
        },
        None => {},
    }
    changed
}

} // verus!
