use vstd::prelude::*;
use crate::fingerprint::opt_view;
use crate::impact::is_absolute_path;
use crate::native_session::NativeContractOutputPlan;
use crate::path_parts::{
    components_view, file_name_of, has_kind, path_components, path_components_spec,
    strip_path_prefix, stripped_prefix, NORMAL, PARENT_DIR, ROOT_DIR,
};
use crate::paths::{has_cairo_extension, is_cairo_file_name, name_view, normalize_fingerprint_path, normalized_path};
use crate::string_set::StringSet;
use crate::strorder::sorted_distinct;
use crate::surface::{copy_str, strings_view};
use crate::text::chars_of;

verus! {

/// The workspace-relative key of a source file named in a contract's debug
/// information: an absolute path must lie under the workspace; the path
/// must not climb with `..` or start at the root, and must name a `.cairo`
/// file.
pub open spec fn debug_relative_path(root: Seq<char>, path: Seq<char>) -> Option<Seq<char>> {
    let relative = if is_absolute_path(path) {
        stripped_prefix(path, root)
    } else {
        Some(path)
    };
    match relative {
        None => None,
        Some(r) => {
            let cs = path_components_spec(r);
            if has_kind(cs, PARENT_DIR) || has_kind(cs, ROOT_DIR) {
                None
            } else if !has_cairo_extension(file_name_of(cs)) {
                None
            } else {
                Some(normalized_path(r))
            }
        },
    }
}

/// The workspace-relative key of a source file named in debug information,
/// if it is a workspace Cairo file.
pub fn native_workspace_relative_cairo_path_from_debug(workspace_root: &str, debug_path: &str) -> (r:
    Option<String>)
    ensures
        opt_view(r) == debug_relative_path(workspace_root@, debug_path@),
{
    let chars = chars_of(debug_path);
    let relative = if chars.len() > 0 && chars[0] == '/' {
        match strip_path_prefix(debug_path, workspace_root) {
            Some(rest) => rest,
            None => {
                return None;
            },
        }
    } else {
        copy_str(debug_path)
    };
    let cs = path_components(relative.as_str());
    let ghost csv = components_view(cs@);
    let ghost expected = if is_absolute_path(debug_path@) {
        stripped_prefix(debug_path@, workspace_root@)
    } else {
        Some(debug_path@)
    };
    assert(expected == Some(relative@));
    let mut i: usize = 0;
    while i < cs.len()
        invariant
            i <= cs@.len(),
            csv == components_view(cs@),
            csv == path_components_spec(relative@),
            (if is_absolute_path(debug_path@) {
                stripped_prefix(debug_path@, workspace_root@)
            } else {
                Some(debug_path@)
            }) == Some(relative@),
            forall|j: int| 0 <= j < i ==> (#[trigger] csv[j]).0 != PARENT_DIR && csv[j].0 != ROOT_DIR,
        decreases cs@.len() - i,
    {
        assert(csv[i as int].0 == cs@[i as int].0);
        if cs[i].0 == PARENT_DIR || cs[i].0 == ROOT_DIR {
            assert(has_kind(csv, cs@[i as int].0));
            return None;
        }
        i = i + 1;
    }
    let name: Option<&str> = if cs.len() > 0 && cs[cs.len() - 1].0 == NORMAL {
        Some(cs[cs.len() - 1].1.as_str())
    } else {
        None
    };
    assert(name_view(name) == file_name_of(csv)) by {
        if cs@.len() > 0 {
            assert(csv.last() == (cs@.last().0, cs@.last().1@));
        }
    }
    if !is_cairo_file_name(name) {
        return None;
    }
    Some(normalize_fingerprint_path(relative.as_str()))
}

/// The workspace Cairo files among the paths named in debug information.
pub open spec fn debug_dependency_set(root: Seq<char>, paths: Seq<Seq<char>>) -> Set<Seq<char>> {
    Set::new(
        |k: Seq<char>|
            exists|i: int| 0 <= i < paths.len() && debug_relative_path(root, #[trigger] paths[i]) == Some(k),
    )
}

/// The source files a contract depends on, from the paths its debug
/// information names: each workspace Cairo file once, sorted.
pub fn native_contract_dependency_paths_from_debug_paths(workspace_root: &str, debug_paths: &Vec<String>) -> (r:
    Vec<String>)
    ensures
        strings_view(r@) == sorted_distinct(debug_dependency_set(workspace_root@, strings_view(debug_paths@))),
{
    let ghost pv = strings_view(debug_paths@);
    let mut set = StringSet::new();
    let mut i: usize = 0;
    while i < debug_paths.len()
        invariant
            i <= debug_paths@.len(),
            pv == strings_view(debug_paths@),
            set@ == debug_dependency_set(workspace_root@, pv.take(i as int)),
        decreases debug_paths@.len() - i,
    {
        let ghost before = set@;
        let found = native_workspace_relative_cairo_path_from_debug(workspace_root, debug_paths[i].as_str());
        match found {
            Some(k) => {
                set.insert(k);
            },
            None => {},
        }
        proof {
            let next = pv.take(i + 1);
            assert(next[i as int] == debug_paths@[i as int]@);
            assert forall|k: Seq<char>| set@.contains(k) == debug_dependency_set(workspace_root@, next).contains(k) by {
                if debug_dependency_set(workspace_root@, next).contains(k) {
                    let j = choose|j: int| 0 <= j < next.len() && debug_relative_path(workspace_root@, #[trigger] next[j]) == Some(k);
                    if j < i {
                        assert(pv.take(i as int)[j] == next[j]);
                    }
                }
                if before.contains(k) {
                    let j = choose|j: int| 0 <= j < i && debug_relative_path(workspace_root@, #[trigger] pv.take(i as int)[j]) == Some(k);
                    assert(next[j] == pv.take(i as int)[j]);
                }
                if set@.contains(k) && !before.contains(k) {
                    assert(debug_relative_path(workspace_root@, next[i as int]) == Some(k));
                }
            }
            assert(set@ =~= debug_dependency_set(workspace_root@, next));
        }
        i = i + 1;
    }
    assert(pv.take(i as int) =~= pv);
    set.sorted_items()
}

/// The dependency update a compiled contract gives: its module path, and
/// the files its debug information names (sorted), with the contract's own
/// source file added when there are any.
pub open spec fn contract_update(
    plans: Seq<NativeContractOutputPlan>,
    sources: Seq<Option<String>>,
    index: int,
    deps: Seq<Seq<char>>,
) -> (Seq<char>, Seq<Seq<char>>) {
    (
        plans[index].mod_path@,
        if deps.len() > 0 && 0 <= index < sources.len() && sources[index] is Some {
            sorted_distinct(deps.to_set().insert(sources[index]->0@))
        } else {
            deps
        },
    )
}

/// The dependency updates of the compiled contracts: each selected
/// contract (by index into `plans`) paired with the dependency files of its
/// compiled class, as many as there are of both.
pub fn native_collect_contract_dependency_updates(
    plans: &Vec<NativeContractOutputPlan>,
    contract_source_paths: &Vec<Option<String>>,
    selected_indices: &Vec<usize>,
    class_dependencies: &Vec<Vec<String>>,
) -> (r: Vec<(String, Vec<String>)>)
    requires
        forall|k: int| 0 <= k < selected_indices@.len() && k < class_dependencies@.len() ==> #[trigger] selected_indices@[k] < plans@.len(),
    ensures
        r@.len() == (if selected_indices@.len() < class_dependencies@.len() {
            selected_indices@.len()
        } else {
            class_dependencies@.len()
        }),
        forall|k: int|
            0 <= k < r@.len() ==> (#[trigger] r@[k]).0@ == contract_update(
                plans@,
                contract_source_paths@,
                selected_indices@[k] as int,
                strings_view(class_dependencies@[k]@),
            ).0 && strings_view(r@[k].1@) == contract_update(
                plans@,
                contract_source_paths@,
                selected_indices@[k] as int,
                strings_view(class_dependencies@[k]@),
            ).1,
{
    let n = if selected_indices.len() < class_dependencies.len() {
        selected_indices.len()
    } else {
        class_dependencies.len()
    };
    let mut out: Vec<(String, Vec<String>)> = Vec::new();
    let mut k: usize = 0;
    while k < n
        invariant
            k <= n,
            n <= selected_indices@.len(),
            n <= class_dependencies@.len(),
            n == (if selected_indices@.len() < class_dependencies@.len() {
                selected_indices@.len()
            } else {
                class_dependencies@.len()
            }),
            forall|q: int| 0 <= q < selected_indices@.len() && q < class_dependencies@.len() ==> #[trigger] selected_indices@[q] < plans@.len(),
            out@.len() == k,
            forall|q: int|
                0 <= q < k ==> (#[trigger] out@[q]).0@ == contract_update(
                    plans@,
                    contract_source_paths@,
                    selected_indices@[q] as int,
                    strings_view(class_dependencies@[q]@),
                ).0 && strings_view(out@[q].1@) == contract_update(
                    plans@,
                    contract_source_paths@,
                    selected_indices@[q] as int,
                    strings_view(class_dependencies@[q]@),
                ).1,
        decreases n - k,
    {
        let index = selected_indices[k];
        let deps = &class_dependencies[k];
        let ghost dv = strings_view(deps@);
        let source = if index < contract_source_paths.len() {
            match &contract_source_paths[index] {
                Some(p) => Some(p.as_str()),
                None => None,
            }
        } else {
            None
        };
        let mut list: Vec<String> = Vec::new();
        if deps.len() > 0 && source.is_some() {
            let mut set = StringSet::new();
            let mut j: usize = 0;
            while j < deps.len()
                invariant
                    j <= deps@.len(),
                    dv == strings_view(deps@),
                    set@ == dv.take(j as int).to_set(),
                decreases deps@.len() - j,
            {
                set.insert(copy_str(deps[j].as_str()));
                assert(dv.take(j + 1) =~= dv.take(j as int).push(deps@[j as int]@));
                proof {
                    dv.take(j as int).lemma_push_to_set_commute(deps@[j as int]@);
                }
                j = j + 1;
            }
            assert(dv.take(j as int) =~= dv);
            set.insert(copy_str(source.unwrap()));
            list = set.sorted_items();
        } else {
            let mut j: usize = 0;
            while j < deps.len()
                invariant
                    j <= deps@.len(),
                    dv == strings_view(deps@),
                    strings_view(list@) == dv.take(j as int),
                decreases deps@.len() - j,
            {
                let ghost before = list@;
                list.push(copy_str(deps[j].as_str()));
                assert(strings_view(list@) =~= strings_view(before).push(deps@[j as int]@));
                assert(dv.take(j + 1) =~= dv.take(j as int).push(deps@[j as int]@));
                j = j + 1;
            }
            assert(dv.take(j as int) =~= dv);
        }
        out.push((copy_str(plans[index].mod_path.as_str()), list));
        k = k + 1;
    }
    out
}

} // verus!
