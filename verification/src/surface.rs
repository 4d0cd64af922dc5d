use vstd::prelude::*;
use crate::native::{cairo_crate_key, normalize_package_name_for_cairo_crate};
use crate::paths::{normalize_fingerprint_path, normalized_path};
use crate::text::{chars_of, str_eq, string_from_chars};
use crate::string_set::StringSet;
use crate::fingerprint::opt_view;
use crate::strorder::{lemma_sorted_distinct_of, sorted_distinct, sorted_distinct_indices, strictly_sorted};

verus! {

/// A package that `scarb metadata` reports.
#[derive(Debug, Clone)]
pub struct ScarbMetadataPackage {
    pub id: String,
    pub manifest_path: String,
    pub edition: Option<String>,
}

/// A component of a compilation unit: a crate with the ids of the
/// components it depends on.
#[derive(Debug, Clone)]
pub struct ScarbMetadataComponent {
    pub id: String,
    pub name: String,
    pub source_path: String,
    pub dependencies: Vec<String>,
}

/// A compilation unit: the package it builds, its target kind and its
/// components.
#[derive(Debug, Clone)]
pub struct ScarbCompilationUnit {
    pub package: String,
    pub target_kind: String,
    pub components: Vec<ScarbMetadataComponent>,
}

/// What `scarb metadata` reports that the native dependency surface is
/// built from.
#[derive(Debug, Clone)]
pub struct ScarbMetadataDocument {
    pub packages: Vec<ScarbMetadataPackage>,
    pub compilation_units: Vec<ScarbCompilationUnit>,
}

/// The position of the last package with id `id`, or -1: later packages
/// shadow earlier ones with the same id.
pub open spec fn last_package_index(ps: Seq<ScarbMetadataPackage>, id: Seq<char>) -> int
    decreases ps.len(),
{
    if ps.len() == 0 {
        -1
    } else if ps.last().id@ == id {
        ps.len() - 1
    } else {
        last_package_index(ps.drop_last(), id)
    }
}

/// The position of the last component with id `id`, or -1.
pub open spec fn last_component_index(cs: Seq<ScarbMetadataComponent>, id: Seq<char>) -> int
    decreases cs.len(),
{
    if cs.len() == 0 {
        -1
    } else if cs.last().id@ == id {
        cs.len() - 1
    } else {
        last_component_index(cs.drop_last(), id)
    }
}

proof fn lemma_last_package_index(ps: Seq<ScarbMetadataPackage>, id: Seq<char>)
    ensures
        -1 <= last_package_index(ps, id) < ps.len(),
        last_package_index(ps, id) >= 0 ==> ps[last_package_index(ps, id)].id@ == id,
    decreases ps.len(),
{
    if ps.len() > 0 && ps.last().id@ != id {
        lemma_last_package_index(ps.drop_last(), id);
    }
}

proof fn lemma_last_component_index(cs: Seq<ScarbMetadataComponent>, id: Seq<char>)
    ensures
        -1 <= last_component_index(cs, id) < cs.len(),
        last_component_index(cs, id) >= 0 ==> cs[last_component_index(cs, id)].id@ == id,
    decreases cs.len(),
{
    if cs.len() > 0 && cs.last().id@ != id {
        lemma_last_component_index(cs.drop_last(), id);
    }
}

fn find_last_package(ps: &Vec<ScarbMetadataPackage>, id: &str) -> (r: Option<usize>)
    ensures
        match r {
            Some(i) => i == last_package_index(ps@, id@),
            None => last_package_index(ps@, id@) == -1,
        },
{
    let mut found: Option<usize> = None;
    let mut i: usize = 0;
    while i < ps.len()
        invariant
            i <= ps@.len(),
            match found {
                Some(j) => j == last_package_index(ps@.take(i as int), id@),
                None => last_package_index(ps@.take(i as int), id@) == -1,
            },
        decreases ps@.len() - i,
    {
        assert(ps@.take(i + 1).drop_last() =~= ps@.take(i as int));
        if str_eq(ps[i].id.as_str(), id) {
            found = Some(i);
        }
        i = i + 1;
    }
    assert(ps@.take(i as int) =~= ps@);
    found
}

fn find_last_component(cs: &Vec<ScarbMetadataComponent>, id: &str) -> (r: Option<usize>)
    ensures
        match r {
            Some(i) => i == last_component_index(cs@, id@),
            None => last_component_index(cs@, id@) == -1,
        },
{
    let mut found: Option<usize> = None;
    let mut i: usize = 0;
    while i < cs.len()
        invariant
            i <= cs@.len(),
            match found {
                Some(j) => j == last_component_index(cs@.take(i as int), id@),
                None => last_component_index(cs@.take(i as int), id@) == -1,
            },
        decreases cs@.len() - i,
    {
        assert(cs@.take(i + 1).drop_last() =~= cs@.take(i as int));
        if str_eq(cs[i].id.as_str(), id) {
            found = Some(i);
        }
        i = i + 1;
    }
    assert(cs@.take(i as int) =~= cs@);
    found
}

/// Whether a component of `unit` is the root package's: it has the root's
/// crate name, it is the unit's own package, or its package's manifest is
/// the root manifest.
pub open spec fn is_root_component(
    packages: Seq<ScarbMetadataPackage>,
    unit_package: Seq<char>,
    c: ScarbMetadataComponent,
    root_manifest_key: Seq<char>,
    root_crate: Seq<char>,
) -> bool {
    ||| cairo_crate_key(c.name@) == root_crate
    ||| unit_package == c.id@
    ||| {
        let k = last_package_index(packages, c.id@);
        k >= 0 && normalized_path(packages[k].manifest_path@) == root_manifest_key
    }
}

fn component_is_root(
    packages: &Vec<ScarbMetadataPackage>,
    unit_package: &str,
    c: &ScarbMetadataComponent,
    root_manifest_key: &str,
    root_crate: &str,
) -> (b: bool)
    ensures
        b == is_root_component(packages@, unit_package@, *c, root_manifest_key@, root_crate@),
{
    let name = normalize_package_name_for_cairo_crate(c.name.as_str());
    if str_eq(name.as_str(), root_crate) {
        return true;
    }
    if str_eq(unit_package, c.id.as_str()) {
        return true;
    }
    proof {
        lemma_last_package_index(packages@, c.id@);
    }
    match find_last_package(packages, c.id.as_str()) {
        Some(k) => {
            let m = normalize_fingerprint_path(packages[k].manifest_path.as_str());
            str_eq(m.as_str(), root_manifest_key)
        },
        None => false,
    }
}

/// Whether some component of `unit` is the root package's.
pub open spec fn unit_has_root(
    packages: Seq<ScarbMetadataPackage>,
    unit: ScarbCompilationUnit,
    root_manifest_key: Seq<char>,
    root_crate: Seq<char>,
) -> bool {
    exists|i: int|
        0 <= i < unit.components@.len() && is_root_component(
            packages,
            unit.package@,
            #[trigger] unit.components@[i],
            root_manifest_key,
            root_crate,
        )
}

fn unit_has_root_exec(
    packages: &Vec<ScarbMetadataPackage>,
    unit: &ScarbCompilationUnit,
    root_manifest_key: &str,
    root_crate: &str,
) -> (b: bool)
    ensures
        b == unit_has_root(packages@, *unit, root_manifest_key@, root_crate@),
{
    let mut i: usize = 0;
    while i < unit.components.len()
        invariant
            i <= unit.components@.len(),
            forall|j: int|
                0 <= j < i ==> !is_root_component(
                    packages@,
                    unit.package@,
                    #[trigger] unit.components@[j],
                    root_manifest_key@,
                    root_crate@,
                ),
        decreases unit.components@.len() - i,
    {
        if component_is_root(
            packages,
            unit.package.as_str(),
            &unit.components[i],
            root_manifest_key,
            root_crate,
        ) {
            return true;
        }
        i = i + 1;
    }
    false
}

/// The first unit from position `i` on that has a root component (and,
/// when `contract_only`, builds a Starknet contract), or -1.
pub open spec fn first_unit_from(
    doc: ScarbMetadataDocument,
    i: int,
    contract_only: bool,
    root_manifest_key: Seq<char>,
    root_crate: Seq<char>,
) -> int
    decreases doc.compilation_units@.len() - i,
{
    if i < 0 || i >= doc.compilation_units@.len() {
        -1
    } else if (!contract_only || doc.compilation_units@[i].target_kind@ == "starknet-contract"@)
        && unit_has_root(doc.packages@, doc.compilation_units@[i], root_manifest_key, root_crate) {
        i
    } else {
        first_unit_from(doc, i + 1, contract_only, root_manifest_key, root_crate)
    }
}

/// The compilation unit that the root package's dependencies are read
/// from: the first Starknet contract unit with a root component, else the
/// first unit with one, else none (-1).
pub open spec fn selected_unit(
    doc: ScarbMetadataDocument,
    root_manifest_key: Seq<char>,
    root_crate: Seq<char>,
) -> int {
    let a = first_unit_from(doc, 0, true, root_manifest_key, root_crate);
    if a >= 0 {
        a
    } else {
        first_unit_from(doc, 0, false, root_manifest_key, root_crate)
    }
}

proof fn lemma_first_unit_from(
    doc: ScarbMetadataDocument,
    i: int,
    contract_only: bool,
    root_manifest_key: Seq<char>,
    root_crate: Seq<char>,
)
    requires
        0 <= i,
    ensures
        ({
            let r = first_unit_from(doc, i, contract_only, root_manifest_key, root_crate);
            r == -1 || i <= r < doc.compilation_units@.len()
        }),
    decreases doc.compilation_units@.len() - i,
{
    if i < doc.compilation_units@.len() {
        lemma_first_unit_from(doc, i + 1, contract_only, root_manifest_key, root_crate);
    }
}

fn first_unit_exec(
    doc: &ScarbMetadataDocument,
    contract_only: bool,
    root_manifest_key: &str,
    root_crate: &str,
) -> (r: Option<usize>)
    ensures
        match r {
            Some(i) => i == first_unit_from(*doc, 0, contract_only, root_manifest_key@, root_crate@),
            None => first_unit_from(*doc, 0, contract_only, root_manifest_key@, root_crate@) == -1,
        },
{
    let contract = chars_of("starknet-contract");
    let mut i: usize = 0;
    while i < doc.compilation_units.len()
        invariant
            i <= doc.compilation_units@.len(),
            contract@ == "starknet-contract"@,
            first_unit_from(*doc, 0, contract_only, root_manifest_key@, root_crate@)
                == first_unit_from(*doc, i as int, contract_only, root_manifest_key@, root_crate@),
        decreases doc.compilation_units@.len() - i,
    {
        let unit = &doc.compilation_units[i];
        let kind = chars_of(unit.target_kind.as_str());
        let kind_ok = !contract_only || crate::text::range_eq(&kind, 0, kind.len(), &contract);
        proof {
            assert(kind@.subrange(0, kind@.len() as int) =~= kind@);
        }
        if kind_ok && unit_has_root_exec(&doc.packages, unit, root_manifest_key, root_crate) {
            return Some(i);
        }
        i = i + 1;
    }
    None
}

/// Picks the compilation unit whose components make up the native
/// dependency surface of the package named `root_package_name` with
/// manifest `manifest_path`; none when no unit has one of its components.
pub fn select_metadata_compilation_unit(
    doc: &ScarbMetadataDocument,
    manifest_path: &str,
    root_package_name: &str,
) -> (r: Option<usize>)
    ensures
        ({
            let s = selected_unit(
                *doc,
                normalized_path(manifest_path@),
                cairo_crate_key(root_package_name@),
            );
            match r {
                Some(i) => i == s && i < doc.compilation_units@.len(),
                None => s == -1,
            }
        }),
{
    let key = normalize_fingerprint_path(manifest_path);
    let root_crate = normalize_package_name_for_cairo_crate(root_package_name);
    proof {
        lemma_first_unit_from(*doc, 0, true, key@, root_crate@);
        lemma_first_unit_from(*doc, 0, false, key@, root_crate@);
    }
    match first_unit_exec(doc, true, key.as_str(), root_crate.as_str()) {
        Some(i) => Some(i),
        None => first_unit_exec(doc, false, key.as_str(), root_crate.as_str()),
    }
}


/// Where a component's sources live, as found on disk: the directory of its
/// source file, and whether that directory holds `lib.cairo`.
#[derive(Debug, Clone)]
pub struct ComponentSourceRoot {
    pub source_root: String,
    pub has_lib_cairo: bool,
}

/// The state of the walk over a unit's component graph: the queue of
/// component ids with the position of the next one, the ids already taken,
/// the crates found in the order first found, with their source roots and
/// editions (`None` while no package has given one), and the dependency
/// relation between crates.
pub struct WalkState {
    pub queue: Seq<Seq<char>>,
    pub head: nat,
    pub visited: Set<Seq<char>>,
    pub names: Seq<Seq<char>>,
    pub roots: Seq<Seq<char>>,
    pub editions: Seq<Option<Option<Seq<char>>>>,
    pub deps: Set<(Seq<char>, Seq<char>)>,
}

/// The crate name of a component.
pub open spec fn component_crate(c: ScarbMetadataComponent) -> Seq<char> {
    cairo_crate_key(c.name@)
}

/// Whether the component at `ci` is walked through: it exists, its source
/// root holds `lib.cairo`, and it is not the core library.
pub open spec fn expands(
    cs: Seq<ScarbMetadataComponent>,
    srcs: Seq<ComponentSourceRoot>,
    ci: int,
) -> bool {
    0 <= ci < cs.len() && srcs[ci].has_lib_cairo && component_crate(cs[ci]) != "core"@
}

/// The crate that a dependency id names, unless it is unknown or the core
/// library.
pub open spec fn dependency_crate(cs: Seq<ScarbMetadataComponent>, d: Seq<char>) -> Option<
    Seq<char>,
> {
    let k = last_component_index(cs, d);
    if k >= 0 && component_crate(cs[k]) != "core"@ {
        Some(component_crate(cs[k]))
    } else {
        None
    }
}

/// The position of the last occurrence of `n` in `names`, or -1.
pub open spec fn name_index(names: Seq<Seq<char>>, n: Seq<char>) -> int
    decreases names.len(),
{
    if names.len() == 0 {
        -1
    } else if names.last() == n {
        names.len() - 1
    } else {
        name_index(names.drop_last(), n)
    }
}

/// The ids of a component's dependencies.
pub open spec fn dependency_ids(c: ScarbMetadataComponent) -> Seq<Seq<char>> {
    c.dependencies@.map_values(|d: String| d@)
}

/// The dependency pairs that walking through component `c` of crate `name`
/// adds.
pub open spec fn component_dep_pairs(
    cs: Seq<ScarbMetadataComponent>,
    c: ScarbMetadataComponent,
    name: Seq<char>,
) -> Set<(Seq<char>, Seq<char>)> {
    Set::new(
        |p: (Seq<char>, Seq<char>)|
            p.0 == name && exists|j: int|
                0 <= j < c.dependencies@.len() && #[trigger] dependency_crate(
                    cs,
                    c.dependencies@[j]@,
                ) == Some(p.1),
    )
}

/// One step of the walk: takes the next id off the queue; an id already
/// taken is skipped; otherwise it is marked taken and, when its component
/// is walked through, its crate is recorded (the first source root and the
/// first known edition win), its dependencies' crates are related to it,
/// and its dependency ids join the queue.
pub open spec fn walk_step(
    ps: Seq<ScarbMetadataPackage>,
    cs: Seq<ScarbMetadataComponent>,
    srcs: Seq<ComponentSourceRoot>,
    s: WalkState,
) -> WalkState {
    let id = s.queue[s.head as int];
    if s.visited.contains(id) {
        WalkState { head: s.head + 1, ..s }
    } else {
        let ci = last_component_index(cs, id);
        if !expands(cs, srcs, ci) {
            WalkState { head: s.head + 1, visited: s.visited.insert(id), ..s }
        } else {
            let c = cs[ci];
            let name = component_crate(c);
            let pk = last_package_index(ps, c.id@);
            let edition = if pk >= 0 {
                Some(crate::fingerprint::opt_view(ps[pk].edition))
            } else {
                None
            };
            let k = name_index(s.names, name);
            WalkState {
                queue: s.queue + dependency_ids(c),
                head: s.head + 1,
                visited: s.visited.insert(id),
                names: if k >= 0 {
                    s.names
                } else {
                    s.names.push(name)
                },
                roots: if k >= 0 {
                    s.roots
                } else {
                    s.roots.push(srcs[ci].source_root@)
                },
                editions: if k < 0 {
                    s.editions.push(edition)
                } else if s.editions[k] is None {
                    s.editions.update(k, edition)
                } else {
                    s.editions
                },
                deps: s.deps.union(component_dep_pairs(cs, c, name)),
            }
        }
    }
}

/// The dependency ids still to come from components whose ids are not yet
/// taken: a bound on how much the queue can still grow.
pub open spec fn pending_deps(cs: Seq<ScarbMetadataComponent>, visited: Set<Seq<char>>) -> nat
    decreases cs.len(),
{
    if cs.len() == 0 {
        0
    } else {
        pending_deps(cs.drop_last(), visited) + if visited.contains(cs.last().id@) {
            0
        } else {
            cs.last().dependencies@.len()
        }
    }
}

/// A measure that every step of the walk decreases.
pub open spec fn walk_measure(cs: Seq<ScarbMetadataComponent>, s: WalkState) -> nat {
    (s.queue.len() - s.head) as nat + pending_deps(cs, s.visited)
}

/// The walk run for at most `fuel` steps, or until the queue is exhausted.
pub open spec fn walk_run(
    ps: Seq<ScarbMetadataPackage>,
    cs: Seq<ScarbMetadataComponent>,
    srcs: Seq<ComponentSourceRoot>,
    s: WalkState,
    fuel: nat,
) -> WalkState
    decreases fuel,
{
    if fuel == 0 || s.head >= s.queue.len() {
        s
    } else {
        walk_run(ps, cs, srcs, walk_step(ps, cs, srcs, s), (fuel - 1) as nat)
    }
}

/// The walk from the given root ids, run until its queue is exhausted.
pub open spec fn walk_from(
    ps: Seq<ScarbMetadataPackage>,
    cs: Seq<ScarbMetadataComponent>,
    srcs: Seq<ComponentSourceRoot>,
    root_ids: Seq<Seq<char>>,
) -> WalkState {
    let init = WalkState {
        queue: root_ids,
        head: 0,
        visited: Set::empty(),
        names: Seq::empty(),
        roots: Seq::empty(),
        editions: Seq::empty(),
        deps: Set::empty(),
    };
    walk_run(ps, cs, srcs, init, walk_measure(cs, init))
}

proof fn lemma_pending_deps_insert(
    cs: Seq<ScarbMetadataComponent>,
    visited: Set<Seq<char>>,
    x: Seq<char>,
    ci: int,
)
    ensures
        pending_deps(cs, visited.insert(x)) <= pending_deps(cs, visited),
        0 <= ci < cs.len() && cs[ci].id@ == x && !visited.contains(x) ==> pending_deps(
            cs,
            visited.insert(x),
        ) + cs[ci].dependencies@.len() <= pending_deps(cs, visited),
    decreases cs.len(),
{
    if cs.len() > 0 {
        lemma_pending_deps_insert(cs.drop_last(), visited, x, ci);
        if 0 <= ci < cs.len() - 1 {
            assert(cs.drop_last()[ci] == cs[ci]);
        }
    }
}

proof fn lemma_walk_step_measure(
    ps: Seq<ScarbMetadataPackage>,
    cs: Seq<ScarbMetadataComponent>,
    srcs: Seq<ComponentSourceRoot>,
    s: WalkState,
)
    requires
        s.head < s.queue.len(),
    ensures
        walk_step(ps, cs, srcs, s).head <= walk_step(ps, cs, srcs, s).queue.len(),
        walk_measure(cs, walk_step(ps, cs, srcs, s)) < walk_measure(cs, s),
{
    let id = s.queue[s.head as int];
    let ci = last_component_index(cs, id);
    lemma_last_component_index(cs, id);
    lemma_pending_deps_insert(cs, s.visited, id, ci);
}

proof fn lemma_walk_run_fuel(
    ps: Seq<ScarbMetadataPackage>,
    cs: Seq<ScarbMetadataComponent>,
    srcs: Seq<ComponentSourceRoot>,
    s: WalkState,
    fuel: nat,
)
    requires
        s.head <= s.queue.len(),
        fuel >= walk_measure(cs, s),
    ensures
        walk_run(ps, cs, srcs, s, fuel) == walk_run(ps, cs, srcs, s, walk_measure(cs, s)),
    decreases fuel,
{
    if s.head < s.queue.len() {
        let t = walk_step(ps, cs, srcs, s);
        lemma_walk_step_measure(ps, cs, srcs, s);
        lemma_walk_run_fuel(ps, cs, srcs, t, (fuel - 1) as nat);
        lemma_walk_run_fuel(ps, cs, srcs, t, (walk_measure(cs, s) - 1) as nat);
    }
}


/// The views of a sequence of strings.
pub open spec fn strings_view(v: Seq<String>) -> Seq<Seq<char>> {
    v.map_values(|s: String| s@)
}

/// The pairs of strings that `v` holds, as a set of views.
pub open spec fn pairs_view(v: Seq<(String, String)>) -> Set<(Seq<char>, Seq<char>)> {
    Set::new(
        |p: (Seq<char>, Seq<char>)|
            exists|i: int| 0 <= i < v.len() && (#[trigger] v[i]).0@ == p.0 && v[i].1@ == p.1,
    )
}

/// The view of an edition slot: unset, or set to an edition or to none.
pub open spec fn edition_slot_view(e: Option<Option<String>>) -> Option<Option<Seq<char>>> {
    match e {
        Some(x) => Some(opt_view(x)),
        None => None,
    }
}

pub open spec fn editions_view(v: Seq<Option<Option<String>>>) -> Seq<Option<Option<Seq<char>>>> {
    v.map_values(|e: Option<Option<String>>| edition_slot_view(e))
}

/// The walk state that the executable walk's variables stand for.
pub open spec fn walk_state_of(
    queue: Seq<String>,
    head: nat,
    visited: Set<Seq<char>>,
    names: Seq<String>,
    roots: Seq<String>,
    editions: Seq<Option<Option<String>>>,
    deps: Seq<(String, String)>,
) -> WalkState {
    WalkState {
        queue: strings_view(queue),
        head,
        visited,
        names: strings_view(names),
        roots: strings_view(roots),
        editions: editions_view(editions),
        deps: pairs_view(deps),
    }
}

proof fn lemma_name_index(names: Seq<Seq<char>>, n: Seq<char>)
    ensures
        -1 <= name_index(names, n) < names.len(),
        name_index(names, n) >= 0 ==> names[name_index(names, n)] == n,
        name_index(names, n) < 0 <==> !names.contains(n),
    decreases names.len(),
{
    if names.len() > 0 {
        lemma_name_index(names.drop_last(), n);
        if names.last() != n {
            if names.contains(n) {
                let i = choose|i: int| 0 <= i < names.len() && names[i] == n;
                assert(names.drop_last()[i] == n);
            }
        }
    }
}

pub(crate) fn copy_str(s: &str) -> (c: String)
    ensures
        c@ == s@,
{
    let v = chars_of(s);
    string_from_chars(&v)
}

fn copy_opt_string(s: &Option<String>) -> (c: Option<String>)
    ensures
        opt_view(c) == opt_view(*s),
{
    match s {
        Some(x) => Some(copy_str(x.as_str())),
        None => None,
    }
}

fn find_name(names: &Vec<String>, n: &str) -> (r: Option<usize>)
    ensures
        match r {
            Some(i) => i == name_index(strings_view(names@), n@),
            None => name_index(strings_view(names@), n@) == -1,
        },
{
    let mut found: Option<usize> = None;
    let mut i: usize = 0;
    while i < names.len()
        invariant
            i <= names@.len(),
            match found {
                Some(j) => j == name_index(strings_view(names@).take(i as int), n@),
                None => name_index(strings_view(names@).take(i as int), n@) == -1,
            },
        decreases names@.len() - i,
    {
        assert(strings_view(names@).take(i + 1).drop_last() =~= strings_view(names@).take(i as int));
        if str_eq(names[i].as_str(), n) {
            found = Some(i);
        }
        i = i + 1;
    }
    assert(strings_view(names@).take(i as int) =~= strings_view(names@));
    found
}

/// Walks a unit's component graph from the root ids: the crates found with
/// their source roots and editions, and the dependency pairs.
fn walk_components(
    ps: &Vec<ScarbMetadataPackage>,
    cs: &Vec<ScarbMetadataComponent>,
    srcs: &Vec<ComponentSourceRoot>,
    root_ids: Vec<String>,
) -> (r: (Vec<String>, Vec<String>, Vec<Option<Option<String>>>, Vec<(String, String)>))
    requires
        srcs@.len() == cs@.len(),
    ensures
        ({
            let w = walk_from(ps@, cs@, srcs@, strings_view(root_ids@));
            &&& strings_view(r.0@) == w.names
            &&& strings_view(r.1@) == w.roots
            &&& editions_view(r.2@) == w.editions
            &&& pairs_view(r.3@) == w.deps
            &&& r.0@.len() == r.1@.len()
            &&& r.0@.len() == r.2@.len()
        }),
{
    let ghost init = WalkState {
        queue: strings_view(root_ids@),
        head: 0,
        visited: Set::empty(),
        names: Seq::empty(),
        roots: Seq::empty(),
        editions: Seq::empty(),
        deps: Set::empty(),
    };
    let ghost result = walk_run(ps@, cs@, srcs@, init, walk_measure(cs@, init));
    let mut queue = root_ids;
    let mut head: usize = 0;
    let mut visited = StringSet::new();
    let mut names: Vec<String> = Vec::new();
    let mut roots: Vec<String> = Vec::new();
    let mut editions: Vec<Option<Option<String>>> = Vec::new();
    let mut deps: Vec<(String, String)> = Vec::new();
    proof {
        assert(strings_view(names@) =~= Seq::<Seq<char>>::empty());
        assert(strings_view(roots@) =~= Seq::<Seq<char>>::empty());
        assert(editions_view(editions@) =~= Seq::<Option<Option<Seq<char>>>>::empty());
        assert(pairs_view(deps@) =~= Set::<(Seq<char>, Seq<char>)>::empty());
        assert(walk_state_of(queue@, 0, visited@, names@, roots@, editions@, deps@) == init);
    }
    while head < queue.len()
        invariant
            srcs@.len() == cs@.len(),
            head <= queue@.len(),
            names@.len() == roots@.len(),
            names@.len() == editions@.len(),
            result == walk_run(ps@, cs@, srcs@, init, walk_measure(cs@, init)),
            walk_run(
                ps@,
                cs@,
                srcs@,
                walk_state_of(queue@, head as nat, visited@, names@, roots@, editions@, deps@),
                walk_measure(
                    cs@,
                    walk_state_of(queue@, head as nat, visited@, names@, roots@, editions@, deps@),
                ),
            ) == result,
        decreases walk_measure(
            cs@,
            walk_state_of(queue@, head as nat, visited@, names@, roots@, editions@, deps@),
        ),
    {
        let ghost s = walk_state_of(queue@, head as nat, visited@, names@, roots@, editions@, deps@);
        let ghost t = walk_step(ps@, cs@, srcs@, s);
        proof {
            lemma_walk_step_measure(ps@, cs@, srcs@, s);
            lemma_walk_run_fuel(ps@, cs@, srcs@, t, (walk_measure(cs@, s) - 1) as nat);
            assert(walk_run(ps@, cs@, srcs@, t, walk_measure(cs@, t)) == result);
        }
        let id = copy_str(queue[head].as_str());
        assert(id@ == s.queue[head as int]);
        head = head + 1;
        if visited.contains(id.as_str()) {
            assert(walk_state_of(queue@, head as nat, visited@, names@, roots@, editions@, deps@) == t);
            continue;
        }
        let ghost id_view = id@;
        visited.insert(copy_str(id.as_str()));
        proof {
            lemma_last_component_index(cs@, id_view);
        }
        let ci = match find_last_component(cs, id.as_str()) {
            Some(ci) => ci,
            None => {
                assert(walk_state_of(queue@, head as nat, visited@, names@, roots@, editions@, deps@) == t);
                continue;
            },
        };
        if !srcs[ci].has_lib_cairo {
            assert(walk_state_of(queue@, head as nat, visited@, names@, roots@, editions@, deps@) == t);
            continue;
        }
        let name = normalize_package_name_for_cairo_crate(cs[ci].name.as_str());
        if str_eq(name.as_str(), "core") {
            assert(walk_state_of(queue@, head as nat, visited@, names@, roots@, editions@, deps@) == t);
            continue;
        }
        let ghost c = cs@[ci as int];
        let ghost old_names = names@;
        let ghost old_roots = roots@;
        let ghost old_editions = editions@;
        proof {
            lemma_last_package_index(ps@, c.id@);
            lemma_name_index(strings_view(names@), name@);
        }
        let edition: Option<Option<String>> = match find_last_package(ps, cs[ci].id.as_str()) {
            Some(pk) => Some(copy_opt_string(&ps[pk].edition)),
            None => None,
        };
        match find_name(&names, name.as_str()) {
            None => {
                names.push(copy_str(name.as_str()));
                roots.push(copy_str(srcs[ci].source_root.as_str()));
                editions.push(edition);
                proof {
                    assert(strings_view(names@) =~= strings_view(old_names).push(name@));
                    assert(strings_view(roots@) =~= strings_view(old_roots).push(
                        srcs@[ci as int].source_root@,
                    ));
                    assert(editions_view(editions@) =~= editions_view(old_editions).push(
                        edition_slot_view(edition),
                    ));
                }
            },
            Some(k) => {
                if editions[k].is_none() {
                    editions.set(k, edition);
                    proof {
                        assert(editions_view(editions@) =~= editions_view(old_editions).update(
                            k as int,
                            edition_slot_view(edition),
                        ));
                    }
                }
            },
        }
        let ghost q0 = queue@;
        let ghost d0 = deps@;
        let mut j: usize = 0;
        while j < cs[ci].dependencies.len()
            invariant
                ci < cs@.len(),
                c == cs@[ci as int],
                j <= c.dependencies@.len(),
                strings_view(queue@) == strings_view(q0) + dependency_ids(c).take(j as int),
                pairs_view(deps@) == pairs_view(d0).union(
                    Set::new(
                        |p: (Seq<char>, Seq<char>)|
                            p.0 == name@ && exists|jj: int|
                                0 <= jj < j && #[trigger] dependency_crate(
                                    cs@,
                                    c.dependencies@[jj]@,
                                ) == Some(p.1),
                    ),
                ),
            decreases c.dependencies@.len() - j,
        {
            let ghost before_q = queue@;
            let ghost before_d = deps@;
            let d = &cs[ci].dependencies[j];
            queue.push(copy_str(d.as_str()));
            proof {
                assert(strings_view(queue@) =~= strings_view(before_q).push(d@));
                assert(dependency_ids(c).take(j + 1) =~= dependency_ids(c).take(j as int).push(d@));
                lemma_last_component_index(cs@, d@);
            }
            match find_last_component(cs, d.as_str()) {
                Some(dk) => {
                    let dn = normalize_package_name_for_cairo_crate(cs[dk].name.as_str());
                    if !str_eq(dn.as_str(), "core") {
                        let ghost dnv = dn@;
                        deps.push((copy_str(name.as_str()), dn));
                        proof {
                            assert(dependency_crate(cs@, c.dependencies@[j as int]@) == Some(dnv));
                            assert forall|p: (Seq<char>, Seq<char>)| #[trigger] pairs_view(
                                deps@,
                            ).contains(p) == pairs_view(before_d).insert((name@, dnv)).contains(
                                p,
                            ) by {
                                if pairs_view(before_d).contains(p) {
                                    let i = choose|i: int|
                                        0 <= i < before_d.len() && (#[trigger] before_d[i]).0@
                                            == p.0 && before_d[i].1@ == p.1;
                                    assert(deps@[i] == before_d[i]);
                                }
                                if p == (name@, dnv) {
                                    assert(deps@[before_d.len() as int].0@ == p.0);
                                }
                                if pairs_view(deps@).contains(p) {
                                    let i = choose|i: int|
                                        0 <= i < deps@.len() && (#[trigger] deps@[i]).0@ == p.0
                                            && deps@[i].1@ == p.1;
                                    if i < before_d.len() {
                                        assert(before_d[i] == deps@[i]);
                                    }
                                }
                            }
                            assert(pairs_view(deps@) =~= pairs_view(before_d).insert((name@, dnv)));
                        }
                    } else {
                        assert(dependency_crate(cs@, c.dependencies@[j as int]@) is None);
                    }
                },
                None => {
                    assert(dependency_crate(cs@, c.dependencies@[j as int]@) is None);
                },
            }
            proof {
                assert(pairs_view(deps@) =~= pairs_view(d0).union(
                    Set::new(
                        |p: (Seq<char>, Seq<char>)|
                            p.0 == name@ && exists|jj: int|
                                0 <= jj < j + 1 && #[trigger] dependency_crate(
                                    cs@,
                                    c.dependencies@[jj]@,
                                ) == Some(p.1),
                    ),
                ));
            }
            j = j + 1;
        }
        proof {
            assert(dependency_ids(c).take(j as int) =~= dependency_ids(c));
            assert(pairs_view(deps@) =~= pairs_view(d0).union(component_dep_pairs(cs@, c, name@)));
            assert(strings_view(queue@) =~= s.queue + dependency_ids(c));
        }
        assert(walk_state_of(queue@, head as nat, visited@, names@, roots@, editions@, deps@) == t);
    }
    (names, roots, editions, deps)
}


/// A path dependency of the root crate: a crate and where its sources are.
#[derive(Debug, Clone)]
pub struct PathDependencyRoot {
    pub crate_name: String,
    pub source_root: String,
}

/// How a crate is compiled: its edition and the crates it depends on.
#[derive(Debug, Clone)]
pub struct CrateDependencyConfig {
    pub crate_name: String,
    pub cairo_edition: Option<String>,
    pub dependencies: Vec<String>,
}

/// The crates that a native compile of the root package needs.
#[derive(Debug, Clone)]
pub struct DependencySurface {
    pub external_non_starknet_dependencies: Vec<String>,
    pub path_dependency_roots: Vec<PathDependencyRoot>,
    pub crate_dependency_configs: Vec<CrateDependencyConfig>,
}

/// The ids of a unit's root components, in order.
pub open spec fn root_ids_of(
    ps: Seq<ScarbMetadataPackage>,
    unit_package: Seq<char>,
    cs: Seq<ScarbMetadataComponent>,
    root_manifest_key: Seq<char>,
    root_crate: Seq<char>,
) -> Seq<Seq<char>>
    decreases cs.len(),
{
    if cs.len() == 0 {
        Seq::empty()
    } else {
        let r = root_ids_of(ps, unit_package, cs.drop_last(), root_manifest_key, root_crate);
        if is_root_component(ps, unit_package, cs.last(), root_manifest_key, root_crate) {
            r.push(cs.last().id@)
        } else {
            r
        }
    }
}

/// The edition recorded for crate `n`.
pub open spec fn crate_edition(w: WalkState, n: Seq<char>) -> Option<Seq<char>> {
    match w.editions[name_index(w.names, n)] {
        Some(e) => e,
        None => None,
    }
}

/// The crates found by the walk that crate `n` depends on.
pub open spec fn crate_dependencies(w: WalkState, n: Seq<char>) -> Set<Seq<char>> {
    Set::new(|d: Seq<char>| w.deps.contains((n, d)) && w.names.contains(d))
}

/// The path dependency roots, for the crates of `order` other than the root.
pub open spec fn path_roots_in(w: WalkState, root_crate: Seq<char>, order: Seq<Seq<char>>) -> Seq<
    (Seq<char>, Seq<char>),
>
    decreases order.len(),
{
    if order.len() == 0 {
        Seq::empty()
    } else {
        let r = path_roots_in(w, root_crate, order.drop_last());
        let n = order.last();
        if n == root_crate {
            r
        } else {
            r.push((n, w.roots[name_index(w.names, n)]))
        }
    }
}

/// The compile configurations of the crates of `order`: name, edition and
/// sorted dependencies.
pub open spec fn configs_in(w: WalkState, order: Seq<Seq<char>>) -> Seq<
    (Seq<char>, Option<Seq<char>>, Seq<Seq<char>>),
> {
    order.map_values(
        |n: Seq<char>| (n, crate_edition(w, n), sorted_distinct(crate_dependencies(w, n))),
    )
}

/// The native dependency surface read from a unit: none when the unit has
/// no root component or the walk from the root components never reaches
/// the root crate; otherwise, over the crates found in sorted order, the
/// path dependency roots (all but the root crate) and every crate's
/// configuration.
pub open spec fn dependency_surface(
    ps: Seq<ScarbMetadataPackage>,
    unit: ScarbCompilationUnit,
    srcs: Seq<ComponentSourceRoot>,
    root_manifest_key: Seq<char>,
    root_crate: Seq<char>,
) -> Option<(Seq<(Seq<char>, Seq<char>)>, Seq<(Seq<char>, Option<Seq<char>>, Seq<Seq<char>>)>)> {
    let ids = root_ids_of(ps, unit.package@, unit.components@, root_manifest_key, root_crate);
    if ids.len() == 0 {
        None
    } else {
        let w = walk_from(ps, unit.components@, srcs, ids);
        if !w.names.contains(root_crate) {
            None
        } else {
            let order = sorted_distinct(w.names.to_set());
            Some((path_roots_in(w, root_crate, order), configs_in(w, order)))
        }
    }
}

pub open spec fn path_roots_view(v: Seq<PathDependencyRoot>) -> Seq<(Seq<char>, Seq<char>)> {
    v.map_values(|r: PathDependencyRoot| (r.crate_name@, r.source_root@))
}

pub open spec fn configs_view(v: Seq<CrateDependencyConfig>) -> Seq<
    (Seq<char>, Option<Seq<char>>, Seq<Seq<char>>),
> {
    v.map_values(
        |c: CrateDependencyConfig|
            (c.crate_name@, opt_view(c.cairo_edition), strings_view(c.dependencies@)),
    )
}

pub open spec fn chars_views(v: Seq<Vec<char>>) -> Seq<Seq<char>> {
    v.map_values(|x: Vec<char>| x@)
}

/// The distinct strings of `items`, sorted.
pub(crate) fn sorted_strings(items: &Vec<Vec<char>>) -> (r: Vec<String>)
    ensures
        strings_view(r@) == sorted_distinct(chars_views(items@).to_set()),
        strictly_sorted(strings_view(r@)),
        strings_view(r@).to_set() == chars_views(items@).to_set(),
{
    let order = sorted_distinct_indices(items);
    let ghost sorted = order@.map_values(|i: usize| items@[i as int]@);
    let mut out: Vec<String> = Vec::new();
    let mut m: usize = 0;
    while m < order.len()
        invariant
            m <= order@.len(),
            forall|k: int| 0 <= k < order@.len() ==> #[trigger] order@[k] < items@.len(),
            sorted == order@.map_values(|i: usize| items@[i as int]@),
            strings_view(out@) == sorted.take(m as int),
        decreases order@.len() - m,
    {
        let ghost before = out@;
        out.push(string_from_chars(&items[order[m]]));
        assert(sorted[m as int] == items@[order@[m as int] as int]@);
        assert(strings_view(out@) =~= strings_view(before).push(sorted[m as int]));
        assert(strings_view(out@) =~= sorted.take(m + 1));
        m = m + 1;
    }
    proof {
        assert(sorted.take(m as int) =~= sorted);
        assert(chars_views(items@) =~= items@.map_values(|v: Vec<char>| v@));
        lemma_sorted_distinct_of(sorted);
    }
    out
}

fn root_component_ids(
    ps: &Vec<ScarbMetadataPackage>,
    unit: &ScarbCompilationUnit,
    root_manifest_key: &str,
    root_crate: &str,
) -> (r: Vec<String>)
    ensures
        strings_view(r@) == root_ids_of(
            ps@,
            unit.package@,
            unit.components@,
            root_manifest_key@,
            root_crate@,
        ),
{
    let mut ids: Vec<String> = Vec::new();
    let mut i: usize = 0;
    while i < unit.components.len()
        invariant
            i <= unit.components@.len(),
            strings_view(ids@) == root_ids_of(
                ps@,
                unit.package@,
                unit.components@.take(i as int),
                root_manifest_key@,
                root_crate@,
            ),
        decreases unit.components@.len() - i,
    {
        let ghost before = ids@;
        assert(unit.components@.take(i + 1).drop_last() =~= unit.components@.take(i as int));
        if component_is_root(
            ps,
            unit.package.as_str(),
            &unit.components[i],
            root_manifest_key,
            root_crate,
        ) {
            ids.push(copy_str(unit.components[i].id.as_str()));
            assert(strings_view(ids@) =~= strings_view(before).push(unit.components@[i as int].id@));
        }
        i = i + 1;
    }
    assert(unit.components@.take(i as int) =~= unit.components@);
    ids
}

/// The crates of `names` that `n` is paired with among the first `i` pairs
/// of `deps`.
pub open spec fn dep_candidates(
    deps: Seq<(String, String)>,
    names: Seq<String>,
    n: Seq<char>,
    i: int,
) -> Set<Seq<char>> {
    Set::new(
        |d: Seq<char>|
            (exists|ii: int| 0 <= ii < i && (#[trigger] deps[ii]).0@ == n && deps[ii].1@ == d)
                && strings_view(names).contains(d),
    )
}

/// The sorted distinct crates of `names` that `n` is paired with in `deps`.
fn crate_dependency_list(names: &Vec<String>, deps: &Vec<(String, String)>, n: &str) -> (r: Vec<
    String,
>)
    ensures
        strings_view(r@) == sorted_distinct(
            Set::new(
                |d: Seq<char>|
                    pairs_view(deps@).contains((n@, d)) && strings_view(names@).contains(d),
            ),
        ),
{
    let ghost target = Set::new(
        |d: Seq<char>| pairs_view(deps@).contains((n@, d)) && strings_view(names@).contains(d),
    );
    let mut cand: Vec<Vec<char>> = Vec::new();
    let mut i: usize = 0;
    while i < deps.len()
        invariant
            i <= deps@.len(),
            chars_views(cand@).to_set() == dep_candidates(deps@, names@, n@, i as int),
        decreases deps@.len() - i,
    {
        let ghost before = cand@;
        let ghost added = deps@[i as int].0@ == n@ && strings_view(names@).contains(
            deps@[i as int].1@,
        );
        if str_eq(deps[i].0.as_str(), n) {
            proof {
                lemma_name_index(strings_view(names@), deps@[i as int].1@);
            }
            if find_name(names, deps[i].1.as_str()).is_some() {
                cand.push(chars_of(deps[i].1.as_str()));
            }
        }
        proof {
            if added {
                assert(chars_views(cand@) =~= chars_views(before).push(deps@[i as int].1@));
            } else {
                assert(chars_views(cand@) =~= chars_views(before));
            }
            assert forall|d: Seq<char>| #[trigger] chars_views(cand@).to_set().contains(d)
                == dep_candidates(deps@, names@, n@, i + 1).contains(d) by {
                if added && d == deps@[i as int].1@ {
                    assert(chars_views(cand@)[before.len() as int] == d);
                    assert(dep_candidates(deps@, names@, n@, i + 1).contains(d));
                }
                if dep_candidates(deps@, names@, n@, i + 1).contains(d) {
                    let ii = choose|ii: int|
                        0 <= ii < i + 1 && (#[trigger] deps@[ii]).0@ == n@ && deps@[ii].1@ == d;
                    if ii < i {
                        assert(dep_candidates(deps@, names@, n@, i as int).contains(d));
                        let q = choose|q: int| 0 <= q < chars_views(before).len() && chars_views(before)[q] == d;
                        assert(chars_views(cand@)[q] == d);
                    }
                }
                if chars_views(cand@).to_set().contains(d) {
                    let q = choose|q: int| 0 <= q < chars_views(cand@).len() && chars_views(cand@)[q] == d;
                    if q < before.len() {
                        assert(chars_views(before)[q] == d);
                        assert(chars_views(before).to_set().contains(d));
                    }
                }
            }
            assert(chars_views(cand@).to_set() =~= dep_candidates(deps@, names@, n@, i + 1));
        }
        i = i + 1;
    }
    assert(chars_views(cand@).to_set() =~= target);
    sorted_strings(&cand)
}

/// Reads the native dependency surface of the root package (named
/// `root_package_name`, with manifest `manifest_path`) from the compilation
/// unit at `unit_index`, walking its component graph from the root
/// components; `sources[i]` is where the unit's `i`-th component keeps its
/// sources. None when the walk finds no root crate.
pub fn native_dependency_surface_from_unit(
    doc: &ScarbMetadataDocument,
    unit_index: usize,
    manifest_path: &str,
    root_package_name: &str,
    sources: &Vec<ComponentSourceRoot>,
) -> (r: Option<DependencySurface>)
    requires
        unit_index < doc.compilation_units@.len(),
        sources@.len() == doc.compilation_units@[unit_index as int].components@.len(),
    ensures
        match dependency_surface(
            doc.packages@,
            doc.compilation_units@[unit_index as int],
            sources@,
            normalized_path(manifest_path@),
            cairo_crate_key(root_package_name@),
        ) {
            None => r is None,
            Some((roots, configs)) => r is Some && r->0.external_non_starknet_dependencies@.len()
                == 0 && path_roots_view(r->0.path_dependency_roots@) == roots && configs_view(
                r->0.crate_dependency_configs@,
            ) == configs,
        },
{
    let unit = &doc.compilation_units[unit_index];
    let key = normalize_fingerprint_path(manifest_path);
    let root_crate = normalize_package_name_for_cairo_crate(root_package_name);
    let ids = root_component_ids(&doc.packages, unit, key.as_str(), root_crate.as_str());
    if ids.len() == 0 {
        return None;
    }
    let ghost w = walk_from(doc.packages@, unit.components@, sources@, strings_view(ids@));
    let (names, roots, editions, deps) = walk_components(
        &doc.packages,
        &unit.components,
        sources,
        ids,
    );
    proof {
        lemma_name_index(w.names, root_crate@);
    }
    if find_name(&names, root_crate.as_str()).is_none() {
        return None;
    }
    let mut name_chars: Vec<Vec<char>> = Vec::new();
    let mut i: usize = 0;
    while i < names.len()
        invariant
            i <= names@.len(),
            chars_views(name_chars@) == strings_view(names@).take(i as int),
        decreases names@.len() - i,
    {
        let ghost before = name_chars@;
        name_chars.push(chars_of(names[i].as_str()));
        assert(chars_views(name_chars@) =~= chars_views(before).push(names@[i as int]@));
        assert(chars_views(name_chars@) =~= strings_view(names@).take(i + 1));
        i = i + 1;
    }
    assert(strings_view(names@).take(i as int) =~= w.names);
    let order = sorted_strings(&name_chars);
    let ghost ord = sorted_distinct(w.names.to_set());
    assert(strings_view(order@) == ord);
    let mut path_roots: Vec<PathDependencyRoot> = Vec::new();
    let mut configs: Vec<CrateDependencyConfig> = Vec::new();
    let mut m: usize = 0;
    while m < order.len()
        invariant
            m <= order@.len(),
            strings_view(order@) == ord,
            strings_view(names@) == w.names,
            strings_view(roots@) == w.roots,
            editions_view(editions@) == w.editions,
            pairs_view(deps@) == w.deps,
            names@.len() == roots@.len(),
            names@.len() == editions@.len(),
            ord.to_set() == w.names.to_set(),
            path_roots_view(path_roots@) == path_roots_in(w, root_crate@, ord.take(m as int)),
            configs_view(configs@) == configs_in(w, ord.take(m as int)),
        decreases order@.len() - m,
    {
        let n = &order[m];
        let ghost nv = n@;
        assert(ord[m as int] == nv);
        assert(ord.to_set().contains(nv));
        proof {
            lemma_name_index(w.names, nv);
        }
        let k = match find_name(&names, n.as_str()) {
            Some(k) => k,
            None => {
                assert(false);
                return None;
            },
        };
        assert(ord.take(m + 1).drop_last() =~= ord.take(m as int));
        let ghost before_roots = path_roots@;
        let ghost before_configs = configs@;
        if !str_eq(n.as_str(), root_crate.as_str()) {
            path_roots.push(
                PathDependencyRoot {
                    crate_name: copy_str(n.as_str()),
                    source_root: copy_str(roots[k].as_str()),
                },
            );
            assert(path_roots_view(path_roots@) =~= path_roots_view(before_roots).push(
                (nv, w.roots[name_index(w.names, nv)]),
            ));
        }
        let edition = match &editions[k] {
            Some(e) => copy_opt_string(e),
            None => None,
        };
        assert(opt_view(edition) == crate_edition(w, nv));
        let dependencies = crate_dependency_list(&names, &deps, n.as_str());
        assert(Set::new(
            |d: Seq<char>| pairs_view(deps@).contains((nv, d)) && strings_view(names@).contains(d),
        ) =~= crate_dependencies(w, nv));
        let ghost dv = strings_view(dependencies@);
        assert(dv == sorted_distinct(crate_dependencies(w, nv)));
        configs.push(
            CrateDependencyConfig { crate_name: copy_str(n.as_str()), cairo_edition: edition, dependencies },
        );
        assert(configs_view(configs@) =~= configs_view(before_configs).push(
            (nv, crate_edition(w, nv), sorted_distinct(crate_dependencies(w, nv))),
        ));
        assert(ord.take(m + 1)[m as int] == nv);
        assert(configs_view(configs@) =~= configs_in(w, ord.take(m + 1)));
        m = m + 1;
    }
    assert(ord.take(m as int) =~= ord);
    Some(
        DependencySurface {
            external_non_starknet_dependencies: Vec::new(),
            path_dependency_roots: path_roots,
            crate_dependency_configs: configs,
        },
    )
}

} // verus!
