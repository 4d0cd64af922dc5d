use vstd::prelude::*;
use crate::deproots::{path_within, path_within_exec};
use crate::manifest::{dependency_path, get, lookup, native_dependency_path_from_value, node_get, table_get, TomlNode};
use crate::native::{cairo_crate_key, normalize_package_name_for_cairo_crate};
use crate::path_parts::{dependency_manifest_path, join_path, joined_path, native_dependency_manifest_path};
use crate::paths::{normalize_fingerprint_path, normalized_path};
use crate::string_set::StringSet;
use crate::strorder::{sorted_distinct, str_lt, str_lt_exec};
use crate::surface::{copy_str, path_roots_view, strings_view, CrateDependencyConfig, DependencySurface, PathDependencyRoot};
use crate::fingerprint::opt_view;
use crate::text::{chars_of, push_str, str_eq};

verus! {

/// What the file system says of a candidate dependency root (`candidate`,
/// the dependency's path joined onto its base directory): its canonical
/// form when it resolves, whether `src/lib.cairo` under the (canonical,
/// else candidate) root is a file, and the canonical `src` directory when
/// it resolves.
#[derive(Debug)]
pub struct DependencyRootProbe {
    pub candidate: String,
    pub canonical_root: Option<String>,
    pub has_lib: bool,
    pub canonical_source_root: Option<String>,
}

/// Where a manifest's dependencies are read: the label prefix for
/// external dependencies, the manifest, the workspace manifest that
/// `workspace = true` entries fall back to, the manifest's directory and
/// the workspace root.
pub struct DependencyCollectionContext<'a> {
    pub dependency_label_prefix: &'a str,
    pub manifest: &'a TomlNode,
    pub workspace_manifest_fallback: Option<&'a TomlNode>,
    pub manifest_dir: &'a str,
    pub workspace_root: &'a str,
}

pub open spec fn fallback_of(ctx: DependencyCollectionContext) -> Option<TomlNode> {
    match ctx.workspace_manifest_fallback {
        Some(f) => Some(*f),
        None => None,
    }
}

/// The first probe of a candidate root, if any.
pub open spec fn probe_for(probes: Seq<DependencyRootProbe>, candidate: Seq<char>) -> Option<DependencyRootProbe>
    decreases probes.len(),
{
    if probes.len() == 0 {
        None
    } else if probes[0].candidate@ == candidate {
        Some(probes[0])
    } else {
        probe_for(probes.drop_first(), candidate)
    }
}

/// The candidate root of a dependency with a local path, if it has one:
/// the path joined onto the workspace root for `workspace = true` entries,
/// else onto the manifest's directory.
pub open spec fn candidate_root(ctx: DependencyCollectionContext, name: Seq<char>, value: TomlNode) -> Option<
    Seq<char>,
> {
    match dependency_path(*ctx.manifest, fallback_of(ctx), name, value) {
        Some((raw, workspace_relative)) => Some(
            joined_path(
                if workspace_relative {
                    ctx.workspace_root@
                } else {
                    ctx.manifest_dir@
                },
                raw,
            ),
        ),
        None => None,
    }
}

/// The crate and source root a dependency entry contributes, or `None`
/// when it is external: it has no local path, its probe is missing, its
/// root (canonical when it resolves) leaves the workspace, it has no
/// `src/lib.cairo`, or its `src` directory does not resolve.
pub open spec fn entry_accept(
    ctx: DependencyCollectionContext,
    probes: Seq<DependencyRootProbe>,
    name: Seq<char>,
    value: TomlNode,
) -> Option<(Seq<char>, Seq<char>)> {
    match candidate_root(ctx, name, value) {
        None => None,
        Some(c) => match probe_for(probes, c) {
            None => None,
            Some(p) => {
                let root = match p.canonical_root {
                    Some(r) => r@,
                    None => c,
                };
                if !path_within(root, ctx.workspace_root@) || !p.has_lib {
                    None
                } else {
                    match p.canonical_source_root {
                        Some(s) => Some((cairo_crate_key(name), s@)),
                        None => None,
                    }
                }
            },
        }
    }
}

/// The root recorded for a crate, if any.
pub open spec fn root_lookup(v: Seq<(Seq<char>, Seq<char>)>, key: Seq<char>) -> Option<Seq<char>>
    decreases v.len(),
{
    if v.len() == 0 {
        None
    } else {
        match root_lookup(v.drop_last(), key) {
            Some(r) => Some(r),
            None => if v.last().0 == key {
                Some(v.last().1)
            } else {
                None
            },
        }
    }
}

pub open spec fn roots_below(v: Seq<(Seq<char>, Seq<char>)>, key: Seq<char>) -> Seq<(Seq<char>, Seq<char>)>
    decreases v.len(),
{
    if v.len() == 0 {
        Seq::empty()
    } else if str_lt(v.last().0, key) {
        roots_below(v.drop_last(), key).push(v.last())
    } else {
        roots_below(v.drop_last(), key)
    }
}

pub open spec fn roots_above(v: Seq<(Seq<char>, Seq<char>)>, key: Seq<char>) -> Seq<(Seq<char>, Seq<char>)>
    decreases v.len(),
{
    if v.len() == 0 {
        Seq::empty()
    } else if str_lt(key, v.last().0) {
        roots_above(v.drop_last(), key).push(v.last())
    } else {
        roots_above(v.drop_last(), key)
    }
}

/// The roots with `key` set to `root`, in crate order.
pub open spec fn roots_with(v: Seq<(Seq<char>, Seq<char>)>, key: Seq<char>, root: Seq<char>) -> Seq<
    (Seq<char>, Seq<char>),
> {
    roots_below(v, key) + seq![(key, root)] + roots_above(v, key)
}

pub open spec fn pairs_view(v: Seq<(String, String)>) -> Seq<(Seq<char>, Seq<char>)> {
    v.map_values(|p: (String, String)| (p.0@, p.1@))
}

/// One dependency entry of a table taken into the surface collected so
/// far (external labels, crate roots): `starknet` is skipped; an external
/// entry adds its label; an accepted one records its crate's root, unless
/// the crate already has another root, which makes it external.
pub open spec fn table_step(
    ctx: DependencyCollectionContext,
    probes: Seq<DependencyRootProbe>,
    section_label: Seq<char>,
    st: (Set<Seq<char>>, Seq<(Seq<char>, Seq<char>)>),
    name: Seq<char>,
    value: TomlNode,
) -> (Set<Seq<char>>, Seq<(Seq<char>, Seq<char>)>) {
    if name == "starknet"@ {
        st
    } else {
        let label = ctx.dependency_label_prefix@ + section_label + "."@ + name;
        match entry_accept(ctx, probes, name, value) {
            None => (st.0.insert(label), st.1),
            Some((c, root)) => match root_lookup(st.1, c) {
                None => (st.0, roots_with(st.1, c, root)),
                Some(existing) => if existing == root {
                    st
                } else {
                    (st.0.insert(label), st.1)
                },
            },
        }
    }
}

/// A dependency table's entries taken in order.
pub open spec fn table_fold(
    ctx: DependencyCollectionContext,
    probes: Seq<DependencyRootProbe>,
    section_label: Seq<char>,
    st: (Set<Seq<char>>, Seq<(Seq<char>, Seq<char>)>),
    entries: Seq<(String, TomlNode)>,
) -> (Set<Seq<char>>, Seq<(Seq<char>, Seq<char>)>)
    decreases entries.len(),
{
    if entries.len() == 0 {
        st
    } else {
        table_step(
            ctx,
            probes,
            section_label,
            table_fold(ctx, probes, section_label, st, entries.drop_last()),
            entries.last().0@,
            entries.last().1,
        )
    }
}

/// The `dependencies` tables of the targets taken in order, each labelled
/// `[target.<name>.dependencies]`.
pub open spec fn targets_fold(
    ctx: DependencyCollectionContext,
    probes: Seq<DependencyRootProbe>,
    st: (Set<Seq<char>>, Seq<(Seq<char>, Seq<char>)>),
    targets: Seq<(String, TomlNode)>,
) -> (Set<Seq<char>>, Seq<(Seq<char>, Seq<char>)>)
    decreases targets.len(),
{
    if targets.len() == 0 {
        st
    } else {
        let prev = targets_fold(ctx, probes, st, targets.drop_last());
        match node_get(targets.last().1, "dependencies"@) {
            Some(TomlNode::Table(t)) => table_fold(
                ctx,
                probes,
                "[target."@ + targets.last().0@ + ".dependencies]"@,
                prev,
                t@,
            ),
            _ => prev,
        }
    }
}

/// A manifest's dependency surface: its `[dependencies]`, then its
/// targets' dependency tables.
pub open spec fn manifest_surface(ctx: DependencyCollectionContext, probes: Seq<DependencyRootProbe>) -> (
    Set<Seq<char>>,
    Seq<(Seq<char>, Seq<char>)>,
) {
    let st0 = (Set::<Seq<char>>::empty(), Seq::<(Seq<char>, Seq<char>)>::empty());
    let st1 = match node_get(*ctx.manifest, "dependencies"@) {
        Some(TomlNode::Table(t)) => table_fold(ctx, probes, "[dependencies]"@, st0, t@),
        _ => st0,
    };
    match node_get(*ctx.manifest, "target"@) {
        Some(TomlNode::Table(tt)) => targets_fold(ctx, probes, st1, tt@),
        _ => st1,
    }
}

fn find_probe<'a>(probes: &'a Vec<DependencyRootProbe>, candidate: &str) -> (r: Option<&'a DependencyRootProbe>)
    ensures
        match r {
            Some(p) => probe_for(probes@, candidate@) == Some(*p),
            None => probe_for(probes@, candidate@) is None,
        },
{
    let mut i: usize = 0;
    assert(probes@.skip(0) =~= probes@);
    while i < probes.len()
        invariant
            i <= probes@.len(),
            probe_for(probes@, candidate@) == probe_for(probes@.skip(i as int), candidate@),
        decreases probes@.len() - i,
    {
        assert(probes@.skip(i as int)[0] == probes@[i as int]);
        assert(probes@.skip(i as int).drop_first() =~= probes@.skip(i + 1));
        if str_eq(probes[i].candidate.as_str(), candidate) {
            return Some(&probes[i]);
        }
        i = i + 1;
    }
    assert(probes@.skip(i as int) =~= Seq::<DependencyRootProbe>::empty());
    None
}

fn root_lookup_exec(v: &Vec<(String, String)>, key: &str) -> (r: Option<usize>)
    ensures
        match r {
            Some(i) => i < v@.len() && root_lookup(pairs_view(v@), key@) == Some(v@[i as int].1@),
            None => root_lookup(pairs_view(v@), key@) is None,
        },
{
    let ghost pv = pairs_view(v@);
    let mut i: usize = 0;
    while i < v.len()
        invariant
            i <= v@.len(),
            pv == pairs_view(v@),
            root_lookup(pv.take(i as int), key@) is None,
        decreases v@.len() - i,
    {
        assert(pv.take(i + 1).drop_last() =~= pv.take(i as int));
        if str_eq(v[i].0.as_str(), key) {
            proof {
                lemma_root_lookup_prefix(pv, key@, i + 1);
            }
            return Some(i);
        }
        i = i + 1;
    }
    assert(pv.take(i as int) =~= pv);
    None
}

proof fn lemma_root_lookup_prefix(v: Seq<(Seq<char>, Seq<char>)>, key: Seq<char>, i: int)
    requires
        0 <= i <= v.len(),
        root_lookup(v.take(i), key) is Some,
    ensures
        root_lookup(v, key) == root_lookup(v.take(i), key),
    decreases v.len(),
{
    if i < v.len() {
        assert(v.drop_last().take(i) =~= v.take(i));
        lemma_root_lookup_prefix(v.drop_last(), key, i);
    } else {
        assert(v.take(i) =~= v);
    }
}

fn roots_insert(v: &mut Vec<(String, String)>, key: String, root: String)
    ensures
        pairs_view(final(v)@) == roots_with(pairs_view(old(v)@), key@, root@),
{
    let kc = chars_of(key.as_str());
    let mut rest: Vec<(String, String)> = Vec::new();
    std::mem::swap(&mut rest, v);
    let ghost start = pairs_view(rest@);
    let mut below: Vec<(String, String)> = Vec::new();
    let mut above: Vec<(String, String)> = Vec::new();
    let ghost mut i: int = 0;
    while rest.len() > 0
        invariant
            0 <= i <= start.len(),
            kc@ == key@,
            pairs_view(rest@) == start.skip(i),
            pairs_view(below@) == roots_below(start.take(i), key@),
            pairs_view(above@) == roots_above(start.take(i), key@),
        decreases rest@.len(),
    {
        let ghost rv = rest@;
        let x = rest.remove(0);
        proof {
            assert(pairs_view(rv) == start.skip(i));
            assert(pairs_view(rv).len() == rv.len());
            assert(i < start.len());
            assert(pairs_view(rv)[0] == (x.0@, x.1@));
            assert(start.skip(i)[0] == start[i]);
            assert((x.0@, x.1@) == start[i]);
            assert(start.take(i + 1).drop_last() =~= start.take(i));
            assert(start.take(i + 1).last() == start[i]);
            assert(rest@ =~= rv.subrange(1, rv.len() as int));
            assert forall|j: int| 0 <= j < rest@.len() implies pairs_view(rest@)[j] == start.skip(i + 1)[j] by {
                assert(rest@[j] == rv[j + 1]);
                assert(pairs_view(rv)[j + 1] == start.skip(i)[j + 1]);
            }
            assert(pairs_view(rest@) =~= start.skip(i + 1));
            i = i + 1;
        }
        let xc = chars_of(x.0.as_str());
        let ghost b0 = below@;
        let ghost a0 = above@;
        if str_lt_exec(&xc, &kc) {
            proof {
                crate::strorder::lemma_str_lt_asymmetric(xc@, kc@);
            }
            below.push(x);
            assert(pairs_view(below@) =~= pairs_view(b0).push(start[i - 1]));
        } else if str_lt_exec(&kc, &xc) {
            above.push(x);
            assert(pairs_view(above@) =~= pairs_view(a0).push(start[i - 1]));
        }
    }
    assert(start.take(i) =~= start);
    let ghost bv = pairs_view(below@);
    let ghost av = pairs_view(above@);
    below.push((key, root));
    below.append(&mut above);
    assert(pairs_view(below@) =~= bv + seq![(key@, root@)] + av);
    *v = below;
}

fn section_label_of(target_name: &str) -> (s: String)
    ensures
        s@ == "[target."@ + target_name@ + ".dependencies]"@,
{
    let mut s = String::from_str("[target.");
    push_str(&mut s, target_name);
    push_str(&mut s, ".dependencies]");
    s
}

fn collect_table(
    ctx: &DependencyCollectionContext,
    probes: &Vec<DependencyRootProbe>,
    section_label: &str,
    table: &Vec<(String, TomlNode)>,
    external: &mut StringSet,
    roots: &mut Vec<(String, String)>,
)
    ensures
        (final(external)@, pairs_view(final(roots)@)) == table_fold(
            *ctx,
            probes@,
            section_label@,
            (old(external)@, pairs_view(old(roots)@)),
            table@,
        ),
{
    let ghost st0 = (external@, pairs_view(roots@));
    let mut i: usize = 0;
    while i < table.len()
        invariant
            i <= table@.len(),
            (external@, pairs_view(roots@)) == table_fold(
                *ctx,
                probes@,
                section_label@,
                st0,
                table@.take(i as int),
            ),
        decreases table@.len() - i,
    {
        assert(table@.take(i + 1).drop_last() =~= table@.take(i as int));
        assert(table@.take(i + 1).last() == table@[i as int]);
        let name = table[i].0.as_str();
        let value = &table[i].1;
        if !str_eq(name, "starknet") {
            let mut label = copy_str(ctx.dependency_label_prefix);
            push_str(&mut label, section_label);
            push_str(&mut label, ".");
            push_str(&mut label, name);
            let accepted = collect_entry(ctx, probes, name, value);
            match accepted {
                None => {
                    external.insert(label);
                },
                Some((c, root)) => {
                    match root_lookup_exec(roots, c.as_str()) {
                        None => {
                            roots_insert(roots, c, root);
                        },
                        Some(k) => {
                            if !str_eq(roots[k].1.as_str(), root.as_str()) {
                                external.insert(label);
                            }
                        },
                    }
                },
            }
        }
        i = i + 1;
    }
    assert(table@.take(i as int) =~= table@);
}

fn collect_entry(
    ctx: &DependencyCollectionContext,
    probes: &Vec<DependencyRootProbe>,
    name: &str,
    value: &TomlNode,
) -> (r: Option<(String, String)>)
    ensures
        match entry_accept(*ctx, probes@, name@, *value) {
            Some((c, root)) => (r matches Some((rc, rr)) && rc@ == c && rr@ == root),
            None => r is None,
        },
{
    let resolved = native_dependency_path_from_value(
        ctx.manifest,
        ctx.workspace_manifest_fallback,
        name,
        value,
    );
    let (raw, workspace_relative) = match resolved {
        None => {
            return None;
        },
        Some(x) => x,
    };
    let base = if workspace_relative {
        ctx.workspace_root
    } else {
        ctx.manifest_dir
    };
    let candidate = join_path(base, raw.as_str());
    let probe = match find_probe(probes, candidate.as_str()) {
        None => {
            return None;
        },
        Some(p) => p,
    };
    let root = match &probe.canonical_root {
        Some(r) => copy_str(r.as_str()),
        None => copy_str(candidate.as_str()),
    };
    let rc = chars_of(root.as_str());
    let wc = chars_of(ctx.workspace_root);
    if !path_within_exec(&rc, &wc) || !probe.has_lib {
        return None;
    }
    match &probe.canonical_source_root {
        Some(s) => Some((normalize_package_name_for_cairo_crate(name), copy_str(s.as_str()))),
        None => None,
    }
}

/// A manifest's dependency surface: the external dependencies' labels
/// (sorted) and the crates with local roots (in crate order), from its
/// `[dependencies]` and its targets' dependency tables; `probes` tell what
/// the file system says of each candidate root.
pub fn collect_native_manifest_dependency_surface(
    ctx: &DependencyCollectionContext,
    probes: &Vec<DependencyRootProbe>,
) -> (r: (Vec<String>, Vec<(String, String)>))
    ensures
        strings_view(r.0@) == sorted_distinct(manifest_surface(*ctx, probes@).0),
        pairs_view(r.1@) == manifest_surface(*ctx, probes@).1,
{
    let mut external = StringSet::new();
    let mut roots: Vec<(String, String)> = Vec::new();
    assert(pairs_view(roots@) =~= Seq::<(Seq<char>, Seq<char>)>::empty());
    match get(ctx.manifest, "dependencies") {
        Some(TomlNode::Table(t)) => {
            collect_table(ctx, probes, "[dependencies]", t, &mut external, &mut roots);
        },
        _ => {},
    }
    let ghost st1 = (external@, pairs_view(roots@));
    match get(ctx.manifest, "target") {
        Some(TomlNode::Table(tt)) => {
            let mut i: usize = 0;
            while i < tt.len()
                invariant
                    i <= tt@.len(),
                    (external@, pairs_view(roots@)) == targets_fold(*ctx, probes@, st1, tt@.take(i as int)),
                decreases tt@.len() - i,
            {
                assert(tt@.take(i + 1).drop_last() =~= tt@.take(i as int));
                assert(tt@.take(i + 1).last() == tt@[i as int]);
                match get(&tt[i].1, "dependencies") {
                    Some(TomlNode::Table(t)) => {
                        let label = section_label_of(tt[i].0.as_str());
                        collect_table(ctx, probes, label.as_str(), t, &mut external, &mut roots);
                    },
                    _ => {},
                }
                i = i + 1;
            }
            assert(tt@.take(i as int) =~= tt@);
        },
        _ => {},
    }
    (external.sorted_items(), roots)
}


/// Where the walk over the path dependencies' manifests stands: the
/// external dependencies' labels, the crates' roots (in crate order), each
/// crate's edition and direct path dependencies (in crate order), the
/// dependencies still to visit (first in, first out), and the manifests
/// visited (by normalised path).
pub struct NativeDependencySurfaceState {
    pub external: StringSet,
    pub path_roots: Vec<(String, String)>,
    pub configs: Vec<(String, Option<String>, StringSet)>,
    pub queue: Vec<(String, String)>,
    pub visited: StringSet,
}

pub open spec fn config_entry_view(c: (String, Option<String>, StringSet)) -> (
    Seq<char>,
    Option<Seq<char>>,
    Set<Seq<char>>,
) {
    (
        c.0@,
        match c.1 {
            Some(e) => Some(e@),
            None => None,
        },
        c.2@,
    )
}

pub open spec fn configs_view(v: Seq<(String, Option<String>, StringSet)>) -> Seq<
    (Seq<char>, Option<Seq<char>>, Set<Seq<char>>),
> {
    v.map_values(|c: (String, Option<String>, StringSet)| config_entry_view(c))
}

impl View for NativeDependencySurfaceState {
    type V = (
        Set<Seq<char>>,
        Seq<(Seq<char>, Seq<char>)>,
        Seq<(Seq<char>, Option<Seq<char>>, Set<Seq<char>>)>,
        Seq<(Seq<char>, Seq<char>)>,
        Set<Seq<char>>,
    );

    open spec fn view(&self) -> Self::V {
        (
            self.external@,
            pairs_view(self.path_roots@),
            configs_view(self.configs@),
            pairs_view(self.queue@),
            self.visited@,
        )
    }
}

/// The crate names of a list of roots.
pub open spec fn root_keys(v: Seq<(Seq<char>, Seq<char>)>) -> Set<Seq<char>> {
    Set::new(|k: Seq<char>| exists|i: int| 0 <= i < v.len() && (#[trigger] v[i]).0 == k)
}

fn strings_set(v: &Vec<String>) -> (s: StringSet)
    ensures
        s@ == strings_view(v@).to_set(),
{
    let mut s = StringSet::new();
    let mut i: usize = 0;
    while i < v.len()
        invariant
            i <= v@.len(),
            s@ == strings_view(v@).take(i as int).to_set(),
        decreases v@.len() - i,
    {
        s.insert(copy_str(v[i].as_str()));
        assert(strings_view(v@).take(i + 1) =~= strings_view(v@).take(i as int).push(v@[i as int]@));
        proof {
            strings_view(v@).take(i as int).lemma_push_to_set_commute(v@[i as int]@);
        }
        i = i + 1;
    }
    assert(strings_view(v@).take(i as int) =~= strings_view(v@));
    s
}

fn add_root_keys(s: &mut StringSet, v: &Vec<(String, String)>)
    ensures
        final(s)@ == old(s)@ + root_keys(pairs_view(v@)),
{
    let ghost start = s@;
    let ghost pv = pairs_view(v@);
    let mut i: usize = 0;
    while i < v.len()
        invariant
            i <= v@.len(),
            pv == pairs_view(v@),
            s@ == start + root_keys(pv.take(i as int)),
        decreases v@.len() - i,
    {
        let ghost before = s@;
        s.insert(copy_str(v[i].0.as_str()));
        proof {
            let t = pv.take(i + 1);
            assert(t[i as int] == pv[i as int]);
            assert forall|k: Seq<char>| root_keys(t).contains(k) == (root_keys(pv.take(i as int)).contains(k) || k == v@[i as int].0@) by {
                if root_keys(t).contains(k) {
                    let j = choose|j: int| 0 <= j < t.len() && (#[trigger] t[j]).0 == k;
                    if j < i {
                        assert(pv.take(i as int)[j] == t[j]);
                    }
                }
                if root_keys(pv.take(i as int)).contains(k) {
                    let j = choose|j: int| 0 <= j < i && (#[trigger] pv.take(i as int)[j]).0 == k;
                    assert(t[j] == pv.take(i as int)[j]);
                }
                if k == v@[i as int].0@ {
                    assert(t[i as int].0 == k);
                }
            }
            assert(s@ =~= start + root_keys(t));
        }
        i = i + 1;
    }
    assert(pv.take(i as int) =~= pv);
}

fn copy_pairs(v: &Vec<(String, String)>) -> (c: Vec<(String, String)>)
    ensures
        pairs_view(c@) == pairs_view(v@),
{
    let mut c: Vec<(String, String)> = Vec::new();
    let mut i: usize = 0;
    while i < v.len()
        invariant
            i <= v@.len(),
            pairs_view(c@) == pairs_view(v@).take(i as int),
        decreases v@.len() - i,
    {
        let ghost before = c@;
        c.push((copy_str(v[i].0.as_str()), copy_str(v[i].1.as_str())));
        assert(pairs_view(c@) =~= pairs_view(before).push((v@[i as int].0@, v@[i as int].1@)));
        assert(pairs_view(v@).take(i + 1) =~= pairs_view(v@).take(i as int).push((v@[i as int].0@, v@[i as int].1@)));
        i = i + 1;
    }
    assert(pairs_view(v@).take(i as int) =~= pairs_view(v@));
    c
}

/// The walk's start: the manifest's own external dependencies and roots,
/// the root crate's settings (its edition and its direct path
/// dependencies), and every root still to visit.
pub fn native_dependency_surface_start(
    root_package_name: &str,
    root_cairo_edition: Option<String>,
    manifest_external: &Vec<String>,
    path_roots: Vec<(String, String)>,
) -> (st: NativeDependencySurfaceState)
    ensures
        st@.0 == strings_view(manifest_external@).to_set(),
        st@.1 == pairs_view(path_roots@),
        st@.2 == seq![
            (
                cairo_crate_key(root_package_name@),
                match root_cairo_edition {
                    Some(e) => Some(e@),
                    None => None,
                },
                root_keys(pairs_view(path_roots@)),
            ),
        ],
        st@.3 == pairs_view(path_roots@),
        st@.4 == Set::<Seq<char>>::empty(),
{
    let external = strings_set(manifest_external);
    let mut deps = StringSet::new();
    add_root_keys(&mut deps, &path_roots);
    assert(deps@ =~= root_keys(pairs_view(path_roots@)));
    let queue = copy_pairs(&path_roots);
    let mut configs: Vec<(String, Option<String>, StringSet)> = Vec::new();
    configs.push((normalize_package_name_for_cairo_crate(root_package_name), root_cairo_edition, deps));
    let st = NativeDependencySurfaceState {
        external,
        path_roots,
        configs,
        queue,
        visited: StringSet::new(),
    };
    assert(configs_view(st.configs@) =~= seq![config_entry_view(st.configs@[0])]);
    st
}

/// The key under which a dependency's manifest counts as visited.
pub open spec fn manifest_key(source_root: Seq<char>) -> Seq<char> {
    normalized_path(dependency_manifest_path(source_root))
}

/// The position of the first queued dependency whose manifest was not
/// visited, or -1.
pub open spec fn first_fresh(queue: Seq<(Seq<char>, Seq<char>)>, visited: Set<Seq<char>>) -> int
    decreases queue.len(),
{
    if queue.len() == 0 {
        -1
    } else if !visited.contains(manifest_key(queue[0].1)) {
        0
    } else {
        let r = first_fresh(queue.drop_first(), visited);
        if r < 0 {
            -1
        } else {
            r + 1
        }
    }
}

proof fn lemma_first_fresh_bounds(queue: Seq<(Seq<char>, Seq<char>)>, visited: Set<Seq<char>>)
    ensures
        -1 <= first_fresh(queue, visited) < queue.len(),
    decreases queue.len(),
{
    if queue.len() > 0 {
        lemma_first_fresh_bounds(queue.drop_first(), visited);
    }
}

/// Takes the next dependency to visit: queued dependencies whose manifest
/// was visited are dropped; the first other one is returned with its
/// manifest path, and its manifest counts as visited. `None` when the
/// queue runs out.
pub fn native_dependency_surface_next(state: &mut NativeDependencySurfaceState) -> (r: Option<
    (String, String, String),
>)
    ensures
        ({
            let q = old(state)@.3;
            let f = first_fresh(q, old(state)@.4);
            &&& final(state)@.0 == old(state)@.0
            &&& final(state)@.1 == old(state)@.1
            &&& final(state)@.2 == old(state)@.2
            &&& f < 0 ==> r is None && final(state)@.3.len() == 0 && final(state)@.4 == old(state)@.4
            &&& f >= 0 ==> (r matches Some((c, root, manifest)) && c@ == q[f].0 && root@ == q[f].1
                && manifest@ == dependency_manifest_path(q[f].1)) && final(state)@.3 == q.skip(f + 1)
                && final(state)@.4 == old(state)@.4.insert(manifest_key(q[f].1))
        }),
{
    let ghost q0 = pairs_view(state.queue@);
    let ghost v0 = state.visited@;
    let ghost mut k: int = 0;
    loop
        invariant
            0 <= k <= q0.len(),
            pairs_view(state.queue@) == q0.skip(k),
            state.visited@ == v0,
            forall|j: int| 0 <= j < k ==> v0.contains(manifest_key(#[trigger] q0[j].1)),
            state.external@ == old(state)@.0,
            pairs_view(state.path_roots@) == old(state)@.1,
            configs_view(state.configs@) == old(state)@.2,
            q0 == old(state)@.3,
            v0 == old(state)@.4,
        decreases q0.len() - k,
    {
        if state.queue.len() == 0 {
            proof {
                assert(q0.skip(k).len() == 0);
                lemma_first_fresh_is(q0, v0, k);
            }
            return None;
        }
        let ghost qv = state.queue@;
        let entry = state.queue.remove(0);
        proof {
            assert(pairs_view(qv) == q0.skip(k));
            assert(pairs_view(qv).len() == qv.len());
            assert(pairs_view(qv)[0] == (entry.0@, entry.1@));
            assert(q0.skip(k)[0] == q0[k]);
            assert(state.queue@ =~= qv.subrange(1, qv.len() as int));
            assert forall|j: int| 0 <= j < state.queue@.len() implies pairs_view(state.queue@)[j] == q0.skip(k + 1)[j] by {
                assert(state.queue@[j] == qv[j + 1]);
                assert(pairs_view(qv)[j + 1] == q0.skip(k)[j + 1]);
            }
            assert(pairs_view(state.queue@) =~= q0.skip(k + 1));
        }
        let manifest = native_dependency_manifest_path(entry.1.as_str());
        let key = normalize_fingerprint_path(manifest.as_str());
        if state.visited.insert(key) {
            proof {
                lemma_first_fresh_is(q0, v0, k);
            }
            return Some((entry.0, entry.1, manifest));
        }
        proof {
            k = k + 1;
        }
    }
}

proof fn lemma_first_fresh_is(q: Seq<(Seq<char>, Seq<char>)>, v: Set<Seq<char>>, k: int)
    requires
        0 <= k <= q.len(),
        forall|j: int| 0 <= j < k ==> v.contains(manifest_key(#[trigger] q[j].1)),
        k < q.len() ==> !v.contains(manifest_key(q[k].1)),
    ensures
        first_fresh(q, v) == (if k < q.len() {
            k
        } else {
            -1
        }),
    decreases k,
{
    if k > 0 {
        let d = q.drop_first();
        assert forall|j: int| 0 <= j < k - 1 implies v.contains(manifest_key(#[trigger] d[j].1)) by {
            assert(d[j] == q[j + 1]);
        }
        if k < q.len() {
            assert(d[k - 1] == q[k]);
        }
        lemma_first_fresh_is(d, v, k - 1);
        assert(v.contains(manifest_key(q[0].1)));
    }
}


/// The settings recorded for a crate, if any (the first entry with it).
pub open spec fn cfg_lookup(v: Seq<(Seq<char>, Option<Seq<char>>, Set<Seq<char>>)>, key: Seq<char>) -> Option<
    (Option<Seq<char>>, Set<Seq<char>>),
>
    decreases v.len(),
{
    if v.len() == 0 {
        None
    } else {
        match cfg_lookup(v.drop_last(), key) {
            Some(x) => Some(x),
            None => if v.last().0 == key {
                Some((v.last().1, v.last().2))
            } else {
                None
            },
        }
    }
}

pub open spec fn cfg_below(v: Seq<(Seq<char>, Option<Seq<char>>, Set<Seq<char>>)>, key: Seq<char>) -> Seq<
    (Seq<char>, Option<Seq<char>>, Set<Seq<char>>),
>
    decreases v.len(),
{
    if v.len() == 0 {
        Seq::empty()
    } else if str_lt(v.last().0, key) {
        cfg_below(v.drop_last(), key).push(v.last())
    } else {
        cfg_below(v.drop_last(), key)
    }
}

pub open spec fn cfg_above(v: Seq<(Seq<char>, Option<Seq<char>>, Set<Seq<char>>)>, key: Seq<char>) -> Seq<
    (Seq<char>, Option<Seq<char>>, Set<Seq<char>>),
>
    decreases v.len(),
{
    if v.len() == 0 {
        Seq::empty()
    } else if str_lt(key, v.last().0) {
        cfg_above(v.drop_last(), key).push(v.last())
    } else {
        cfg_above(v.drop_last(), key)
    }
}

/// The settings with `key` set, in crate order.
pub open spec fn cfg_put(
    v: Seq<(Seq<char>, Option<Seq<char>>, Set<Seq<char>>)>,
    key: Seq<char>,
    edition: Option<Seq<char>>,
    deps: Set<Seq<char>>,
) -> Seq<(Seq<char>, Option<Seq<char>>, Set<Seq<char>>)> {
    cfg_below(v, key) + seq![(key, edition, deps)] + cfg_above(v, key)
}

/// What a conflicting root of a nested dependency is reported as.
pub open spec fn conflict_label(dependency: Seq<char>, nested: Seq<char>, existing: Seq<char>, root: Seq<char>) -> Seq<
    char,
> {
    "[dependency."@ + dependency + "] conflicting path roots for `"@ + nested + "` ("@ + existing
        + " vs "@ + root + ")"@
}

/// A nested dependency found in a dependency's manifest taken in: a new
/// crate gets its root and is queued; one with another root is reported.
pub open spec fn nested_step(
    dependency: Seq<char>,
    st: (Set<Seq<char>>, Seq<(Seq<char>, Seq<char>)>, Seq<(Seq<char>, Seq<char>)>),
    nested: (Seq<char>, Seq<char>),
) -> (Set<Seq<char>>, Seq<(Seq<char>, Seq<char>)>, Seq<(Seq<char>, Seq<char>)>) {
    match root_lookup(st.1, nested.0) {
        None => (st.0, roots_with(st.1, nested.0, nested.1), st.2.push(nested)),
        Some(existing) => if existing == nested.1 {
            st
        } else {
            (st.0.insert(conflict_label(dependency, nested.0, existing, nested.1)), st.1, st.2)
        },
    }
}

pub open spec fn nested_fold(
    dependency: Seq<char>,
    st: (Set<Seq<char>>, Seq<(Seq<char>, Seq<char>)>, Seq<(Seq<char>, Seq<char>)>),
    nested: Seq<(Seq<char>, Seq<char>)>,
) -> (Set<Seq<char>>, Seq<(Seq<char>, Seq<char>)>, Seq<(Seq<char>, Seq<char>)>)
    decreases nested.len(),
{
    if nested.len() == 0 {
        st
    } else {
        nested_step(dependency, nested_fold(dependency, st, nested.drop_last()), nested.last())
    }
}

/// The walk after a visited dependency's manifest was read: its external
/// dependencies are added; its crate's settings keep their edition (or
/// take the manifest's when they have none) and gain its direct path
/// dependencies; and each nested dependency is taken in.
pub open spec fn merged_surface(
    st: (
        Set<Seq<char>>,
        Seq<(Seq<char>, Seq<char>)>,
        Seq<(Seq<char>, Option<Seq<char>>, Set<Seq<char>>)>,
        Seq<(Seq<char>, Seq<char>)>,
        Set<Seq<char>>,
    ),
    dependency: Seq<char>,
    edition: Option<Seq<char>>,
    dep_external: Set<Seq<char>>,
    dep_roots: Seq<(Seq<char>, Seq<char>)>,
) -> (
    Set<Seq<char>>,
    Seq<(Seq<char>, Seq<char>)>,
    Seq<(Seq<char>, Option<Seq<char>>, Set<Seq<char>>)>,
    Seq<(Seq<char>, Seq<char>)>,
    Set<Seq<char>>,
) {
    let current = match cfg_lookup(st.2, dependency) {
        Some(x) => x,
        None => (edition, Set::empty()),
    };
    let e = if current.0 is None {
        edition
    } else {
        current.0
    };
    let configs = cfg_put(st.2, dependency, e, current.1 + root_keys(dep_roots));
    let n = nested_fold(dependency, (st.0 + dep_external, st.1, st.3), dep_roots);
    (n.0, n.1, configs, n.2, st.4)
}

fn cfg_find(v: &Vec<(String, Option<String>, StringSet)>, key: &str) -> (r: Option<usize>)
    ensures
        match r {
            Some(i) => i < v@.len() && cfg_lookup(configs_view(v@), key@) == Some(
                (config_entry_view(v@[i as int]).1, config_entry_view(v@[i as int]).2),
            ),
            None => cfg_lookup(configs_view(v@), key@) is None,
        },
{
    let ghost cv = configs_view(v@);
    let mut i: usize = 0;
    while i < v.len()
        invariant
            i <= v@.len(),
            cv == configs_view(v@),
            cfg_lookup(cv.take(i as int), key@) is None,
        decreases v@.len() - i,
    {
        assert(cv.take(i + 1).drop_last() =~= cv.take(i as int));
        if str_eq(v[i].0.as_str(), key) {
            proof {
                lemma_cfg_lookup_prefix(cv, key@, i + 1);
            }
            return Some(i);
        }
        i = i + 1;
    }
    assert(cv.take(i as int) =~= cv);
    None
}

proof fn lemma_cfg_lookup_prefix(v: Seq<(Seq<char>, Option<Seq<char>>, Set<Seq<char>>)>, key: Seq<char>, i: int)
    requires
        0 <= i <= v.len(),
        cfg_lookup(v.take(i), key) is Some,
    ensures
        cfg_lookup(v, key) == cfg_lookup(v.take(i), key),
    decreases v.len(),
{
    if i < v.len() {
        assert(v.drop_last().take(i) =~= v.take(i));
        lemma_cfg_lookup_prefix(v.drop_last(), key, i);
    } else {
        assert(v.take(i) =~= v);
    }
}

fn cfg_insert(v: &mut Vec<(String, Option<String>, StringSet)>, key: String, edition: Option<String>, deps: StringSet)
    ensures
        configs_view(final(v)@) == cfg_put(
            configs_view(old(v)@),
            key@,
            match edition {
                Some(e) => Some(e@),
                None => None,
            },
            deps@,
        ),
{
    let kc = chars_of(key.as_str());
    let mut rest: Vec<(String, Option<String>, StringSet)> = Vec::new();
    std::mem::swap(&mut rest, v);
    let ghost start = configs_view(rest@);
    let mut below: Vec<(String, Option<String>, StringSet)> = Vec::new();
    let mut above: Vec<(String, Option<String>, StringSet)> = Vec::new();
    let ghost mut i: int = 0;
    while rest.len() > 0
        invariant
            0 <= i <= start.len(),
            kc@ == key@,
            configs_view(rest@) == start.skip(i),
            configs_view(below@) == cfg_below(start.take(i), key@),
            configs_view(above@) == cfg_above(start.take(i), key@),
        decreases rest@.len(),
    {
        let ghost rv = rest@;
        let x = rest.remove(0);
        proof {
            assert(configs_view(rv) == start.skip(i));
            assert(configs_view(rv).len() == rv.len());
            assert(i < start.len());
            assert(configs_view(rv)[0] == config_entry_view(x));
            assert(start.skip(i)[0] == start[i]);
            assert(start.take(i + 1).drop_last() =~= start.take(i));
            assert(start.take(i + 1).last() == start[i]);
            assert(rest@ =~= rv.subrange(1, rv.len() as int));
            assert forall|j: int| 0 <= j < rest@.len() implies configs_view(rest@)[j] == start.skip(i + 1)[j] by {
                assert(rest@[j] == rv[j + 1]);
                assert(configs_view(rv)[j + 1] == start.skip(i)[j + 1]);
            }
            assert(configs_view(rest@) =~= start.skip(i + 1));
            i = i + 1;
        }
        let xc = chars_of(x.0.as_str());
        let ghost b0 = below@;
        let ghost a0 = above@;
        if str_lt_exec(&xc, &kc) {
            proof {
                crate::strorder::lemma_str_lt_asymmetric(xc@, kc@);
            }
            below.push(x);
            assert(configs_view(below@) =~= configs_view(b0).push(start[i - 1]));
        } else if str_lt_exec(&kc, &xc) {
            above.push(x);
            assert(configs_view(above@) =~= configs_view(a0).push(start[i - 1]));
        }
    }
    assert(start.take(i) =~= start);
    let ghost bv = configs_view(below@);
    let ghost av = configs_view(above@);
    let ghost ev = opt_view(edition);
    let ghost dv = deps@;
    let ghost kv = key@;
    below.push((key, edition, deps));
    below.append(&mut above);
    assert(configs_view(below@) =~= bv + seq![(kv, ev, dv)] + av);
    *v = below;
}

fn copy_set(s: &StringSet) -> (c: StringSet)
    ensures
        c@ == s@,
{
    let items = s.items();
    let mut c = StringSet::new();
    let mut i: usize = 0;
    while i < items.len()
        invariant
            i <= items@.len(),
            forall|k: Seq<char>| s@.contains(k) <==> crate::string_set::holds(items@, k),
            c@ == Set::new(|k: Seq<char>| exists|j: int| 0 <= j < i && (#[trigger] items@[j])@ == k),
        decreases items@.len() - i,
    {
        let ghost before = c@;
        c.insert(copy_str(items[i].as_str()));
        proof {
            assert(c@ =~= Set::new(|k: Seq<char>| exists|j: int| 0 <= j < i + 1 && (#[trigger] items@[j])@ == k)) by {
                assert forall|k: Seq<char>| c@.contains(k) == (exists|j: int| 0 <= j < i + 1 && (#[trigger] items@[j])@ == k) by {
                    if exists|j: int| 0 <= j < i + 1 && (#[trigger] items@[j])@ == k {
                        let j = choose|j: int| 0 <= j < i + 1 && (#[trigger] items@[j])@ == k;
                        if j < i {
                            assert(before.contains(k));
                        }
                    }
                }
            }
        }
        i = i + 1;
    }
    assert(c@ =~= s@) by {
        assert forall|k: Seq<char>| c@.contains(k) == s@.contains(k) by {
            if s@.contains(k) {
                assert(crate::string_set::holds(items@, k));
            }
        }
    }
    c
}

fn conflict_label_exec(dependency: &str, nested: &str, existing: &str, root: &str) -> (s: String)
    ensures
        s@ == conflict_label(dependency@, nested@, existing@, root@),
{
    let mut s = String::from_str("[dependency.");
    push_str(&mut s, dependency);
    push_str(&mut s, "] conflicting path roots for `");
    push_str(&mut s, nested);
    push_str(&mut s, "` (");
    push_str(&mut s, existing);
    push_str(&mut s, " vs ");
    push_str(&mut s, root);
    push_str(&mut s, ")");
    s
}

/// Takes in what a visited dependency's manifest says: its edition, its
/// external dependencies and its path dependency roots.
pub fn native_dependency_surface_merge(
    state: &mut NativeDependencySurfaceState,
    dependency: &str,
    cairo_edition: Option<String>,
    dependency_external: &Vec<String>,
    dependency_roots: &Vec<(String, String)>,
)
    ensures
        final(state)@ == merged_surface(
            old(state)@,
            dependency@,
            match cairo_edition {
                Some(e) => Some(e@),
                None => None,
            },
            strings_view(dependency_external@).to_set(),
            pairs_view(dependency_roots@),
        ),
{
    let ghost ev = opt_view(cairo_edition);
    let found = cfg_find(&state.configs, dependency);
    let (current_edition, mut deps) = match found {
        Some(i) => (
            match &state.configs[i].1 {
                Some(e) => Some(copy_str(e.as_str())),
                None => None,
            },
            copy_set(&state.configs[i].2),
        ),
        None => (
            match &cairo_edition {
                Some(e) => Some(copy_str(e.as_str())),
                None => None,
            },
            StringSet::new(),
        ),
    };
    let edition = if current_edition.is_none() {
        cairo_edition
    } else {
        current_edition
    };
    add_root_keys(&mut deps, dependency_roots);
    cfg_insert(&mut state.configs, copy_str(dependency), edition, deps);
    let mut i: usize = 0;
    let ghost ext0 = state.external@;
    let ghost cfg_after = configs_view(state.configs@);
    while i < dependency_external.len()
        invariant
            i <= dependency_external@.len(),
            pairs_view(state.path_roots@) == old(state)@.1,
            pairs_view(state.queue@) == old(state)@.3,
            state.visited@ == old(state)@.4,
            configs_view(state.configs@) == cfg_after,
            state.external@ == ext0 + strings_view(dependency_external@).take(i as int).to_set(),
        decreases dependency_external@.len() - i,
    {
        state.external.insert(copy_str(dependency_external[i].as_str()));
        assert(strings_view(dependency_external@).take(i + 1) =~= strings_view(dependency_external@).take(
            i as int,
        ).push(dependency_external@[i as int]@));
        proof {
            strings_view(dependency_external@).take(i as int).lemma_push_to_set_commute(dependency_external@[i as int]@);
        }
        assert(state.external@ =~= ext0 + strings_view(dependency_external@).take(i + 1).to_set());
        i = i + 1;
    }
    assert(strings_view(dependency_external@).take(i as int) =~= strings_view(dependency_external@));
    let ghost st0 = (state.external@, pairs_view(state.path_roots@), pairs_view(state.queue@));
    assert(st0.0 == old(state)@.0 + strings_view(dependency_external@).to_set());
    assert(st0.1 == old(state)@.1);
    assert(st0.2 == old(state)@.3);
    let ghost nv = pairs_view(dependency_roots@);
    let mut k: usize = 0;
    while k < dependency_roots.len()
        invariant
            k <= dependency_roots@.len(),
            nv == pairs_view(dependency_roots@),
            state.visited@ == old(state)@.4,
            configs_view(state.configs@) == cfg_after,
            (state.external@, pairs_view(state.path_roots@), pairs_view(state.queue@)) == nested_fold(
                dependency@,
                st0,
                nv.take(k as int),
            ),
        decreases dependency_roots@.len() - k,
    {
        assert(nv.take(k + 1).drop_last() =~= nv.take(k as int));
        assert(nv.take(k + 1).last() == nv[k as int]);
        let nested = dependency_roots[k].0.as_str();
        let root = dependency_roots[k].1.as_str();
        match root_lookup_exec(&state.path_roots, nested) {
            None => {
                roots_insert(&mut state.path_roots, copy_str(nested), copy_str(root));
                let ghost qb = state.queue@;
                state.queue.push((copy_str(nested), copy_str(root)));
                assert(pairs_view(state.queue@) =~= pairs_view(qb).push((nested@, root@)));
            },
            Some(j) => {
                if !str_eq(state.path_roots[j].1.as_str(), root) {
                    let label = conflict_label_exec(dependency, nested, state.path_roots[j].1.as_str(), root);
                    state.external.insert(label);
                }
            },
        }
        k = k + 1;
    }
    assert(nv.take(k as int) =~= nv);
}

/// The dependency surface the walk found: the external dependencies'
/// labels (sorted), the crates' roots and settings (in crate order, each
/// crate's dependencies sorted).
pub fn native_dependency_surface_finish(state: NativeDependencySurfaceState) -> (s: DependencySurface)
    ensures
        strings_view(s.external_non_starknet_dependencies@) == sorted_distinct(state@.0),
        path_roots_view(s.path_dependency_roots@) == state@.1,
        s.crate_dependency_configs@.len() == state@.2.len(),
        forall|i: int|
            0 <= i < state@.2.len() ==> (#[trigger] s.crate_dependency_configs@[i]).crate_name@
                == state@.2[i].0 && opt_view(s.crate_dependency_configs@[i].cairo_edition)
                == state@.2[i].1 && strings_view(s.crate_dependency_configs@[i].dependencies@)
                == sorted_distinct(state@.2[i].2),
{
    let external = state.external.sorted_items();
    let mut roots: Vec<PathDependencyRoot> = Vec::new();
    let mut i: usize = 0;
    while i < state.path_roots.len()
        invariant
            i <= state.path_roots@.len(),
            path_roots_view(roots@) == pairs_view(state.path_roots@).take(i as int),
        decreases state.path_roots@.len() - i,
    {
        let ghost before = roots@;
        roots.push(
            PathDependencyRoot {
                crate_name: copy_str(state.path_roots[i].0.as_str()),
                source_root: copy_str(state.path_roots[i].1.as_str()),
            },
        );
        assert(path_roots_view(roots@) =~= path_roots_view(before).push(
            (state.path_roots@[i as int].0@, state.path_roots@[i as int].1@),
        ));
        assert(pairs_view(state.path_roots@).take(i + 1) =~= pairs_view(state.path_roots@).take(
            i as int,
        ).push((state.path_roots@[i as int].0@, state.path_roots@[i as int].1@)));
        i = i + 1;
    }
    assert(pairs_view(state.path_roots@).take(i as int) =~= pairs_view(state.path_roots@));
    let mut configs: Vec<CrateDependencyConfig> = Vec::new();
    let mut k: usize = 0;
    while k < state.configs.len()
        invariant
            k <= state.configs@.len(),
            configs@.len() == k,
            forall|q: int|
                0 <= q < k ==> (#[trigger] configs@[q]).crate_name@ == configs_view(state.configs@)[q].0
                    && opt_view(configs@[q].cairo_edition) == configs_view(state.configs@)[q].1
                    && strings_view(configs@[q].dependencies@) == sorted_distinct(
                    configs_view(state.configs@)[q].2,
                ),
        decreases state.configs@.len() - k,
    {
        let c = &state.configs[k];
        assert(configs_view(state.configs@)[k as int] == config_entry_view(state.configs@[k as int]));
        configs.push(
            CrateDependencyConfig {
                crate_name: copy_str(c.0.as_str()),
                cairo_edition: match &c.1 {
                    Some(e) => Some(copy_str(e.as_str())),
                    None => None,
                },
                dependencies: c.2.sorted_items(),
            },
        );
        k = k + 1;
    }
    DependencySurface {
        external_non_starknet_dependencies: external,
        path_dependency_roots: roots,
        crate_dependency_configs: configs,
    }
}


/// The dependency surface that Scarb metadata gave, with the manifest's own
/// external dependencies (when there are any) in place of the metadata's.
pub fn native_dependency_surface_with_manifest_external(surface: DependencySurface, manifest_external: Vec<String>) -> (s:
    DependencySurface)
    ensures
        manifest_external@.len() > 0 ==> s.external_non_starknet_dependencies@ == manifest_external@,
        manifest_external@.len() == 0 ==> s.external_non_starknet_dependencies@
            == surface.external_non_starknet_dependencies@,
        s.path_dependency_roots@ == surface.path_dependency_roots@,
        s.crate_dependency_configs@ == surface.crate_dependency_configs@,
{
    let mut s = surface;
    if manifest_external.len() > 0 {
        s.external_non_starknet_dependencies = manifest_external;
    }
    s
}

} // verus!
