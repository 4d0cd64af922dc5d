use vstd::prelude::*;
use crate::budget::{lemma_path_lt_asymmetric, path_lt, path_lt_exec};
use crate::text::string_from_chars;
use crate::errors::{plain_error, ErrorKind, UcError};
use crate::text::chars_of;

verus! {

/// Most path dependency roots outside the workspace that fingerprinting
/// follows.
pub const MAX_EXTERNAL_PATH_DEPENDENCY_ROOTS: usize = 64;

/// Whether path `p` lies in `base` or is `base`, compared as clean paths
/// (no empty or `.` components, no trailing `/` but on the root).
pub open spec fn path_within(p: Seq<char>, base: Seq<char>) -> bool {
    p == base || (p.len() > base.len() && p.take(base.len() as int) == base && base.len() > 0 && (
    base.last() == '/' || p[base.len() as int] == '/'))
}

/// Whether path `p` lies in `base` or is `base`.
pub fn path_within_exec(p: &Vec<char>, base: &Vec<char>) -> (b: bool)
    ensures
        b == path_within(p@, base@),
{
    if p.len() < base.len() {
        proof {
            if p@ == base@ {
                assert(p@.len() == base@.len());
            }
        }
        return false;
    }
    let mut i: usize = 0;
    while i < base.len()
        invariant
            i <= base@.len() <= p@.len(),
            forall|j: int| 0 <= j < i ==> p@[j] == base@[j],
        decreases base@.len() - i,
    {
        if p[i] != base[i] {
            proof {
                assert(p@.take(base@.len() as int)[i as int] != base@[i as int]);
                if p@ == base@ {
                    assert(p@[i as int] == base@[i as int]);
                }
            }
            return false;
        }
        i = i + 1;
    }
    assert(p@.take(base@.len() as int) =~= base@);
    if p.len() == base.len() {
        assert(p@ =~= base@);
        return true;
    }
    base.len() > 0 && (base[base.len() - 1] == '/' || p[base.len()] == '/')
}

/// The accepted roots after considering `dir`: unchanged when an accepted
/// root already holds `dir`; otherwise the roots inside `dir` give way and
/// `dir` joins, unless that would exceed the limit.
pub open spec fn accept_root(accepted: Seq<Seq<char>>, dir: Seq<char>) -> Option<Seq<Seq<char>>> {
    if exists|i: int| 0 <= i < accepted.len() && path_within(dir, #[trigger] accepted[i]) {
        Some(accepted)
    } else {
        let kept = accepted.filter(|r: Seq<char>| !path_within(r, dir));
        if kept.len() >= MAX_EXTERNAL_PATH_DEPENDENCY_ROOTS {
            None
        } else {
            Some(kept.push(dir))
        }
    }
}

/// Considers one more external path dependency directory (canonical, and
/// outside the workspace) for fingerprinting.
pub fn accept_external_path_dependency_root(accepted: &mut Vec<Vec<char>>, dir: &Vec<char>) -> (r:
    Result<(), UcError>)
    ensures
        match accept_root(old(accepted)@.map_values(|v: Vec<char>| v@), dir@) {
            Some(a) => r is Ok && final(accepted)@.map_values(|v: Vec<char>| v@) == a,
            None => r is Err && r->Err_0.kind == (ErrorKind::TooManyExternalPathDependencyRoots {
                limit: MAX_EXTERNAL_PATH_DEPENDENCY_ROOTS,
            }),
        },
{
    let ghost view = accepted@.map_values(|v: Vec<char>| v@);
    let mut i: usize = 0;
    while i < accepted.len()
        invariant
            i <= accepted@.len(),
            view == accepted@.map_values(|v: Vec<char>| v@),
            forall|j: int| 0 <= j < i ==> !path_within(dir@, #[trigger] view[j]),
        decreases accepted@.len() - i,
    {
        if path_within_exec(dir, &accepted[i]) {
            assert(path_within(dir@, view[i as int]));
            return Ok(());
        }
        i = i + 1;
    }
    let ghost kept_spec = view.filter(|r: Seq<char>| !path_within(r, dir@));
    let mut kept: Vec<Vec<char>> = Vec::new();
    let mut j: usize = 0;
    while j < accepted.len()
        invariant
            j <= accepted@.len(),
            view == accepted@.map_values(|v: Vec<char>| v@),
            kept@.map_values(|v: Vec<char>| v@) == view.take(j as int).filter(
                |r: Seq<char>| !path_within(r, dir@),
            ),
        decreases accepted@.len() - j,
    {
        let keep = !path_within_exec(&accepted[j], dir);
        proof {
            let f = |r: Seq<char>| !path_within(r, dir@);
            assert(view.take(j + 1).drop_last() =~= view.take(j as int));
            view.take(j as int).lemma_filter_push(view[j as int], f);
            assert(view.take(j + 1) =~= view.take(j as int).push(view[j as int]));
        }
        if keep {
            let v = accepted[j].clone();
            kept.push(v);
            assert(kept@.map_values(|v: Vec<char>| v@) =~= view.take(j as int).filter(
                |r: Seq<char>| !path_within(r, dir@),
            ).push(view[j as int]));
        }
        j = j + 1;
    }
    assert(view.take(j as int) =~= view);
    if kept.len() >= MAX_EXTERNAL_PATH_DEPENDENCY_ROOTS {
        return Err(
            plain_error(
                ErrorKind::TooManyExternalPathDependencyRoots {
                    limit: MAX_EXTERNAL_PATH_DEPENDENCY_ROOTS,
                },
            ),
        );
    }
    kept.push(dir.clone());
    *accepted = kept;
    assert(accepted@.map_values(|v: Vec<char>| v@) =~= kept_spec.push(dir@));
    Ok(())
}

/// The roots accepted after considering `candidates` in order, or none when
/// too many would be needed.
pub open spec fn fold_roots(candidates: Seq<Seq<char>>) -> Option<Seq<Seq<char>>>
    decreases candidates.len(),
{
    if candidates.len() == 0 {
        Some(Seq::empty())
    } else {
        match fold_roots(candidates.drop_last()) {
            None => None,
            Some(a) => accept_root(a, candidates.last()),
        }
    }
}

/// Whether position `q` occurs in `s`.
pub open spec fn covered(s: Seq<usize>, q: int) -> bool {
    exists|j: int| 0 <= j < s.len() && #[trigger] s[j] == q
}

proof fn lemma_fold_roots_none_sticks(c: Seq<Seq<char>>, k: int)
    requires
        0 <= k <= c.len(),
        fold_roots(c.take(k)) is None,
    ensures
        fold_roots(c) is None,
    decreases c.len() - k,
{
    if k == c.len() {
        assert(c.take(k) =~= c);
    } else {
        assert(c.take(k + 1).drop_last() =~= c.take(k));
        lemma_fold_roots_none_sticks(c, k + 1);
    }
}

/// No root of `s` lies in another (so none occurs twice).
pub open spec fn non_nested(s: Seq<Seq<char>>) -> bool {
    forall|i: int, j: int|
        0 <= i < s.len() && 0 <= j < s.len() && i != j ==> !path_within(
            #[trigger] s[i],
            #[trigger] s[j],
        )
}

proof fn lemma_filter_non_nested(s: Seq<Seq<char>>, p: spec_fn(Seq<char>) -> bool)
    requires
        non_nested(s),
    ensures
        non_nested(s.filter(p)),
        forall|k: int| 0 <= k < s.filter(p).len() ==> s.contains(#[trigger] s.filter(p)[k]),
    decreases s.len(),
{
    broadcast use vstd::seq_lib::group_filter_ensures;
    if s.len() > 0 {
        let d = s.drop_last();
        let e = s.last();
        assert(s =~= d.push(e));
        assert(non_nested(d)) by {
            assert forall|i: int, j: int|
                0 <= i < d.len() && 0 <= j < d.len() && i != j implies !path_within(
                #[trigger] d[i],
                #[trigger] d[j],
            ) by {
                assert(d[i] == s[i] && d[j] == s[j]);
            }
        }
        lemma_filter_non_nested(d, p);
        d.lemma_filter_push(e, p);
        let f = d.filter(p);
        if p(e) {
            let g = f.push(e);
            assert forall|k: int| 0 <= k < g.len() implies s.contains(#[trigger] g[k]) by {
                if k < f.len() {
                    assert(d.contains(f[k]));
                    let m = choose|m: int| 0 <= m < d.len() && d[m] == f[k];
                    assert(s[m] == g[k]);
                } else {
                    assert(s[s.len() - 1] == g[k]);
                }
            }
            assert forall|i: int, j: int|
                0 <= i < g.len() && 0 <= j < g.len() && i != j implies !path_within(
                #[trigger] g[i],
                #[trigger] g[j],
            ) by {
                if i < f.len() && j < f.len() {
                    assert(g[i] == f[i] && g[j] == f[j]);
                } else if i < f.len() {
                    assert(d.contains(f[i]));
                    let m = choose|m: int| 0 <= m < d.len() && d[m] == f[i];
                    assert(s[m] == g[i] && s[s.len() - 1] == g[j]);
                } else {
                    assert(d.contains(f[j]));
                    let m = choose|m: int| 0 <= m < d.len() && d[m] == f[j];
                    assert(s[m] == g[j] && s[s.len() - 1] == g[i]);
                }
            }
        } else {
            assert forall|k: int| 0 <= k < f.len() implies s.contains(#[trigger] f[k]) by {
                assert(d.contains(f[k]));
                let m = choose|m: int| 0 <= m < d.len() && d[m] == f[k];
                assert(s[m] == f[k]);
            }
        }
    }
}

/// The roots that the fold accepts are at most the limit, none lies in
/// another, and each is one of the candidates.
pub proof fn lemma_fold_roots_shape(c: Seq<Seq<char>>)
    ensures
        fold_roots(c) matches Some(a) ==> {
            &&& a.len() <= MAX_EXTERNAL_PATH_DEPENDENCY_ROOTS
            &&& non_nested(a)
            &&& forall|k: int| 0 <= k < a.len() ==> c.contains(#[trigger] a[k])
        },
    decreases c.len(),
{
    if c.len() > 0 {
        let d = c.drop_last();
        let dir = c.last();
        lemma_fold_roots_shape(d);
        if let Some(a) = fold_roots(d) {
            assert forall|k: int| 0 <= k < a.len() implies c.contains(#[trigger] a[k]) by {
                let m = choose|m: int| 0 <= m < d.len() && d[m] == a[k];
                assert(c[m] == a[k]);
            }
            if !(exists|i: int| 0 <= i < a.len() && path_within(dir, #[trigger] a[i])) {
                let pred = |r: Seq<char>| !path_within(r, dir);
                let kept = a.filter(pred);
                lemma_filter_non_nested(a, pred);
                if kept.len() < MAX_EXTERNAL_PATH_DEPENDENCY_ROOTS {
                    broadcast use vstd::seq_lib::group_filter_ensures;
                    let g = kept.push(dir);
                    assert forall|k: int| 0 <= k < g.len() implies c.contains(#[trigger] g[k]) by {
                        if k < kept.len() {
                            let m = choose|m: int| 0 <= m < a.len() && a[m] == kept[k];
                            assert(c.contains(a[m]));
                        } else {
                            assert(c[c.len() - 1] == g[k]);
                        }
                    }
                    assert forall|i: int, j: int|
                        0 <= i < g.len() && 0 <= j < g.len() && i != j implies !path_within(
                        #[trigger] g[i],
                        #[trigger] g[j],
                    ) by {
                        if i < kept.len() && j < kept.len() {
                            assert(g[i] == kept[i] && g[j] == kept[j]);
                        } else if i < kept.len() {
                            assert(pred(kept[i]));
                        } else {
                            let m = choose|m: int| 0 <= m < a.len() && a[m] == kept[j];
                            assert(!path_within(dir, a[m]));
                        }
                    }
                }
            }
        }
    }
}

/// The external path dependency roots to fingerprint, from canonical
/// candidate directories that already lie outside the workspace (the
/// caller leaves out those inside it; `select_external_path_dependency_roots`
/// does both), in the order they were found: each directory already inside an accepted root is
/// dropped, a directory holding accepted roots replaces them, more than the
/// limit is refused; the result is sorted by path.
pub fn collect_external_path_dependency_roots(candidates: &Vec<String>) -> (r: Result<Vec<String>, UcError>)
    ensures
        match fold_roots(candidates@.map_values(|s: String| s@)) {
            None => r is Err && r->Err_0.kind == (ErrorKind::TooManyExternalPathDependencyRoots {
                limit: MAX_EXTERNAL_PATH_DEPENDENCY_ROOTS,
            }),
            Some(a) => r is Ok && {
                let out = r->Ok_0@.map_values(|s: String| s@);
                &&& out.len() == a.len()
                &&& out.to_set() == a.to_set()
                &&& out.len() <= MAX_EXTERNAL_PATH_DEPENDENCY_ROOTS
                &&& non_nested(out)
                &&& forall|k: int|
                    0 <= k < out.len() ==> candidates@.map_values(|s: String| s@).contains(
                        #[trigger] out[k],
                    )
                &&& forall|j: int|
                    0 <= j && j + 1 < out.len() ==> !path_lt(out[j + 1], #[trigger] out[j])
            },
        },
{
    let ghost cview = candidates@.map_values(|s: String| s@);
    let mut accepted: Vec<Vec<char>> = Vec::new();
    let mut i: usize = 0;
    while i < candidates.len()
        invariant
            i <= candidates@.len(),
            cview == candidates@.map_values(|s: String| s@),
            fold_roots(cview.take(i as int)) == Some(accepted@.map_values(|v: Vec<char>| v@)),
        decreases candidates@.len() - i,
    {
        let dir = chars_of(candidates[i].as_str());
        assert(cview.take(i + 1).drop_last() =~= cview.take(i as int));
        match accept_external_path_dependency_root(&mut accepted, &dir) {
            Ok(()) => {},
            Err(e) => {
                proof {
                    lemma_fold_roots_none_sticks(cview, i + 1);
                }
                return Err(e);
            },
        }
        i = i + 1;
    }
    assert(cview.take(i as int) =~= cview);
    let ghost a = accepted@.map_values(|v: Vec<char>| v@);
    let mut sorted: Vec<usize> = Vec::new();
    let mut k: usize = 0;
    while k < accepted.len()
        invariant
            k <= accepted@.len(),
            a == accepted@.map_values(|v: Vec<char>| v@),
            sorted@.len() == k,
            forall|j: int| 0 <= j < sorted@.len() ==> #[trigger] sorted@[j] < k,
            forall|i: int, j: int|
                0 <= i < sorted@.len() && 0 <= j < sorted@.len() && i != j ==> #[trigger] sorted@[i]
                    != #[trigger] sorted@[j],
            forall|q: int| 0 <= q < k ==> #[trigger] covered(sorted@, q),
            forall|j: int|
                0 <= j && j + 1 < sorted@.len() ==> !path_lt(
                    a[sorted@[j + 1] as int],
                    #[trigger] a[sorted@[j] as int],
                ),
        decreases accepted@.len() - k,
    {
        let mut p = sorted.len();
        while p > 0 && path_lt_exec(&accepted[k], &accepted[sorted[p - 1]])
            invariant
                p <= sorted@.len(),
                k < accepted@.len(),
                a == accepted@.map_values(|v: Vec<char>| v@),
                forall|j: int| 0 <= j < sorted@.len() ==> #[trigger] sorted@[j] < k,
                forall|j: int|
                    p <= j < sorted@.len() ==> path_lt(a[k as int], #[trigger] a[sorted@[j] as int]),
            decreases p,
        {
            p = p - 1;
        }
        let ghost old_sorted = sorted@;
        sorted.insert(p, k);
        proof {
            assert forall|j: int|
                0 <= j && j + 1 < sorted@.len() implies !path_lt(
                a[sorted@[j + 1] as int],
                #[trigger] a[sorted@[j] as int],
            ) by {
                if j + 1 < p {
                    assert(sorted@[j] == old_sorted[j] && sorted@[j + 1] == old_sorted[j + 1]);
                } else if j + 1 == p {
                    assert(sorted@[j] == old_sorted[j]);
                } else if j == p {
                    assert(sorted@[j + 1] == old_sorted[j]);
                    lemma_path_lt_asymmetric(a[k as int], a[old_sorted[j] as int]);
                } else {
                    assert(sorted@[j] == old_sorted[j - 1] && sorted@[j + 1] == old_sorted[j]);
                }
            }
            assert forall|q: int| 0 <= q < k + 1 implies #[trigger] covered(sorted@, q) by {
                if q == k {
                    assert(sorted@[p as int] == q);
                } else {
                    assert(covered(old_sorted, q));
                    let j0 = choose|j: int| 0 <= j < old_sorted.len() && #[trigger] old_sorted[j] == q;
                    if j0 < p {
                        assert(sorted@[j0] == q);
                    } else {
                        assert(sorted@[j0 + 1] == q);
                    }
                }
            }
            assert forall|i: int, j: int|
                0 <= i < sorted@.len() && 0 <= j < sorted@.len() && i != j implies #[trigger] sorted@[i]
                    != #[trigger] sorted@[j] by {
                let oi = if i < p { i } else if i > p { i - 1 } else { -1 };
                let oj = if j < p { j } else if j > p { j - 1 } else { -1 };
                if oi >= 0 {
                    assert(sorted@[i] == old_sorted[oi]);
                }
                if oj >= 0 {
                    assert(sorted@[j] == old_sorted[oj]);
                }
            }
            assert forall|j: int| 0 <= j < sorted@.len() implies #[trigger] sorted@[j] < k + 1 by {
                if j < p {
                    assert(sorted@[j] == old_sorted[j]);
                } else if j > p {
                    assert(sorted@[j] == old_sorted[j - 1]);
                }
            }
        }
        k = k + 1;
    }
    let mut out: Vec<String> = Vec::new();
    let mut m: usize = 0;
    while m < sorted.len()
        invariant
            m <= sorted@.len(),
            sorted@.len() == accepted@.len(),
            a == accepted@.map_values(|v: Vec<char>| v@),
            forall|j: int| 0 <= j < sorted@.len() ==> #[trigger] sorted@[j] < accepted@.len(),
            forall|q: int| 0 <= q < accepted@.len() ==> #[trigger] covered(sorted@, q),
            forall|i: int, j: int|
                0 <= i < sorted@.len() && 0 <= j < sorted@.len() && i != j ==> #[trigger] sorted@[i]
                    != #[trigger] sorted@[j],
            out@.len() == m,
            forall|j: int| 0 <= j < m ==> (#[trigger] out@[j])@ == a[sorted@[j] as int],
        decreases sorted@.len() - m,
    {
        out.push(string_from_chars(&accepted[sorted[m]]));
        m = m + 1;
    }
    proof {
        let ov = out@.map_values(|s: String| s@);
        assert forall|j: int| 0 <= j && j + 1 < ov.len() implies !path_lt(
            ov[j + 1],
            #[trigger] ov[j],
        ) by {
            assert(ov[j] == a[sorted@[j] as int]);
            assert(ov[j + 1] == a[sorted@[j + 1] as int]);
        }
        assert forall|x: Seq<char>| ov.to_set().contains(x) == a.to_set().contains(x) by {
            if ov.to_set().contains(x) {
                let j = choose|j: int| 0 <= j < ov.len() && ov[j] == x;
                assert(a[sorted@[j] as int] == x);
            }
            if a.to_set().contains(x) {
                let q = choose|q: int| 0 <= q < a.len() && a[q] == x;
                assert(covered(sorted@, q));
                let j = choose|j: int| 0 <= j < sorted@.len() && #[trigger] sorted@[j] == q;
                assert(ov[j] == x);
            }
        }
        assert(ov.to_set() =~= a.to_set());
        lemma_fold_roots_shape(cview);
        assert forall|i: int, j: int|
            0 <= i < ov.len() && 0 <= j < ov.len() && i != j implies !path_within(
            #[trigger] ov[i],
            #[trigger] ov[j],
        ) by {
            assert(ov[i] == a[sorted@[i] as int] && ov[j] == a[sorted@[j] as int]);
        }
        assert forall|k: int| 0 <= k < ov.len() implies cview.contains(#[trigger] ov[k]) by {
            assert(ov[k] == a[sorted@[k] as int]);
        }
    }
    Ok(out)
}

/// The candidates that lie outside the workspace root.
pub open spec fn outside_workspace(root: Seq<char>, candidates: Seq<Seq<char>>) -> Seq<Seq<char>> {
    candidates.filter(|d: Seq<char>| !path_within(d, root))
}

/// The external path dependency roots of a workspace: the candidate
/// directories (canonical, in the order the manifests name them) that lie
/// inside the workspace root are left out, the rest go through
/// `collect_external_path_dependency_roots`; so no root returned lies in the
/// workspace.
pub fn select_external_path_dependency_roots(workspace_root: &str, candidates: &Vec<String>) -> (r:
    Result<Vec<String>, UcError>)
    ensures
        match fold_roots(outside_workspace(workspace_root@, candidates@.map_values(|s: String| s@))) {
            None => r is Err && r->Err_0.kind == (ErrorKind::TooManyExternalPathDependencyRoots {
                limit: MAX_EXTERNAL_PATH_DEPENDENCY_ROOTS,
            }),
            Some(a) => r is Ok && {
                let out = r->Ok_0@.map_values(|s: String| s@);
                &&& out.to_set() == a.to_set()
                &&& out.len() <= MAX_EXTERNAL_PATH_DEPENDENCY_ROOTS
                &&& non_nested(out)
                &&& forall|j: int|
                    0 <= j && j + 1 < out.len() ==> !path_lt(out[j + 1], #[trigger] out[j])
                &&& forall|k: int| 0 <= k < out.len() ==> !path_within(#[trigger] out[k], workspace_root@)
            },
        },
{
    let root = chars_of(workspace_root);
    let ghost cview = candidates@.map_values(|s: String| s@);
    let ghost pred = |d: Seq<char>| !path_within(d, workspace_root@);
    let mut outside: Vec<String> = Vec::new();
    let mut i: usize = 0;
    while i < candidates.len()
        invariant
            i <= candidates@.len(),
            root@ == workspace_root@,
            cview == candidates@.map_values(|s: String| s@),
            pred == |d: Seq<char>| !path_within(d, workspace_root@),
            outside@.map_values(|s: String| s@) == cview.take(i as int).filter(pred),
        decreases candidates@.len() - i,
    {
        let dir = chars_of(candidates[i].as_str());
        proof {
            assert(cview.take(i + 1) =~= cview.take(i as int).push(cview[i as int]));
            cview.take(i as int).lemma_filter_push(cview[i as int], pred);
        }
        if !path_within_exec(&dir, &root) {
            outside.push(string_from_chars(&dir));
            assert(outside@.map_values(|s: String| s@) =~= cview.take(i as int).filter(pred).push(
                cview[i as int],
            ));
        }
        i = i + 1;
    }
    assert(cview.take(i as int) =~= cview);
    let r = collect_external_path_dependency_roots(&outside);
    proof {
        let fv = outside@.map_values(|s: String| s@);
        assert(fv == outside_workspace(workspace_root@, cview));
        if r is Ok {
            broadcast use vstd::seq_lib::group_filter_ensures;
            let out = r->Ok_0@.map_values(|s: String| s@);
            assert forall|k: int| 0 <= k < out.len() implies !path_within(#[trigger] out[k], workspace_root@) by {
                assert(fv.contains(out[k]));
                let m = choose|m: int| 0 <= m < fv.len() && fv[m] == out[k];
                assert(pred(fv[m]));
            }
        }
    }
    r
}

} // verus!
