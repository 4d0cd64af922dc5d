use vstd::prelude::*;
use crate::deproots::{path_within, path_within_exec};
use crate::errors::{plain_error, ErrorKind, UcError};
use crate::text::{chars_of, push_char, push_str, string_from_chars, string_from_range};
use crate::versions::{lemma_next_index_of_pub, next_index_of};

verus! {

/// The pieces of `s` between its `/` separators, from position `i` on.
pub open spec fn pieces_from(s: Seq<char>, i: int) -> Seq<Seq<char>>
    decreases s.len() + 1 - i,
{
    if i < 0 || i > s.len() {
        Seq::empty()
    } else {
        let e = next_index_of(s, i, '/');
        if e < i || e > s.len() {
            Seq::empty()
        } else if e == s.len() {
            seq![s.subrange(i, e)]
        } else {
            seq![s.subrange(i, e)] + pieces_from(s, e + 1)
        }
    }
}

/// The pieces of `s` between its `/` separators.
pub open spec fn pieces(s: Seq<char>) -> Seq<Seq<char>> {
    pieces_from(s, 0)
}

/// Whether a piece names a file or directory (not empty, not `.`, not `..`).
pub open spec fn is_name(q: Seq<char>) -> bool {
    q.len() > 0 && q != "."@ && q != ".."@
}

/// Names joined by `/`.
pub open spec fn join_names(ns: Seq<Seq<char>>) -> Seq<char>
    decreases ns.len(),
{
    if ns.len() == 0 {
        Seq::empty()
    } else if ns.len() == 1 {
        ns[0]
    } else {
        join_names(ns.drop_last()) + seq!['/'] + ns.last()
    }
}

/// The cleaned form of a cached artifact's relative path: refused when
/// absolute, when it climbs with `..`, or when no name remains; else its
/// names joined by `/`, with empty and `.` pieces dropped.
pub open spec fn clean_artifact_path(s: Seq<char>) -> Result<Seq<char>, ErrorKind> {
    if s.len() > 0 && s[0] == '/' {
        Err(ErrorKind::ArtifactPathAbsolute)
    } else if pieces(s).contains(".."@) {
        Err(ErrorKind::ArtifactPathInvalidComponent)
    } else if pieces(s).filter(|q: Seq<char>| is_name(q)).len() == 0 {
        Err(ErrorKind::ArtifactPathEmpty)
    } else {
        Ok(join_names(pieces(s).filter(|q: Seq<char>| is_name(q))))
    }
}

proof fn lemma_pieces_step(s: Seq<char>, i: int)
    requires
        0 <= i <= s.len(),
    ensures
        ({
            let e = next_index_of(s, i, '/');
            &&& i <= e <= s.len()
            &&& pieces_from(s, i) == if e == s.len() {
                seq![s.subrange(i, e)]
            } else {
                seq![s.subrange(i, e)] + pieces_from(s, e + 1)
            }
        }),
{
    lemma_next_index_of_pub(s, i, '/');
}

fn dot_kind(v: &Vec<char>, a: usize, b: usize) -> (k: u8)
    requires
        a <= b <= v.len(),
    ensures
        k == 0 ==> v@.subrange(a as int, b as int).len() == 0 || v@.subrange(a as int, b as int)
            == "."@,
        k == 1 ==> v@.subrange(a as int, b as int) == ".."@,
        k == 2 ==> is_name(v@.subrange(a as int, b as int)),
        k <= 2,
{
    proof {
        reveal_strlit(".");
        reveal_strlit("..");
    }
    let ghost q = v@.subrange(a as int, b as int);
    if b == a {
        return 0;
    }
    if b - a == 1 && v[a] == '.' {
        assert(q =~= "."@);
        return 0;
    }
    if b - a == 2 && v[a] == '.' && v[a + 1] == '.' {
        assert(q =~= ".."@);
        return 1;
    }
    proof {
        if q == "."@ {
            assert(q.len() == 1 && q[0] == v@[a as int]);
        }
        if q == ".."@ {
            assert(q.len() == 2 && q[0] == v@[a as int] && q[1] == v@[a + 1]);
        }
    }
    2
}

/// Cleans a cached artifact's relative path, refusing one that could leave
/// the target directory.
pub fn validated_relative_artifact_path(path: &str) -> (r: Result<String, UcError>)
    ensures
        match clean_artifact_path(path@) {
            Ok(p) => r is Ok && r->Ok_0@ == p,
            Err(k) => r is Err && r->Err_0.kind == k,
        },
{
    let s = chars_of(path);
    if s.len() > 0 && s[0] == '/' {
        return Err(plain_error(ErrorKind::ArtifactPathAbsolute));
    }
    let ghost all = pieces(path@);
    let ghost before: Seq<Seq<char>> = Seq::empty();
    let mut out = String::new();
    let mut count: usize = 0;
    let mut i: usize = 0;
    let mut climbs = false;
    loop
        invariant_except_break
            before + pieces_from(s@, i as int) == all,
            count <= i,
        invariant
            i <= s@.len(),
            count <= s@.len(),
            s@ == path@,
            !(s@.len() > 0 && s@[0] == '/'),
            all == pieces(path@),
            !climbs ==> !before.contains(".."@),
            climbs ==> all.contains(".."@),
            count == before.filter(|q: Seq<char>| is_name(q)).len(),
            out@ == join_names(before.filter(|q: Seq<char>| is_name(q))),
        ensures
            before == all,
        decreases s@.len() + 1 - i,
    {
        proof {
            lemma_pieces_step(s@, i as int);
        }
        let e = crate::versions::find_char_from_pub(&s, i, '/');
        let ghost piece = s@.subrange(i as int, e as int);
        let kind = dot_kind(&s, i, e);
        proof {
            let f = |q: Seq<char>| is_name(q);
            before.lemma_filter_push(piece, f);
            if e < s@.len() {
                assert(before.push(piece) + pieces_from(s@, e + 1) =~= before + pieces_from(
                    s@,
                    i as int,
                ));
            } else {
                assert(before.push(piece) =~= before + pieces_from(s@, i as int));
            }
        }
        if kind == 1 {
            proof {
                assert(all.contains(".."@)) by {
                    assert(all[before.len() as int] == piece);
                }
            }
            climbs = true;
        } else if kind == 2 {
            if count > 0 {
                push_char(&mut out, '/');
            }
            let name = string_from_range(&s, i, e);
            push_str(&mut out, name.as_str());
            proof {
                let nb = before.filter(|q: Seq<char>| is_name(q));
                let na = nb.push(piece);
                assert(na.drop_last() =~= nb);
                if count == 0 {
                    assert(out@ =~= join_names(na));
                } else {
                    assert(out@ =~= join_names(na));
                }
            }
            count = count + 1;
        } else {
            proof {
                if piece.len() > 0 {
                    assert(piece == "."@);
                }
                assert(!is_name(piece));
            }
        }
        proof {
            reveal_strlit(".");
            reveal_strlit("..");
            let nb = before.push(piece);
            if !climbs {
                assert(piece != ".."@);
                assert forall|j: int| 0 <= j < nb.len() implies nb[j] != ".."@ by {
                    if j < before.len() {
                        assert(nb[j] == before[j]);
                    }
                }
            }
            before = nb;
        }
        if e == s.len() {
            proof {
                assert(before =~= all);
            }
            break;
        }
        i = e + 1;
    }
    if climbs {
        return Err(plain_error(ErrorKind::ArtifactPathInvalidComponent));
    }
    if count == 0 {
        return Err(plain_error(ErrorKind::ArtifactPathEmpty));
    }
    Ok(out)
}

/// Whether a cache object path is refused: when absolute, when it starts
/// with a `.` piece, or when any piece is `..`.
pub open spec fn cache_object_path_check(s: Seq<char>) -> Result<(), ErrorKind> {
    if s.len() > 0 && s[0] == '/' {
        Err(ErrorKind::CacheObjectPathAbsolute)
    } else if pieces(s).contains(".."@) || pieces(s)[0] == "."@ {
        Err(ErrorKind::CacheObjectPathInvalidComponent)
    } else {
        Ok(())
    }
}

/// Checks that a cache object path stays inside the objects directory.
pub fn validate_cache_object_rel_path(path: &str) -> (r: Result<(), UcError>)
    ensures
        match cache_object_path_check(path@) {
            Ok(()) => r is Ok,
            Err(k) => r is Err && r->Err_0.kind == k,
        },
{
    let s = chars_of(path);
    if s.len() > 0 && s[0] == '/' {
        return Err(plain_error(ErrorKind::CacheObjectPathAbsolute));
    }
    let ghost all = pieces(path@);
    let ghost before: Seq<Seq<char>> = Seq::empty();
    let mut i: usize = 0;
    let mut bad = false;
    loop
        invariant_except_break
            before + pieces_from(s@, i as int) == all,
            i == 0 <==> before.len() == 0,
        invariant
            i <= s@.len(),
            s@ == path@,
            !(s@.len() > 0 && s@[0] == '/'),
            all == pieces(path@),
            before.len() > 0 ==> before[0] == all[0],
            !bad ==> !before.contains(".."@) && (before.len() == 0 || before[0] != "."@),
            bad ==> all.contains(".."@) || (all.len() > 0 && all[0] == "."@),
        ensures
            before == all,
            before.len() > 0,
        decreases s@.len() + 1 - i,
    {
        proof {
            lemma_pieces_step(s@, i as int);
            reveal_strlit(".");
            reveal_strlit("..");
        }
        let e = crate::versions::find_char_from_pub(&s, i, '/');
        let ghost piece = s@.subrange(i as int, e as int);
        let kind = dot_kind(&s, i, e);
        proof {
            if e < s@.len() {
                assert(before.push(piece) + pieces_from(s@, e + 1) =~= before + pieces_from(
                    s@,
                    i as int,
                ));
            } else {
                assert(before.push(piece) =~= before + pieces_from(s@, i as int));
            }
            assert(all[before.len() as int] == piece);
        }
        let is_dot = kind == 0 && e - i == 1;
        proof {
            if kind == 0 {
                if e - i == 1 {
                    assert(piece == "."@);
                } else {
                    assert(piece.len() != 1);
                    assert(piece != "."@);
                }
            }
        }
        if kind == 1 || (i == 0 && is_dot) {
            bad = true;
        }
        proof {
            let nb = before.push(piece);
            if !bad {
                assert(piece != ".."@);
                assert forall|j: int| 0 <= j < nb.len() implies nb[j] != ".."@ by {
                    if j < before.len() {
                        assert(nb[j] == before[j]);
                    }
                }
            }
            before = nb;
        }
        if e == s.len() {
            proof {
                assert(before =~= all);
            }
            break;
        }
        i = e + 1;
    }
    if bad {
        return Err(plain_error(ErrorKind::CacheObjectPathInvalidComponent));
    }
    Ok(())
}

/// Refuses a path that leaves the root it must stay under (paths compared
/// as clean paths, name by name).
pub fn ensure_path_within_root(root: &str, path: &str) -> (r: Result<(), UcError>)
    ensures
        path_within(path@, root@) ==> r is Ok,
        !path_within(path@, root@) ==> r is Err && (r->Err_0.kind matches ErrorKind::PathEscapesRoot {
            path: p,
            root: q,
        } && p@ == path@ && q@ == root@),
{
    let pv = chars_of(path);
    let rv = chars_of(root);
    if path_within_exec(&pv, &rv) {
        return Ok(());
    }
    Err(
        plain_error(
            ErrorKind::PathEscapesRoot { path: string_from_chars(&pv), root: string_from_chars(&rv) },
        ),
    )
}


/// The pieces of `path` between its `/` separators.
pub fn path_pieces(path: &str) -> (v: Vec<Vec<char>>)
    ensures
        v@.map_values(|q: Vec<char>| q@) == pieces(path@),
{
    let s = chars_of(path);
    let ghost all = pieces(path@);
    let mut out: Vec<Vec<char>> = Vec::new();
    let mut i: usize = 0;
    loop
        invariant_except_break
            out@.map_values(|q: Vec<char>| q@) + pieces_from(s@, i as int) == all,
        invariant
            i <= s@.len(),
            s@ == path@,
            all == pieces(path@),
        ensures
            out@.map_values(|q: Vec<char>| q@) == all,
        decreases s@.len() + 1 - i,
    {
        proof {
            lemma_pieces_step(s@, i as int);
        }
        let ghost before = out@.map_values(|q: Vec<char>| q@);
        let e = crate::versions::find_char_from_pub(&s, i, '/');
        let ghost piece = s@.subrange(i as int, e as int);
        let mut q: Vec<char> = Vec::new();
        let mut k: usize = i;
        while k < e
            invariant
                i <= k <= e,
                e <= s@.len(),
                q@ == s@.subrange(i as int, k as int),
            decreases e - k,
        {
            q.push(s[k]);
            k = k + 1;
            assert(q@ =~= s@.subrange(i as int, k as int));
        }
        out.push(q);
        proof {
            assert(out@.map_values(|q: Vec<char>| q@) =~= before.push(piece));
            if e < s@.len() {
                assert(before.push(piece) + pieces_from(s@, e + 1) =~= before + pieces_from(
                    s@,
                    i as int,
                ));
            } else {
                assert(before.push(piece) =~= before + pieces_from(s@, i as int));
            }
        }
        if e == s.len() {
            break;
        }
        i = e + 1;
    }
    out
}

} // verus!
