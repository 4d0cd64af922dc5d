use vstd::prelude::*;
use crate::artifact_paths::{path_pieces, pieces};
use crate::errors::{plain_error, ErrorKind, UcError};
use crate::fingerprint::opt_view;
use crate::impact::is_absolute_path;
use crate::paths::{has_cairo_extension, is_cairo_file_name, normalize_fingerprint_path, normalized_path};
use crate::surface::copy_str;
use crate::text::{chars_of, push_str, string_from_chars};

verus! {

/// The kind of a path component that starts at the root.
pub const ROOT_DIR: u8 = 0;

/// The kind of a leading `.` component.
pub const CUR_DIR: u8 = 1;

/// The kind of a `..` component.
pub const PARENT_DIR: u8 = 2;

/// The kind of a component that names a file or directory.
pub const NORMAL: u8 = 3;

/// The component that piece `i` of a path gives, if any: empty pieces and
/// `.` pieces vanish, but for a `.` that starts a relative path.
pub open spec fn piece_component(ps: Seq<Seq<char>>, i: int, absolute: bool) -> Seq<(u8, Seq<char>)> {
    let q = ps[i];
    if q.len() == 0 {
        Seq::empty()
    } else if q == "."@ {
        if i == 0 && !absolute {
            seq![(CUR_DIR, q)]
        } else {
            Seq::empty()
        }
    } else if q == ".."@ {
        seq![(PARENT_DIR, q)]
    } else {
        seq![(NORMAL, q)]
    }
}

/// The components of the first `n` pieces of a path.
pub open spec fn components_upto(ps: Seq<Seq<char>>, n: int, absolute: bool) -> Seq<(u8, Seq<char>)>
    decreases n,
{
    if n <= 0 {
        Seq::empty()
    } else {
        components_upto(ps, n - 1, absolute) + piece_component(ps, n - 1, absolute)
    }
}

/// The components of a Unix path as `Path::components` yields them, each as
/// its kind and text: the root when the path starts with `/`, then one
/// component per piece between separators, where repeated separators and
/// `.` pieces are dropped except a `.` that starts the path.
pub open spec fn path_components_spec(s: Seq<char>) -> Seq<(u8, Seq<char>)> {
    let absolute = is_absolute_path(s);
    (if absolute {
        seq![(ROOT_DIR, "/"@)]
    } else {
        Seq::empty()
    }) + components_upto(pieces(s), pieces(s).len() as int, absolute)
}

pub open spec fn components_view(v: Seq<(u8, String)>) -> Seq<(u8, Seq<char>)> {
    v.map_values(|c: (u8, String)| (c.0, c.1@))
}

/// The components of a path.
pub fn path_components(path: &str) -> (cs: Vec<(u8, String)>)
    ensures
        components_view(cs@) == path_components_spec(path@),
{
    proof {
        reveal_strlit(".");
        reveal_strlit("..");
        reveal_strlit("/");
    }
    let ps = path_pieces(path);
    let ghost psv = ps@.map_values(|q: Vec<char>| q@);
    let chars = chars_of(path);
    let absolute = chars.len() > 0 && chars[0] == '/';
    let mut cs: Vec<(u8, String)> = Vec::new();
    if absolute {
        cs.push((ROOT_DIR, String::from_str("/")));
    }
    let ghost head = components_view(cs@);
    assert(head == (if absolute {
        seq![(ROOT_DIR, "/"@)]
    } else {
        Seq::<(u8, Seq<char>)>::empty()
    }));
    let mut i: usize = 0;
    while i < ps.len()
        invariant
            i <= ps@.len(),
            psv == ps@.map_values(|q: Vec<char>| q@),
            psv == pieces(path@),
            absolute == is_absolute_path(path@),
            components_view(cs@) == head + components_upto(psv, i as int, absolute),
        decreases ps@.len() - i,
    {
        proof {
            reveal_strlit(".");
            reveal_strlit("..");
        }
        let ghost before = cs@;
        let q = &ps[i];
        assert(q@ == psv[i as int]);
        let n = q.len();
        if n == 0 {
        } else if n == 1 && q[0] == '.' {
            assert(q@ =~= "."@);
            if i == 0 && !absolute {
                cs.push((CUR_DIR, string_from_chars(q)));
            }
        } else if n == 2 && q[0] == '.' && q[1] == '.' {
            assert(q@ =~= ".."@);
            cs.push((PARENT_DIR, string_from_chars(q)));
        } else {
            assert(q@ != "."@ && q@ != ".."@) by {
                if q@ == "."@ {
                    assert(q@.len() == 1 && q@[0] == '.');
                }
                if q@ == ".."@ {
                    assert(q@.len() == 2 && q@[0] == '.' && q@[1] == '.');
                }
            }
            cs.push((NORMAL, string_from_chars(q)));
        }
        assert(components_view(cs@) =~= components_view(before) + piece_component(
            psv,
            i as int,
            absolute,
        ));
        i = i + 1;
    }
    cs
}

/// Whether some component has this kind.
pub open spec fn has_kind(cs: Seq<(u8, Seq<char>)>, kind: u8) -> bool {
    exists|i: int| 0 <= i < cs.len() && (#[trigger] cs[i]).0 == kind
}

/// Whether some component reads `text`.
pub open spec fn has_text(cs: Seq<(u8, Seq<char>)>, text: Seq<char>) -> bool {
    exists|i: int| 0 <= i < cs.len() && (#[trigger] cs[i]).1 == text
}

/// The file name of a path as `Path::file_name` gives it: its last
/// component, when that names a file or directory.
pub open spec fn file_name_of(cs: Seq<(u8, Seq<char>)>) -> Option<Seq<char>> {
    if cs.len() > 0 && cs.last().0 == NORMAL {
        Some(cs.last().1)
    } else {
        None
    }
}

/// What checking a native build profile name gives: refused when empty,
/// when it holds a NUL character, or unless it is a single plain name.
pub open spec fn profile_name_check(s: Seq<char>) -> Option<u8> {
    let cs = path_components_spec(s);
    if cs.len() == 0 {
        Some(0)
    } else if s.contains('\0') {
        Some(1)
    } else if cs.len() > 1 || cs[0].0 != NORMAL {
        Some(2)
    } else {
        None
    }
}

/// Checks that a native build profile is a single plain directory name.
pub fn validate_native_profile_name(profile: &str) -> (r: Result<(), UcError>)
    ensures
        profile_name_check(profile@) is None ==> r is Ok,
        profile_name_check(profile@) == Some(0u8) ==> r is Err && r->Err_0.kind
            is NativeProfileEmpty,
        profile_name_check(profile@) == Some(1u8) ==> r is Err && (r->Err_0.kind matches ErrorKind::NativeProfileNulByte {
            profile: p,
        } && p@ == profile@),
        profile_name_check(profile@) == Some(2u8) ==> r is Err && (r->Err_0.kind matches ErrorKind::NativeProfileInvalidComponent {
            profile: p,
        } && p@ == profile@),
{
    let cs = path_components(profile);
    assert(components_view(cs@).len() == cs@.len());
    if cs.len() > 0 {
        assert(components_view(cs@)[0] == (cs@[0].0, cs@[0].1@));
    }
    if cs.len() == 0 {
        return Err(plain_error(ErrorKind::NativeProfileEmpty));
    }
    let chars = chars_of(profile);
    let mut i: usize = 0;
    while i < chars.len()
        invariant
            i <= chars@.len(),
            chars@ == profile@,
            path_components_spec(profile@).len() > 0,
            forall|j: int| 0 <= j < i ==> chars@[j] != '\0',
        decreases chars@.len() - i,
    {
        if chars[i] == '\0' {
            assert(profile@.contains('\0')) by {
                assert(profile@[i as int] == '\0');
            }
            return Err(plain_error(ErrorKind::NativeProfileNulByte { profile: copy_str(profile) }));
        }
        i = i + 1;
    }
    assert(!profile@.contains('\0'));
    if cs.len() > 1 || cs[0].0 != NORMAL {
        return Err(
            plain_error(ErrorKind::NativeProfileInvalidComponent { profile: copy_str(profile) }),
        );
    }
    Ok(())
}

/// `path` joined onto `base` as `Path::join` does it on Unix: an absolute
/// `path` replaces `base`; otherwise a `/` separates them unless `base` is
/// empty or already ends with one.
pub open spec fn joined_path(base: Seq<char>, path: Seq<char>) -> Seq<char> {
    if is_absolute_path(path) {
        path
    } else if base.len() == 0 || base.last() == '/' {
        base + path
    } else {
        base + "/"@ + path
    }
}

/// Joins `path` onto `base`.
pub fn join_path(base: &str, path: &str) -> (p: String)
    ensures
        p@ == joined_path(base@, path@),
{
    proof {
        reveal_strlit("/");
    }
    let pc = chars_of(path);
    if pc.len() > 0 && pc[0] == '/' {
        return copy_str(path);
    }
    let bc = chars_of(base);
    let mut out = copy_str(base);
    if bc.len() > 0 && bc[bc.len() - 1] != '/' {
        push_str(&mut out, "/");
    }
    push_str(&mut out, path);
    out
}

/// What `Path::strip_prefix` leaves of `path` once `base` is taken off its
/// front, compared component by component; nothing when `base` is not a
/// prefix of it.
pub uninterp spec fn stripped_prefix(path: Seq<char>, base: Seq<char>) -> Option<Seq<char>>;

/// `Path::new(path).strip_prefix(base)`: the rest of `path` after `base`,
/// or `None` when `base` is not a prefix of it. The contract ties the
/// result to the two arguments only; which rest std gives (separators and
/// `.` pieces at its ends dropped) is left to std.
#[verifier::external_body]
pub(crate) fn strip_path_prefix(path: &str, base: &str) -> (r: Option<String>)
    ensures
        opt_view(r) == stripped_prefix(path@, base@),
{
    std::path::Path::new(path).strip_prefix(base).ok().map(|p| p.to_string_lossy().into_owned())
}

/// The workspace-relative key of a changed Cairo source file: `path`, made
/// absolute under `workspace_root` and taken relative to it when it lies
/// under it, is kept only if it does not climb out with `..`, passes
/// through a `src` directory and names a `.cairo` file.
pub open spec fn relative_cairo_path(root: Seq<char>, path: Seq<char>) -> Option<Seq<char>> {
    let absolute = if is_absolute_path(path) {
        path
    } else {
        joined_path(root, path)
    };
    let kept = match stripped_prefix(absolute, root) {
        Some(rest) => rest,
        None => absolute,
    };
    let cs = path_components_spec(kept);
    if !is_absolute_path(kept) && has_kind(cs, PARENT_DIR) {
        None
    } else if !has_text(cs, "src"@) {
        None
    } else if !has_cairo_extension(file_name_of(cs)) {
        None
    } else {
        Some(normalized_path(kept))
    }
}

/// The workspace-relative key of a changed Cairo source file, if it is
/// one.
pub fn native_workspace_relative_cairo_path(workspace_root: &str, path: &str) -> (r: Option<String>)
    ensures
        opt_view(r) == relative_cairo_path(workspace_root@, path@),
{
    let pc = chars_of(path);
    let absolute = if pc.len() > 0 && pc[0] == '/' {
        copy_str(path)
    } else {
        join_path(workspace_root, path)
    };
    let kept = match strip_path_prefix(absolute.as_str(), workspace_root) {
        Some(rest) => rest,
        None => absolute,
    };
    let cs = path_components(kept.as_str());
    let tc = chars_of(kept.as_str());
    let kept_absolute = tc.len() > 0 && tc[0] == '/';
    let ghost csv = components_view(cs@);
    let mut has_parent = false;
    let mut has_src = false;
    let mut i: usize = 0;
    while i < cs.len()
        invariant
            i <= cs@.len(),
            csv == components_view(cs@),
            has_parent == exists|j: int| 0 <= j < i && (#[trigger] csv[j]).0 == PARENT_DIR,
            has_src == exists|j: int| 0 <= j < i && (#[trigger] csv[j]).1 == "src"@,
        decreases cs@.len() - i,
    {
        assert(csv[i as int] == (cs@[i as int].0, cs@[i as int].1@));
        if cs[i].0 == PARENT_DIR {
            has_parent = true;
        }
        if crate::text::str_eq(cs[i].1.as_str(), "src") {
            has_src = true;
        }
        i = i + 1;
    }
    if !kept_absolute && has_parent {
        return None;
    }
    if !has_src {
        return None;
    }
    let name: Option<&str> = if cs.len() > 0 && cs[cs.len() - 1].0 == NORMAL {
        Some(cs[cs.len() - 1].1.as_str())
    } else {
        None
    };
    assert(crate::paths::name_view(name) == file_name_of(csv)) by {
        if cs@.len() > 0 {
            assert(csv.last() == (cs@.last().0, cs@.last().1@));
        }
    }
    if !is_cairo_file_name(name) {
        return None;
    }
    Some(normalize_fingerprint_path(kept.as_str()))
}


/// What `Path::parent` gives for a path: the path without its last
/// component, or nothing when it ends in the root or is empty.
pub uninterp spec fn parent_path(path: Seq<char>) -> Option<Seq<char>>;

/// `Path::new(path).parent()`: the path without its last component, or
/// `None` when it ends in the root or is empty. The contract ties the
/// result to the argument only; which text std gives (trailing separators
/// and `.` pieces dropped) is left to std.
#[verifier::external_body]
pub(crate) fn path_parent(path: &str) -> (r: Option<String>)
    ensures
        opt_view(r) == parent_path(path@),
{
    std::path::Path::new(path).parent().map(|p| p.to_string_lossy().into_owned())
}

/// The manifest of a dependency whose sources are at `source_root`: the
/// `Scarb.toml` next to that directory (in it, when it has no parent).
pub open spec fn dependency_manifest_path(source_root: Seq<char>) -> Seq<char> {
    joined_path(
        match parent_path(source_root) {
            Some(p) => p,
            None => source_root,
        },
        "Scarb.toml"@,
    )
}

/// The manifest of a dependency whose sources are at `source_root`.
pub fn native_dependency_manifest_path(source_root: &str) -> (p: String)
    ensures
        p@ == dependency_manifest_path(source_root@),
{
    let dir = match path_parent(source_root) {
        Some(p) => p,
        None => copy_str(source_root),
    };
    join_path(dir.as_str(), "Scarb.toml")
}

/// The target directory of a native build: `target/<profile>` under the
/// workspace, for a profile that is a single plain name.
pub fn native_target_dir(workspace_root: &str, profile: &str) -> (r: Result<String, UcError>)
    ensures
        profile_name_check(profile@) is None ==> r is Ok && r->Ok_0@ == joined_path(
            joined_path(workspace_root@, "target"@),
            profile@,
        ),
        profile_name_check(profile@) is Some ==> r is Err,
        profile_name_check(profile@) == Some(0u8) ==> r is Err && r->Err_0.kind
            is NativeProfileEmpty,
        profile_name_check(profile@) == Some(1u8) ==> r is Err && (r->Err_0.kind matches ErrorKind::NativeProfileNulByte {
            profile: p,
        } && p@ == profile@),
        profile_name_check(profile@) == Some(2u8) ==> r is Err && (r->Err_0.kind matches ErrorKind::NativeProfileInvalidComponent {
            profile: p,
        } && p@ == profile@),
{
    match validate_native_profile_name(profile) {
        Err(e) => {
            return Err(e);
        },
        Ok(()) => {},
    }
    let target = join_path(workspace_root, "target");
    Ok(join_path(target.as_str(), profile))
}

} // verus!
