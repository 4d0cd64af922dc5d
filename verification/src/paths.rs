use vstd::prelude::*;
use crate::text::{chars_of, eq_ignore_ascii_case, push_char, push_str, str_eq, string_from_chars};

verus! {

/// The position of the last `c` in `s`, or -1.
pub open spec fn last_index_of(s: Seq<char>, c: char) -> int
    decreases s.len(),
{
    if s.len() == 0 {
        -1
    } else if s.last() == c {
        s.len() - 1
    } else {
        last_index_of(s.drop_last(), c)
    }
}

proof fn lemma_last_index_of(s: Seq<char>, c: char)
    ensures
        -1 <= last_index_of(s, c) < s.len(),
        last_index_of(s, c) >= 0 ==> s[last_index_of(s, c)] == c,
        forall|j: int| last_index_of(s, c) < j < s.len() ==> #[trigger] s[j] != c,
    decreases s.len(),
{
    if s.len() > 0 && s.last() != c {
        lemma_last_index_of(s.drop_last(), c);
        assert forall|j: int| last_index_of(s, c) < j < s.len() implies #[trigger] s[j] != c by {
            if j < s.len() - 1 {
                assert(s[j] == s.drop_last()[j]);
            }
        }
    }
}

/// The extension of a file name as `Path::extension` gives it: the part after
/// the last `.`, unless there is no `.` or the only one starts the name.
pub open spec fn file_extension(name: Seq<char>) -> Option<Seq<char>> {
    let i = last_index_of(name, '.');
    if i <= 0 {
        None
    } else {
        Some(name.subrange(i + 1, name.len() as int))
    }
}

/// The extension of `name` as a vector of characters.
pub fn extension_of(name: &str) -> (r: Option<Vec<char>>)
    ensures
        match file_extension(name@) {
            Some(e) => r is Some && r->0@ == e,
            None => r is None,
        },
{
    let chars = chars_of(name);
    let mut i: usize = chars.len();
    while i > 0 && chars[i - 1] != '.'
        invariant
            i <= chars@.len(),
            chars@ == name@,
            forall|j: int| i <= j < chars@.len() ==> #[trigger] chars@[j] != '.',
        decreases i,
    {
        i = i - 1;
    }
    proof {
        lemma_last_index_of(name@, '.');
        let k = last_index_of(name@, '.');
        if k >= i {
            assert(name@[k] == '.');
        }
        if i > 0 && k < i - 1 {
            assert(chars@[i - 1] == '.');
        }
        assert(k == i - 1);
    }
    if i <= 1 {
        return None;
    }
    let mut ext: Vec<char> = Vec::new();
    let mut j = i;
    while j < chars.len()
        invariant
            i <= j <= chars@.len(),
            ext@ == chars@.subrange(i as int, j as int),
        decreases chars@.len() - j,
    {
        ext.push(chars[j]);
        j = j + 1;
        assert(ext@ =~= chars@.subrange(i as int, j as int));
    }
    Some(ext)
}

/// Whether a file name has the extension `cairo`, in any ASCII case.
pub open spec fn has_cairo_extension(name: Option<Seq<char>>) -> bool {
    match name {
        Some(n) => match file_extension(n) {
            Some(e) => eq_ignore_ascii_case(e, "cairo"@),
            None => false,
        },
        None => false,
    }
}

pub open spec fn name_view(name: Option<&str>) -> Option<Seq<char>> {
    match name {
        Some(s) => Some(s@),
        None => None,
    }
}

/// Whether a file with this name is hashed as Cairo source.
pub fn is_cairo_file_name(file_name: Option<&str>) -> (b: bool)
    ensures
        b == has_cairo_extension(name_view(file_name)),
{
    match file_name {
        Some(n) => match extension_of(n) {
            Some(ext) => {
                let e = string_from_chars(&ext);
                crate::text::str_eq_ignore_ascii_case(e.as_str(), "cairo")
            },
            None => false,
        },
        None => false,
    }
}

/// `s` with a leading Windows verbatim prefix `\\?\` removed.
pub open spec fn strip_verbatim_prefix(s: Seq<char>) -> Seq<char> {
    if s.len() >= 4 && s.take(4) == seq!['\\', '\\', '?', '\\'] {
        s.skip(4)
    } else {
        s
    }
}

/// A path in the form that cache and fingerprint keys use: no verbatim
/// prefix, and forward slashes only.
pub open spec fn normalized_path(s: Seq<char>) -> Seq<char> {
    strip_verbatim_prefix(s).map_values(|c: char| if c == '\\' { '/' } else { c })
}

/// Normalises a path for use as a cache or fingerprint key.
pub fn normalize_fingerprint_path(path: &str) -> (n: String)
    ensures
        n@ == normalized_path(path@),
{
    let chars = chars_of(path);
    let start: usize = if chars.len() >= 4 && chars[0] == '\\' && chars[1] == '\\' && chars[2]
        == '?' && chars[3] == '\\' {
        4
    } else {
        0
    };
    proof {
        if chars@.len() >= 4 {
            if start == 0 {
                assert(chars@.take(4)[0] == chars@[0]);
                assert(chars@.take(4)[1] == chars@[1]);
                assert(chars@.take(4)[2] == chars@[2]);
                assert(chars@.take(4)[3] == chars@[3]);
            } else {
                assert(chars@.take(4) =~= seq!['\\', '\\', '?', '\\']);
            }
        }
        assert(strip_verbatim_prefix(path@) =~= chars@.subrange(start as int, chars@.len() as int));
    }
    let mut n = String::new();
    let mut i = start;
    while i < chars.len()
        invariant
            start <= i <= chars@.len(),
            n@ == chars@.subrange(start as int, i as int).map_values(
                |c: char| if c == '\\' { '/' } else { c },
            ),
        decreases chars@.len() - i,
    {
        let c = chars[i];
        push_char(&mut n, if c == '\\' { '/' } else { c });
        i = i + 1;
        assert(n@ =~= chars@.subrange(start as int, i as int).map_values(
            |c: char| if c == '\\' { '/' } else { c },
        ));
    }
    n
}

/// Normalising a key twice gives the same key as normalising it once.
pub proof fn lemma_normalized_path_idempotent(s: Seq<char>)
    ensures
        normalized_path(normalized_path(s)) == normalized_path(s),
{
    let n = normalized_path(s);
    assert forall|i: int| 0 <= i < n.len() implies n[i] != '\\' by {}
    if n.len() >= 4 && n.take(4) == seq!['\\', '\\', '?', '\\'] {
        assert(n.take(4)[0] == n[0]);
    }
    assert(strip_verbatim_prefix(n) == n);
    assert(n.map_values(|c: char| if c == '\\' { '/' } else { c }) =~= n);
}

/// The path a fingerprint key stands for: an absolute key as it is, a
/// relative one joined under the workspace root.
pub open spec fn key_path(root: Seq<char>, key: Seq<char>) -> Seq<char> {
    if key.len() > 0 && key[0] == '/' {
        key
    } else if root.len() == 0 {
        key
    } else if root.last() == '/' {
        root + key
    } else {
        root + seq!['/'] + key
    }
}

/// Resolves a fingerprint key against the workspace root.
pub fn fingerprint_key_path(workspace_root: &str, key: &str) -> (p: String)
    ensures
        p@ == key_path(workspace_root@, key@),
{
    let k = chars_of(key);
    let r = chars_of(workspace_root);
    if k.len() > 0 && k[0] == '/' {
        return string_from_chars(&k);
    }
    if r.len() == 0 {
        return string_from_chars(&k);
    }
    let mut p = string_from_chars(&r);
    if r[r.len() - 1] != '/' {
        push_char(&mut p, '/');
    }
    push_str(&mut p, key);
    p
}

/// Whether a directory walk skips this entry: never its root, else the
/// version control, build output and tool state directories.
pub open spec fn ignored_entry(is_root: bool, name: Option<Seq<char>>) -> bool {
    !is_root && match name {
        Some(n) => n == ".git"@ || n == "target"@ || n == ".scarb"@ || n == ".uc"@,
        None => false,
    }
}

/// Whether fingerprinting skips a directory entry (`is_root`: the entry is
/// the walk's root; `file_name`: its UTF-8 file name, if any).
pub fn is_ignored_entry(is_root: bool, file_name: Option<&str>) -> (b: bool)
    ensures
        b == ignored_entry(is_root, name_view(file_name)),
{
    if is_root {
        return false;
    }
    match file_name {
        Some(n) => str_eq(n, ".git") || str_eq(n, "target") || str_eq(n, ".scarb") || str_eq(
            n,
            ".uc",
        ),
        None => false,
    }
}

/// Whether a file feeds the build fingerprint: the manifests and lockfile by
/// name, and every file whose extension is exactly `cairo`.
pub open spec fn fingerprint_file(name: Option<Seq<char>>) -> bool {
    match name {
        Some(n) => n == "Scarb.toml"@ || n == "Scarb.lock"@ || n == "Uc.toml"@ || file_extension(n)
            == Some("cairo"@),
        None => false,
    }
}

/// Whether a file with this name is part of the build fingerprint.
pub fn should_include_fingerprint_file(file_name: Option<&str>) -> (b: bool)
    ensures
        b == fingerprint_file(name_view(file_name)),
{
    match file_name {
        Some(n) => {
            if str_eq(n, "Scarb.toml") || str_eq(n, "Scarb.lock") || str_eq(n, "Uc.toml") {
                return true;
            }
            match extension_of(n) {
                Some(ext) => {
                    let e = string_from_chars(&ext);
                    str_eq(e.as_str(), "cairo")
                },
                None => false,
            }
        },
        None => false,
    }
}

/// Whether cache eviction may delete a file: anything with a UTF-8 name
/// except the cache lock.
pub fn is_removable_cache_file(file_name: Option<&str>) -> (b: bool)
    ensures
        b == match name_view(file_name) {
            Some(n) => n != ".lock"@,
            None => false,
        },
{
    match file_name {
        Some(n) => !str_eq(n, ".lock"),
        None => false,
    }
}

} // verus!
