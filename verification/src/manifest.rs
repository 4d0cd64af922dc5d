use vstd::prelude::*;
use crate::documents::{parse_toml_document, parsed_toml};
use crate::errors::{plain_error, ErrorKind, UcError};
use crate::surface::{copy_str, strings_view};
use crate::path_parts::{join_path, joined_path, parent_path, path_parent};
use crate::text::{chars_of, str_eq, string_from_range, trim, trim_bounds};

verus! {

/// A TOML value as far as the manifest checks read it: strings, booleans,
/// tables (their entries in order, keys unique) and arrays; other values
/// are told apart from these only.
#[derive(Debug)]
pub enum TomlNode {
    Str(String),
    Bool(bool),
    Table(Vec<(String, TomlNode)>),
    Array(Vec<TomlNode>),
    Other,
}

/// The entry of `table` under `key`, if any.
pub open spec fn table_get(table: Seq<(String, TomlNode)>, key: Seq<char>) -> Option<TomlNode>
    decreases table.len(),
{
    if table.len() == 0 {
        None
    } else if table[0].0@ == key {
        Some(table[0].1)
    } else {
        table_get(table.drop_first(), key)
    }
}

/// The entry under `key` of a table value; none for other values.
pub open spec fn node_get(n: TomlNode, key: Seq<char>) -> Option<TomlNode> {
    match n {
        TomlNode::Table(t) => table_get(t@, key),
        _ => None,
    }
}

/// The entry under `key` of an optional table value.
pub open spec fn opt_get(n: Option<TomlNode>, key: Seq<char>) -> Option<TomlNode> {
    match n {
        Some(x) => node_get(x, key),
        None => None,
    }
}

/// The text of an optional string value.
pub open spec fn opt_str(n: Option<TomlNode>) -> Option<Seq<char>> {
    match n {
        Some(TomlNode::Str(s)) => Some(s@),
        _ => None,
    }
}

/// An optional text, trimmed, unless it is blank.
pub open spec fn trimmed_nonblank(s: Option<Seq<char>>) -> Option<Seq<char>> {
    match s {
        Some(t) => if trim(t).len() > 0 {
            Some(trim(t))
        } else {
            None
        },
        None => None,
    }
}

pub(crate) fn lookup<'a>(table: &'a Vec<(String, TomlNode)>, key: &str) -> (r: Option<&'a TomlNode>)
    ensures
        match r {
            Some(n) => table_get(table@, key@) == Some(*n),
            None => table_get(table@, key@) is None,
        },
{
    let mut i: usize = 0;
    assert(table@.skip(0) =~= table@);
    while i < table.len()
        invariant
            i <= table@.len(),
            table_get(table@, key@) == table_get(table@.skip(i as int), key@),
        decreases table@.len() - i,
    {
        assert(table@.skip(i as int).drop_first() =~= table@.skip(i + 1));
        assert(table@.skip(i as int)[0] == table@[i as int]);
        if str_eq(table[i].0.as_str(), key) {
            return Some(&table[i].1);
        }
        i = i + 1;
    }
    assert(table@.skip(i as int) =~= Seq::<(String, TomlNode)>::empty());
    None
}

pub(crate) fn get<'a>(n: &'a TomlNode, key: &str) -> (r: Option<&'a TomlNode>)
    ensures
        match r {
            Some(x) => node_get(*n, key@) == Some(*x),
            None => node_get(*n, key@) is None,
        },
{
    match n {
        TomlNode::Table(t) => lookup(t, key),
        _ => None,
    }
}

fn get_opt<'a>(n: Option<&'a TomlNode>, key: &str) -> (r: Option<&'a TomlNode>)
    ensures
        match r {
            Some(x) => opt_get(
                match n {
                    Some(m) => Some(*m),
                    None => None,
                },
                key@,
            ) == Some(*x),
            None => opt_get(
                match n {
                    Some(m) => Some(*m),
                    None => None,
                },
                key@,
            ) is None,
        },
{
    match n {
        Some(m) => get(m, key),
        None => None,
    }
}

fn str_of(n: Option<&TomlNode>) -> (r: Option<String>)
    ensures
        match r {
            Some(s) => opt_str(
                match n {
                    Some(m) => Some(*m),
                    None => None,
                },
            ) == Some(s@),
            None => opt_str(
                match n {
                    Some(m) => Some(*m),
                    None => None,
                },
            ) is None,
        },
{
    match n {
        Some(TomlNode::Str(s)) => Some(copy_str(s.as_str())),
        _ => None,
    }
}

pub(crate) fn trim_nonblank(s: Option<String>) -> (r: Option<String>)
    ensures
        match r {
            Some(t) => trimmed_nonblank(
                match s {
                    Some(x) => Some(x@),
                    None => None,
                },
            ) == Some(t@),
            None => trimmed_nonblank(
                match s {
                    Some(x) => Some(x@),
                    None => None,
                },
            ) is None,
        },
{
    match s {
        None => None,
        Some(x) => {
            let v = chars_of(x.as_str());
            let (a, b) = trim_bounds(&v);
            if a == b {
                None
            } else {
                Some(string_from_range(&v, a, b))
            }
        },
    }
}

/// The package name of a manifest (`package.name`), trimmed, unless blank.
pub fn native_manifest_package_name(manifest: &TomlNode) -> (r: Option<String>)
    ensures
        match trimmed_nonblank(opt_str(opt_get(node_get(*manifest, "package"@), "name"@))) {
            Some(t) => r is Some && r->0@ == t,
            None => r is None,
        },
{
    let package = get(manifest, "package");
    trim_nonblank(str_of(get_opt(package, "name")))
}

/// The Cairo version a manifest's package asks for: `package.cairo-version`
/// when that key exists, else `package.cairo_version`; trimmed, unless
/// blank or not a string.
pub fn manifest_package_cairo_version(manifest: &TomlNode) -> (r: Option<String>)
    ensures
        ({
            let package = node_get(*manifest, "package"@);
            let entry = if opt_get(package, "cairo-version"@) is Some {
                opt_get(package, "cairo-version"@)
            } else {
                opt_get(package, "cairo_version"@)
            };
            match trimmed_nonblank(opt_str(entry)) {
                Some(t) => r is Some && r->0@ == t,
                None => r is None,
            }
        }),
{
    let package = get(manifest, "package");
    let entry = match get_opt(package, "cairo-version") {
        Some(e) => Some(e),
        None => get_opt(package, "cairo_version"),
    };
    trim_nonblank(str_of(entry))
}

/// Whether a manifest has a `workspace` key at all.
pub fn manifest_has_workspace_table(manifest: &TomlNode) -> (b: bool)
    ensures
        b == (node_get(*manifest, "workspace"@) is Some),
{
    get(manifest, "workspace").is_some()
}

/// Whether an array entry of `workspace.members` names the manifest's own
/// directory (`.` or `./`, trimmed).
pub open spec fn is_self_member(n: TomlNode) -> bool {
    match n {
        TomlNode::Str(s) => trim(s@) == "."@ || trim(s@) == "./"@,
        _ => false,
    }
}

/// Whether a native build can handle the manifest's workspace layout: the
/// manifest has a package table and a workspace table whose members, when
/// listed, are only the package itself.
pub open spec fn workspace_mode_supported(manifest: TomlNode) -> bool {
    match node_get(manifest, "package"@) {
        Some(TomlNode::Table(_)) => match node_get(manifest, "workspace"@) {
            Some(TomlNode::Table(w)) => match table_get(w@, "members"@) {
                None => true,
                Some(TomlNode::Array(members)) => members@.len() > 0 && forall|i: int|
                    0 <= i < members@.len() ==> is_self_member(#[trigger] members@[i]),
                Some(_) => false,
            },
            _ => false,
        },
        _ => false,
    }
}

fn all_self_members(members: &Vec<TomlNode>) -> (b: bool)
    ensures
        b == forall|i: int| 0 <= i < members@.len() ==> is_self_member(#[trigger] members@[i]),
{
    let dot = chars_of(".");
    let dot_slash = chars_of("./");
    let mut i: usize = 0;
    while i < members.len()
        invariant
            i <= members@.len(),
            dot@ == "."@,
            dot_slash@ == "./"@,
            forall|j: int| 0 <= j < i ==> is_self_member(#[trigger] members@[j]),
        decreases members@.len() - i,
    {
        match &members[i] {
            TomlNode::Str(s) => {
                let v = chars_of(s.as_str());
                let (a, b) = trim_bounds(&v);
                let t = string_from_range(&v, a, b);
                let tc = chars_of(t.as_str());
                let is_dot = crate::text::range_eq(&tc, 0, tc.len(), &dot);
                let is_dot_slash = crate::text::range_eq(&tc, 0, tc.len(), &dot_slash);
                assert(tc@.subrange(0, tc@.len() as int) =~= tc@);
                if !(is_dot || is_dot_slash) {
                    assert(!is_self_member(members@[i as int]));
                    return false;
                }
            },
            _ => {
                assert(!is_self_member(members@[i as int]));
                return false;
            },
        }
        i = i + 1;
    }
    true
}

/// Decides whether a native build handles the manifest's workspace layout.
pub fn native_manifest_workspace_mode_supported(manifest: &TomlNode) -> (b: bool)
    ensures
        b == workspace_mode_supported(*manifest),
{
    match get(manifest, "package") {
        Some(TomlNode::Table(_)) => {},
        _ => {
            return false;
        },
    }
    let w = match get(manifest, "workspace") {
        Some(TomlNode::Table(w)) => w,
        _ => {
            return false;
        },
    };
    match lookup(w, "members") {
        None => true,
        Some(TomlNode::Array(members)) => members.len() > 0 && all_self_members(members),
        Some(_) => false,
    }
}

/// The entry for `name` in a manifest's `workspace.dependencies`.
pub open spec fn workspace_dependency_entry(manifest: TomlNode, name: Seq<char>) -> Option<TomlNode> {
    opt_get(opt_get(node_get(manifest, "workspace"@), "dependencies"@), name)
}

/// Looks `name` up in a manifest's `workspace.dependencies`.
pub fn native_workspace_dependency_entry_from_manifest<'a>(manifest: &'a TomlNode, name: &str) -> (r:
    Option<&'a TomlNode>)
    ensures
        match r {
            Some(n) => workspace_dependency_entry(*manifest, name@) == Some(*n),
            None => workspace_dependency_entry(*manifest, name@) is None,
        },
{
    let w = get(manifest, "workspace");
    let d = get_opt(w, "dependencies");
    get_opt(d, name)
}

/// Looks `name` up in a manifest's `workspace.dependencies`, then in the
/// fallback workspace manifest's.
pub fn native_workspace_dependency_entry<'a>(
    manifest: &'a TomlNode,
    fallback: Option<&'a TomlNode>,
    name: &str,
) -> (r: Option<&'a TomlNode>)
    ensures
        ({
            let expected = match workspace_dependency_entry(*manifest, name@) {
                Some(e) => Some(e),
                None => match fallback {
                    Some(f) => workspace_dependency_entry(*f, name@),
                    None => None,
                },
            };
            match r {
                Some(n) => expected == Some(*n),
                None => expected is None,
            }
        }),
{
    match native_workspace_dependency_entry_from_manifest(manifest, name) {
        Some(e) => Some(e),
        None => match fallback {
            Some(f) => native_workspace_dependency_entry_from_manifest(f, name),
            None => None,
        },
    }
}

/// The local path of a dependency, and whether it is relative to the
/// workspace root: the dependency's own non-blank `path` (trimmed, not
/// workspace-relative), else, for `workspace = true`, the non-blank `path`
/// of its workspace entry (trimmed, workspace-relative).
pub open spec fn dependency_path(
    manifest: TomlNode,
    fallback: Option<TomlNode>,
    name: Seq<char>,
    value: TomlNode,
) -> Option<(Seq<char>, bool)> {
    match value {
        TomlNode::Table(t) => {
            let own = trimmed_nonblank(opt_str(table_get(t@, "path"@)));
            if own is Some {
                Some((own->0, false))
            } else if table_get(t@, "workspace"@) == Some(TomlNode::Bool(true)) {
                let entry = match workspace_dependency_entry(manifest, name) {
                    Some(e) => Some(e),
                    None => match fallback {
                        Some(f) => workspace_dependency_entry(f, name),
                        None => None,
                    },
                };
                match trimmed_nonblank(opt_str(opt_get(entry, "path"@))) {
                    Some(p) => Some((p, true)),
                    None => None,
                }
            } else {
                None
            }
        },
        _ => None,
    }
}

/// Finds the local path of a dependency.
pub fn native_dependency_path_from_value(
    manifest: &TomlNode,
    fallback: Option<&TomlNode>,
    name: &str,
    value: &TomlNode,
) -> (r: Option<(String, bool)>)
    ensures
        match dependency_path(
            *manifest,
            match fallback {
                Some(f) => Some(*f),
                None => None,
            },
            name@,
            *value,
        ) {
            Some((p, w)) => match r {
                Some((rp, rw)) => rp@ == p && rw == w,
                None => false,
            },
            None => r is None,
        },
{
    let t = match value {
        TomlNode::Table(t) => t,
        _ => {
            return None;
        },
    };
    match trim_nonblank(str_of(lookup(t, "path"))) {
        Some(p) => {
            return Some((p, false));
        },
        None => {},
    }
    let flag = match lookup(t, "workspace") {
        Some(TomlNode::Bool(b)) => *b,
        _ => false,
    };
    if !flag {
        return None;
    }
    let entry = native_workspace_dependency_entry(manifest, fallback, name);
    match trim_nonblank(str_of(get_opt(entry, "path"))) {
        Some(p) => Some((p, true)),
        None => None,
    }
}

/// Whether a table holds `key`.
pub open spec fn table_has(t: Option<TomlNode>, key: Seq<char>) -> bool {
    match t {
        Some(TomlNode::Table(entries)) => table_get(entries@, key) is Some,
        _ => false,
    }
}

/// Refuses a manifest whose package (`package.name`, when a string) lists
/// itself in `[dependencies]` or, after that, in `[dev-dependencies]`.
pub fn validate_manifest_dependency_sanity_from_manifest(manifest_path: &str, manifest: &TomlNode) -> (r:
    Result<(), UcError>)
    ensures
        match opt_str(opt_get(node_get(*manifest, "package"@), "name"@)) {
            None => r is Ok,
            Some(name) => if table_has(node_get(*manifest, "dependencies"@), name) {
                r is Err && (r->Err_0.kind matches ErrorKind::ManifestSelfDependency {
                    manifest_path: m,
                    package: p,
                    section: s,
                } && m@ == manifest_path@ && p@ == name && s@ == "dependencies"@)
            } else if table_has(node_get(*manifest, "dev-dependencies"@), name) {
                r is Err && (r->Err_0.kind matches ErrorKind::ManifestSelfDependency {
                    manifest_path: m,
                    package: p,
                    section: s,
                } && m@ == manifest_path@ && p@ == name && s@ == "dev-dependencies"@)
            } else {
                r is Ok
            },
        },
{
    let name = match str_of(get_opt(get(manifest, "package"), "name")) {
        None => {
            return Ok(());
        },
        Some(n) => n,
    };
    match get(manifest, "dependencies") {
        Some(TomlNode::Table(t)) => {
            if lookup(t, name.as_str()).is_some() {
                return Err(
                    plain_error(
                        ErrorKind::ManifestSelfDependency {
                            manifest_path: copy_str(manifest_path),
                            package: name,
                            section: String::from_str("dependencies"),
                        },
                    ),
                );
            }
        },
        _ => {},
    }
    match get(manifest, "dev-dependencies") {
        Some(TomlNode::Table(t)) => {
            if lookup(t, name.as_str()).is_some() {
                return Err(
                    plain_error(
                        ErrorKind::ManifestSelfDependency {
                            manifest_path: copy_str(manifest_path),
                            package: name,
                            section: String::from_str("dev-dependencies"),
                        },
                    ),
                );
            }
        },
        _ => {},
    }
    Ok(())
}

/// The Starknet contract target settings: `sierra` (default on) and `casm`
/// (default off), read from `[target.starknet-contract]` or from a single
/// `[[target.starknet-contract]]` entry.
pub open spec fn starknet_target_props(manifest: TomlNode) -> Result<(bool, bool), ErrorKind> {
    match opt_get(node_get(manifest, "target"@), "starknet-contract"@) {
        None => Ok((true, false)),
        Some(target) => {
            let props: Result<Seq<(String, TomlNode)>, ErrorKind> = match target {
                TomlNode::Table(t) => Ok(t@),
                TomlNode::Array(entries) => if entries@.len() != 1 {
                    Err(ErrorKind::StarknetTargetMultipleEntries)
                } else {
                    match entries@[0] {
                        TomlNode::Table(t) => Ok(t@),
                        _ => Err(ErrorKind::StarknetTargetEntryNotTable),
                    }
                },
                _ => Err(ErrorKind::StarknetTargetUnexpectedShape),
            };
            match props {
                Err(k) => Err(k),
                Ok(p) => {
                    let sierra = match table_get(p, "sierra"@) {
                        None => Some(true),
                        Some(TomlNode::Bool(b)) => Some(b),
                        Some(_) => None,
                    };
                    let casm = match table_get(p, "casm"@) {
                        None => Some(false),
                        Some(TomlNode::Bool(b)) => Some(b),
                        Some(_) => None,
                    };
                    if sierra is None {
                        Err(ErrorKind::StarknetTargetSierraNotBool)
                    } else if casm is None {
                        Err(ErrorKind::StarknetTargetCasmNotBool)
                    } else {
                        Ok((sierra->0, casm->0))
                    }
                },
            }
        },
    }
}

/// Reads the Starknet contract target settings: (sierra, casm).
pub fn resolve_manifest_native_starknet_target_props(manifest: &TomlNode) -> (r: Result<
    (bool, bool),
    UcError,
>)
    ensures
        match starknet_target_props(*manifest) {
            Ok(v) => r == Ok::<(bool, bool), UcError>(v),
            Err(k) => r is Err && r->Err_0.kind == k,
        },
{
    let target = match get_opt(get(manifest, "target"), "starknet-contract") {
        None => {
            return Ok((true, false));
        },
        Some(t) => t,
    };
    let props = match target {
        TomlNode::Table(t) => t,
        TomlNode::Array(entries) => {
            if entries.len() != 1 {
                return Err(plain_error(ErrorKind::StarknetTargetMultipleEntries));
            }
            match &entries[0] {
                TomlNode::Table(t) => t,
                _ => {
                    return Err(plain_error(ErrorKind::StarknetTargetEntryNotTable));
                },
            }
        },
        _ => {
            return Err(plain_error(ErrorKind::StarknetTargetUnexpectedShape));
        },
    };
    let sierra = match lookup(props, "sierra") {
        None => true,
        Some(TomlNode::Bool(b)) => *b,
        Some(_) => {
            return Err(plain_error(ErrorKind::StarknetTargetSierraNotBool));
        },
    };
    let casm = match lookup(props, "casm") {
        None => false,
        Some(TomlNode::Bool(b)) => *b,
        Some(_) => {
            return Err(plain_error(ErrorKind::StarknetTargetCasmNotBool));
        },
    };
    Ok((sierra, casm))
}

/// The Cairo edition and language version of a build: each from its
/// environment setting (`CAIRO_EDITION`, `CAIRO_LANG_VERSION`, raw) when
/// not blank, trimmed; else the edition from `package.edition` and the
/// language version from `cairo.language-version` when that key exists,
/// else `cairo.version`.
pub fn resolve_manifest_cairo_settings_from_manifest(
    manifest: &TomlNode,
    edition_env: Option<&str>,
    lang_version_env: Option<&str>,
) -> (r: (Option<String>, Option<String>))
    ensures
        ({
            let edition = match trimmed_nonblank(
                match edition_env {
                    Some(s) => Some(s@),
                    None => None,
                },
            ) {
                Some(e) => Some(e),
                None => opt_str(opt_get(node_get(*manifest, "package"@), "edition"@)),
            };
            let cairo = node_get(*manifest, "cairo"@);
            let lang_entry = if opt_get(cairo, "language-version"@) is Some {
                opt_get(cairo, "language-version"@)
            } else {
                opt_get(cairo, "version"@)
            };
            let lang = match trimmed_nonblank(
                match lang_version_env {
                    Some(s) => Some(s@),
                    None => None,
                },
            ) {
                Some(l) => Some(l),
                None => opt_str(lang_entry),
            };
            &&& match edition {
                Some(e) => r.0 is Some && r.0->0@ == e,
                None => r.0 is None,
            }
            &&& match lang {
                Some(l) => r.1 is Some && r.1->0@ == l,
                None => r.1 is None,
            }
        }),
{
    let edition = match trim_nonblank(
        match edition_env {
            Some(s) => Some(copy_str(s)),
            None => None,
        },
    ) {
        Some(e) => Some(e),
        None => str_of(get_opt(get(manifest, "package"), "edition")),
    };
    let cairo = get(manifest, "cairo");
    let lang_entry = match get_opt(cairo, "language-version") {
        Some(e) => Some(e),
        None => get_opt(cairo, "version"),
    };
    let lang = match trim_nonblank(
        match lang_version_env {
            Some(s) => Some(copy_str(s)),
            None => None,
        },
    ) {
        Some(l) => Some(l),
        None => str_of(lang_entry),
    };
    (edition, lang)
}


/// The version of the core library's manifest (`package.version`),
/// trimmed, unless blank.
pub fn native_corelib_manifest_version(manifest: &TomlNode) -> (r: Option<String>)
    ensures
        match trimmed_nonblank(opt_str(opt_get(node_get(*manifest, "package"@), "version"@))) {
            Some(t) => r is Some && r->0@ == t,
            None => r is None,
        },
{
    let package = get(manifest, "package");
    trim_nonblank(str_of(get_opt(package, "version")))
}

/// The path of a dependency entry that is a table with a `path` string.
pub open spec fn entry_path(n: TomlNode) -> Option<Seq<char>> {
    opt_str(node_get(n, "path"@))
}

/// The directories of the path dependencies a table lists, in order, each
/// joined onto `dir`.
pub open spec fn table_path_dirs(dir: Seq<char>, t: Seq<(String, TomlNode)>) -> Seq<Seq<char>>
    decreases t.len(),
{
    if t.len() == 0 {
        Seq::empty()
    } else {
        table_path_dirs(dir, t.drop_last()) + match entry_path(t.last().1) {
            Some(p) => seq![joined_path(dir, p)],
            None => Seq::empty(),
        }
    }
}

/// The path dependency directories of an optional dependency table.
pub open spec fn section_path_dirs(dir: Seq<char>, n: Option<TomlNode>) -> Seq<Seq<char>> {
    match n {
        Some(TomlNode::Table(t)) => table_path_dirs(dir, t@),
        _ => Seq::empty(),
    }
}

/// The directories of a manifest's path dependencies: those of its
/// `dependencies`, `dev-dependencies`, `build-dependencies` and
/// `workspace.dependencies` tables, in that order, each relative to the
/// manifest's directory (`.` when the path has none).
pub open spec fn manifest_dependency_dirs(manifest_path: Seq<char>, manifest: TomlNode) -> Seq<Seq<char>> {
    let dir = match parent_path(manifest_path) {
        Some(p) => p,
        None => "."@,
    };
    section_path_dirs(dir, node_get(manifest, "dependencies"@)) + section_path_dirs(
        dir,
        node_get(manifest, "dev-dependencies"@),
    ) + section_path_dirs(dir, node_get(manifest, "build-dependencies"@)) + section_path_dirs(
        dir,
        opt_get(node_get(manifest, "workspace"@), "dependencies"@),
    )
}

fn push_section_dirs(out: &mut Vec<String>, dir: &str, n: Option<&TomlNode>)
    ensures
        strings_view(final(out)@) == strings_view(old(out)@) + section_path_dirs(
            dir@,
            match n {
                Some(m) => Some(*m),
                None => None,
            },
        ),
{
    let ghost start = strings_view(out@);
    match n {
        Some(TomlNode::Table(t)) => {
            let mut i: usize = 0;
            while i < t.len()
                invariant
                    i <= t@.len(),
                    strings_view(out@) == start + table_path_dirs(dir@, t@.take(i as int)),
                decreases t@.len() - i,
            {
                assert(t@.take(i + 1).drop_last() =~= t@.take(i as int));
                assert(t@.take(i + 1).last() == t@[i as int]);
                let ghost before = strings_view(out@);
                match str_of(get(&t[i].1, "path")) {
                    Some(p) => {
                        out.push(join_path(dir, p.as_str()));
                        assert(strings_view(out@) =~= before + seq![joined_path(dir@, p@)]);
                    },
                    None => {
                        assert(strings_view(out@) =~= before + Seq::<Seq<char>>::empty());
                    },
                }
                i = i + 1;
            }
            assert(t@.take(i as int) =~= t@);
        },
        _ => {
            assert(strings_view(out@) =~= start + Seq::<Seq<char>>::empty());
        },
    }
}

/// The directories of a manifest's path dependencies.
pub fn manifest_path_dependency_dirs(manifest_path: &str, manifest: &TomlNode) -> (dirs: Vec<String>)
    ensures
        strings_view(dirs@) == manifest_dependency_dirs(manifest_path@, *manifest),
{
    let dir = match path_parent(manifest_path) {
        Some(p) => p,
        None => String::from_str("."),
    };
    let mut out: Vec<String> = Vec::new();
    assert(strings_view(out@) =~= Seq::<Seq<char>>::empty());
    push_section_dirs(&mut out, dir.as_str(), get(manifest, "dependencies"));
    push_section_dirs(&mut out, dir.as_str(), get(manifest, "dev-dependencies"));
    push_section_dirs(&mut out, dir.as_str(), get(manifest, "build-dependencies"));
    let workspace = get(manifest, "workspace");
    push_section_dirs(&mut out, dir.as_str(), get_opt(workspace, "dependencies"));
    assert(strings_view(out@) =~= manifest_dependency_dirs(manifest_path@, *manifest));
    out
}

/// Whether a manifest text parses as TOML with a top-level `workspace` key;
/// an unparsable text has none.
pub fn manifest_text_has_workspace_table(text: &str) -> (b: bool)
    ensures
        b == match parsed_toml(text@) {
            Some(m) => node_get(m, "workspace"@) is Some,
            None => false,
        },
{
    match parse_toml_document(text) {
        Some(m) => manifest_has_workspace_table(&m),
        None => false,
    }
}

/// The package version of a corelib manifest text, trimmed, unless the
/// text does not parse or the version is missing or blank.
pub fn native_corelib_manifest_version_from_text(text: &str) -> (r: Option<String>)
    ensures
        match parsed_toml(text@) {
            Some(m) => match trimmed_nonblank(opt_str(opt_get(node_get(m, "package"@), "version"@))) {
                Some(t) => r is Some && r->0@ == t,
                None => r is None,
            },
            None => r is None,
        },
{
    match parse_toml_document(text) {
        Some(m) => native_corelib_manifest_version(&m),
        None => None,
    }
}

/// The path-dependency directories that a manifest text declares, each
/// joined onto the manifest's directory; none for a text that does not
/// parse.
pub fn manifest_path_dependency_dirs_from_text(manifest_path: &str, text: &str) -> (dirs: Vec<
    String,
>)
    ensures
        strings_view(dirs@) == match parsed_toml(text@) {
            Some(m) => manifest_dependency_dirs(manifest_path@, m),
            None => Seq::<Seq<char>>::empty(),
        },
{
    match parse_toml_document(text) {
        Some(m) => manifest_path_dependency_dirs(manifest_path, &m),
        None => {
            let out: Vec<String> = Vec::new();
            assert(strings_view(out@) =~= Seq::<Seq<char>>::empty());
            out
        },
    }
}

} // verus!
