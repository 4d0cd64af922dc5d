use vstd::prelude::*;
use crate::documents::{parse_toml_document, parsed_toml};
use crate::manifest::{get, node_get, opt_get, opt_str, TomlNode};
use crate::scarb_args::{join_strings, joined};
use crate::strorder::sorted_distinct;
use crate::surface::{chars_views, copy_str, sorted_strings, strings_view};
use crate::text::{chars_of, str_eq};

verus! {

/// The top-level manifest sections that `uc migrate` knows.
pub open spec fn is_known_section(k: Seq<char>) -> bool {
    ||| k == "package"@
    ||| k == "dependencies"@
    ||| k == "dev-dependencies"@
    ||| k == "workspace"@
    ||| k == "target"@
    ||| k == "scripts"@
    ||| k == "tool"@
    ||| k == "features"@
    ||| k == "patch"@
    ||| k == "cairo"@
    ||| k == "lib"@
    ||| k == "executable"@
    ||| k == "test"@
}

/// The sections that Scarb defines are never reported as unknown, whatever
/// else the manifest holds: `package`, `dependencies`, `dev-dependencies`,
/// `workspace`, `target`, `scripts`, `tool`, `features`, `patch`, `cairo`,
/// `lib`, `executable` and `test`. Any other top-level key of a table
/// manifest is reported.
pub proof fn lemma_scarb_sections_are_known(manifest: TomlNode, other: Seq<char>)
    ensures
        !unknown_keys(manifest).contains("package"@),
        !unknown_keys(manifest).contains("dependencies"@),
        !unknown_keys(manifest).contains("dev-dependencies"@),
        !unknown_keys(manifest).contains("workspace"@),
        !unknown_keys(manifest).contains("target"@),
        !unknown_keys(manifest).contains("scripts"@),
        !unknown_keys(manifest).contains("tool"@),
        !unknown_keys(manifest).contains("features"@),
        !unknown_keys(manifest).contains("patch"@),
        !unknown_keys(manifest).contains("cairo"@),
        !unknown_keys(manifest).contains("lib"@),
        !unknown_keys(manifest).contains("executable"@),
        !unknown_keys(manifest).contains("test"@),
        (manifest matches TomlNode::Table(t) && exists|i: int| 0 <= i < t@.len() && #[trigger] t@[i].0@ == other)
            && other != "package"@ && other != "dependencies"@ && other != "dev-dependencies"@ && other
            != "workspace"@ && other != "target"@ && other != "scripts"@ && other != "tool"@ && other
            != "features"@ && other != "patch"@ && other != "cairo"@ && other != "lib"@ && other
            != "executable"@ && other != "test"@ ==> unknown_keys(manifest).contains(other),
{
}

/// The number of entries of a table value; zero for anything else.
pub open spec fn table_len(n: Option<TomlNode>) -> nat {
    match n {
        Some(TomlNode::Table(t)) => t@.len(),
        _ => 0,
    }
}

/// The top-level keys of a manifest that name no known section.
pub open spec fn unknown_keys(manifest: TomlNode) -> Set<Seq<char>> {
    match manifest {
        TomlNode::Table(t) => Set::new(
            |k: Seq<char>|
                !is_known_section(k) && exists|i: int| 0 <= i < t@.len() && #[trigger] t@[i].0@ == k,
        ),
        _ => Set::empty(),
    }
}

/// The warnings of a migration report: a missing package name, a missing
/// edition, then the unknown sections, listed with `, `.
pub open spec fn migration_warnings(
    name: Option<Seq<char>>,
    edition: Option<Seq<char>>,
    unknown: Seq<Seq<char>>,
) -> Seq<Seq<char>> {
    (if name is None {
        seq!["missing [package].name"@]
    } else {
        Seq::empty()
    }) + (if edition is None {
        seq!["missing [package].edition"@]
    } else {
        Seq::empty()
    }) + (if unknown.len() > 0 {
        seq!["unknown top-level sections detected: "@ + joined(unknown, ", "@)]
    } else {
        Seq::empty()
    })
}

/// What `uc migrate` reads from a Scarb manifest.
pub struct MigrationSummary {
    pub package_name: Option<String>,
    pub package_version: Option<String>,
    pub edition: Option<String>,
    pub dependency_count: usize,
    pub dev_dependency_count: usize,
    pub unknown_sections: Vec<String>,
    pub warnings: Vec<String>,
}

pub open spec fn opt_string_view(s: Option<String>) -> Option<Seq<char>> {
    match s {
        Some(x) => Some(x@),
        None => None,
    }
}

/// The package field `key` of a manifest, when it is a string.
pub open spec fn package_field(manifest: TomlNode, key: Seq<char>) -> Option<Seq<char>> {
    opt_str(opt_get(node_get(manifest, "package"@), key))
}

fn is_known_section_name(k: &str) -> (b: bool)
    ensures
        b == is_known_section(k@),
{
    str_eq(k, "package") || str_eq(k, "dependencies") || str_eq(k, "dev-dependencies") || str_eq(
        k,
        "workspace",
    ) || str_eq(k, "target") || str_eq(k, "scripts") || str_eq(k, "tool") || str_eq(k, "features")
        || str_eq(k, "patch") || str_eq(k, "cairo") || str_eq(k, "lib") || str_eq(k, "executable")
        || str_eq(k, "test")
}

fn string_field(n: Option<&TomlNode>, key: &str) -> (r: Option<String>)
    ensures
        opt_string_view(r) == opt_str(
            match n {
                Some(x) => node_get(*x, key@),
                None => None,
            },
        ),
{
    match n {
        Some(x) => match get(x, key) {
            Some(TomlNode::Str(s)) => Some(copy_str(s.as_str())),
            _ => None,
        },
        None => None,
    }
}

fn table_entry_count(n: Option<&TomlNode>) -> (c: usize)
    ensures
        c == table_len(
            match n {
                Some(x) => Some(*x),
                None => None,
            },
        ),
{
    match n {
        Some(TomlNode::Table(t)) => t.len(),
        _ => 0,
    }
}

fn unknown_section_names(manifest: &TomlNode) -> (r: Vec<String>)
    ensures
        strings_view(r@) == sorted_distinct(unknown_keys(*manifest)),
{
    let mut found: Vec<Vec<char>> = Vec::new();
    match manifest {
        TomlNode::Table(t) => {
            let mut i: usize = 0;
            while i < t.len()
                invariant
                    i <= t.len(),
                    forall|k: Seq<char>|
                        #[trigger] chars_views(found@).to_set().contains(k) <==> (!is_known_section(k)
                            && exists|j: int| 0 <= j < i && #[trigger] t@[j].0@ == k),
                decreases t.len() - i,
            {
                let key = t[i].0.as_str();
                if !is_known_section_name(key) {
                    let old_found = Ghost(found@);
                    let kc = chars_of(key);
                    found.push(kc);
                    assert(chars_views(found@) =~= chars_views(old_found@).push(key@));
                    assert forall|k: Seq<char>|
                        #[trigger] chars_views(found@).to_set().contains(k) <==> (!is_known_section(k)
                            && exists|j: int| 0 <= j < i + 1 && #[trigger] t@[j].0@ == k) by {
                        if chars_views(found@).to_set().contains(k) {
                            if k == key@ {
                                assert(0 <= i < i + 1 && t@[i as int].0@ == k);
                            } else {
                                assert(chars_views(old_found@).to_set().contains(k)) by {
                                    let m = choose|m: int|
                                        0 <= m < chars_views(found@).len() && chars_views(
                                            found@,
                                        )[m] == k;
                                    assert(chars_views(old_found@)[m] == k);
                                }
                                let j = choose|j: int| 0 <= j < i && #[trigger] t@[j].0@ == k;
                                assert(0 <= j < i + 1 && t@[j].0@ == k);
                            }
                        }
                        if !is_known_section(k) && exists|j: int|
                            0 <= j < i + 1 && #[trigger] t@[j].0@ == k {
                            if k == key@ {
                                assert(chars_views(found@)[chars_views(found@).len() - 1] == k);
                            } else {
                                let j = choose|j: int| 0 <= j < i + 1 && #[trigger] t@[j].0@ == k;
                                assert(j < i);
                                assert(chars_views(old_found@).to_set().contains(k));
                                let m = choose|m: int|
                                    0 <= m < chars_views(old_found@).len() && chars_views(
                                        old_found@,
                                    )[m] == k;
                                assert(chars_views(found@)[m] == k);
                            }
                        }
                    }
                } else {
                    assert forall|k: Seq<char>|
                        #[trigger] chars_views(found@).to_set().contains(k) <==> (!is_known_section(k)
                            && exists|j: int| 0 <= j < i + 1 && #[trigger] t@[j].0@ == k) by {
                        if chars_views(found@).to_set().contains(k) {
                            let j = choose|j: int| 0 <= j < i && #[trigger] t@[j].0@ == k;
                            assert(0 <= j < i + 1 && t@[j].0@ == k);
                        }
                        if !is_known_section(k) && exists|j: int|
                            0 <= j < i + 1 && #[trigger] t@[j].0@ == k {
                            let j = choose|j: int| 0 <= j < i + 1 && #[trigger] t@[j].0@ == k;
                            assert(j != i);
                            assert(0 <= j < i && t@[j].0@ == k);
                        }
                    }
                }
                i = i + 1;
            }
            assert forall|k: Seq<char>|
                #[trigger] unknown_keys(*manifest).contains(k) <==> chars_views(found@).to_set().contains(k) by {
                if chars_views(found@).to_set().contains(k) {
                    let j = choose|j: int| 0 <= j < i && #[trigger] t@[j].0@ == k;
                    assert(0 <= j < t@.len() && t@[j].0@ == k);
                }
            }
            assert(chars_views(found@).to_set() =~= unknown_keys(*manifest));
        },
        _ => {
            assert(chars_views(found@).to_set() =~= unknown_keys(*manifest));
        },
    }
    sorted_strings(&found)
}

/// What a migration summary reports of a manifest.
pub open spec fn summarizes(manifest: TomlNode, s: MigrationSummary) -> bool {
    &&& opt_string_view(s.package_name) == package_field(manifest, "name"@)
    &&& opt_string_view(s.package_version) == package_field(manifest, "version"@)
    &&& opt_string_view(s.edition) == package_field(manifest, "edition"@)
    &&& s.dependency_count == table_len(node_get(manifest, "dependencies"@))
    &&& s.dev_dependency_count == table_len(node_get(manifest, "dev-dependencies"@))
    &&& strings_view(s.unknown_sections@) == sorted_distinct(unknown_keys(manifest))
    &&& strings_view(s.warnings@) == migration_warnings(
        package_field(manifest, "name"@),
        package_field(manifest, "edition"@),
        sorted_distinct(unknown_keys(manifest)),
    )
}

/// Reads a Scarb manifest for a migration report: the package name,
/// version and edition when they are strings, the number of dependencies
/// and dev-dependencies, the top-level sections it does not know (sorted),
/// and the warnings about them.
pub fn migration_summary(manifest: &TomlNode) -> (s: MigrationSummary)
    ensures
        summarizes(*manifest, s),
{
    let package = get(manifest, "package");
    let package_name = string_field(package, "name");
    let package_version = string_field(package, "version");
    let edition = string_field(package, "edition");
    let dependency_count = table_entry_count(get(manifest, "dependencies"));
    let dev_dependency_count = table_entry_count(get(manifest, "dev-dependencies"));
    let unknown_sections = unknown_section_names(manifest);
    let mut warnings: Vec<String> = Vec::new();
    let ghost w0 = strings_view(warnings@);
    if package_name.is_none() {
        warnings.push(copy_str("missing [package].name"));
    }
    let ghost w1 = strings_view(warnings@);
    if edition.is_none() {
        warnings.push(copy_str("missing [package].edition"));
    }
    let ghost w2 = strings_view(warnings@);
    if unknown_sections.len() > 0 {
        let listed = join_strings(&unknown_sections, ", ");
        let mut line = copy_str("unknown top-level sections detected: ");
        crate::text::push_str(&mut line, listed.as_str());
        warnings.push(line);
    }
    assert(strings_view(warnings@) =~= migration_warnings(
        package_field(*manifest, "name"@),
        package_field(*manifest, "edition"@),
        sorted_distinct(unknown_keys(*manifest)),
    ));
    MigrationSummary {
        package_name,
        package_version,
        edition,
        dependency_count,
        dev_dependency_count,
        unknown_sections,
        warnings,
    }
}

/// Parses a manifest text and summarises it for a migration report; none
/// when the text is not TOML.
pub fn migration_summary_from_text(text: &str) -> (r: Option<MigrationSummary>)
    ensures
        match parsed_toml(text@) {
            Some(m) => r matches Some(s) && summarizes(m, s),
            None => r is None,
        },
{
    match parse_toml_document(text) {
        Some(m) => Some(migration_summary(&m)),
        None => None,
    }
}

/// The `[project]` fields of a generated `Uc.toml`: the package name,
/// version and edition, or `unknown-package`, `0.1.0` and the default
/// edition in their place.
pub fn uc_toml_project_fields(
    package_name: Option<&str>,
    package_version: Option<&str>,
    edition: Option<&str>,
) -> (r: (String, String, String))
    ensures
        r.0@ == match package_name {
            Some(n) => n@,
            None => "unknown-package"@,
        },
        r.1@ == match package_version {
            Some(v) => v@,
            None => "0.1.0"@,
        },
        r.2@ == match edition {
            Some(e) => e@,
            None => crate::project_toml::DEFAULT_CAIRO_EDITION@,
        },
{
    let name = match package_name {
        Some(n) => copy_str(n),
        None => copy_str("unknown-package"),
    };
    let version = match package_version {
        Some(v) => copy_str(v),
        None => copy_str("0.1.0"),
    };
    let ed = match edition {
        Some(e) => copy_str(e),
        None => copy_str(crate::project_toml::DEFAULT_CAIRO_EDITION),
    };
    (name, version, ed)
}

} // verus!
