use vstd::prelude::*;
use crate::fingerprint::opt_view;
use crate::manifest::{trim_nonblank, trimmed_nonblank};
use crate::native::{toml_escape_basic_string, toml_escaped};
use crate::surface::{copy_str, strings_view, CrateDependencyConfig};
use crate::text::push_str;

verus! {

/// The Cairo edition used when none is given.
pub const DEFAULT_CAIRO_EDITION: &'static str = "2023_01";

/// An edition setting, trimmed, or `default` when it is missing or blank.
pub open spec fn edition_or(edition: Option<Seq<char>>, default: Seq<char>) -> Seq<char> {
    match trimmed_nonblank(edition) {
        Some(e) => e,
        None => default,
    }
}

/// The `[crate_roots]` lines: each crate name with its (already escaped)
/// source root.
pub open spec fn crate_roots_text(roots: Seq<(String, String)>) -> Seq<char>
    decreases roots.len(),
{
    if roots.len() == 0 {
        Seq::empty()
    } else {
        crate_roots_text(roots.drop_last()) + roots.last().0@ + " = \""@ + roots.last().1@
            + "\"\n"@
    }
}

/// The dependency lines of a crate override: each dependency with itself
/// as discriminator.
pub open spec fn dependency_lines(deps: Seq<Seq<char>>) -> Seq<char>
    decreases deps.len(),
{
    if deps.len() == 0 {
        Seq::empty()
    } else {
        dependency_lines(deps.drop_last()) + deps.last() + " = { discriminator = \""@
            + toml_escaped(deps.last()) + "\" }\n"@
    }
}

/// The override sections of a crate with dependencies: its edition (its
/// own, else the global one) and its dependencies; nothing for a crate
/// without dependencies.
pub open spec fn override_text(c: CrateDependencyConfig, global_edition: Seq<char>) -> Seq<char> {
    if c.dependencies@.len() == 0 {
        Seq::empty()
    } else {
        "\n[config.override."@ + c.crate_name@ + "]\n"@ + "edition = \""@ + toml_escaped(
            edition_or(opt_view(c.cairo_edition), global_edition),
        ) + "\"\n"@ + "\n[config.override."@ + c.crate_name@ + ".dependencies]\n"@
            + dependency_lines(strings_view(c.dependencies@))
    }
}

pub open spec fn overrides_text(configs: Seq<CrateDependencyConfig>, global_edition: Seq<char>) -> Seq<
    char,
>
    decreases configs.len(),
{
    if configs.len() == 0 {
        Seq::empty()
    } else {
        overrides_text(configs.drop_last(), global_edition) + override_text(
            configs.last(),
            global_edition,
        )
    }
}

/// The `cairo_project.toml` of a native build: the crate roots, the global
/// edition (the given one trimmed, else the default), and an override per
/// crate with dependencies.
pub open spec fn cairo_project_toml(
    roots: Seq<(String, String)>,
    configs: Seq<CrateDependencyConfig>,
    edition: Option<Seq<char>>,
) -> Seq<char> {
    let global = edition_or(edition, DEFAULT_CAIRO_EDITION@);
    "[crate_roots]\n"@ + crate_roots_text(roots) + "\n[config.global]\n"@ + "edition = \""@
        + toml_escaped(global) + "\"\n"@ + overrides_text(configs, global)
}

fn edition_choice(edition: &Option<String>, default: &str) -> (e: String)
    ensures
        e@ == edition_or(opt_view(*edition), default@),
{
    let copy = match edition {
        Some(x) => Some(copy_str(x.as_str())),
        None => None,
    };
    match trim_nonblank(copy) {
        Some(t) => t,
        None => copy_str(default),
    }
}

fn push_override(content: &mut String, c: &CrateDependencyConfig, global_edition: &str)
    ensures
        final(content)@ == old(content)@ + override_text(*c, global_edition@),
{
    if c.dependencies.len() == 0 {
        return;
    }
    let ghost start = content@;
    push_str(content, "\n[config.override.");
    push_str(content, c.crate_name.as_str());
    push_str(content, "]\n");
    let edition = edition_choice(&c.cairo_edition, global_edition);
    let escaped = toml_escape_basic_string(edition.as_str());
    push_str(content, "edition = \"");
    push_str(content, escaped.as_str());
    push_str(content, "\"\n");
    push_str(content, "\n[config.override.");
    push_str(content, c.crate_name.as_str());
    push_str(content, ".dependencies]\n");
    let ghost head = content@;
    let ghost deps = strings_view(c.dependencies@);
    let mut i: usize = 0;
    while i < c.dependencies.len()
        invariant
            i <= c.dependencies@.len(),
            deps == strings_view(c.dependencies@),
            content@ == head + dependency_lines(deps.take(i as int)),
        decreases c.dependencies@.len() - i,
    {
        let name = c.dependencies[i].as_str();
        push_str(content, name);
        push_str(content, " = { discriminator = \"");
        let escaped_name = toml_escape_basic_string(name);
        push_str(content, escaped_name.as_str());
        push_str(content, "\" }\n");
        assert(deps.take(i + 1).drop_last() =~= deps.take(i as int));
        assert(deps.take(i + 1).last() == name@);
        i = i + 1;
    }
    assert(deps.take(i as int) =~= deps);
}

/// The `cairo_project.toml` text of a native build.
pub fn native_cairo_project_toml(
    crate_roots: &Vec<(String, String)>,
    crate_dependency_configs: &Vec<CrateDependencyConfig>,
    cairo_edition: Option<String>,
) -> (content: String)
    ensures
        content@ == cairo_project_toml(
            crate_roots@,
            crate_dependency_configs@,
            opt_view(cairo_edition),
        ),
{
    let mut content = String::from_str("[crate_roots]\n");
    let ghost head = content@;
    let mut i: usize = 0;
    while i < crate_roots.len()
        invariant
            i <= crate_roots@.len(),
            content@ == head + crate_roots_text(crate_roots@.take(i as int)),
        decreases crate_roots@.len() - i,
    {
        push_str(&mut content, crate_roots[i].0.as_str());
        push_str(&mut content, " = \"");
        push_str(&mut content, crate_roots[i].1.as_str());
        push_str(&mut content, "\"\n");
        assert(crate_roots@.take(i + 1).drop_last() =~= crate_roots@.take(i as int));
        i = i + 1;
    }
    assert(crate_roots@.take(i as int) =~= crate_roots@);
    let global = edition_choice(&cairo_edition, DEFAULT_CAIRO_EDITION);
    let escaped = toml_escape_basic_string(global.as_str());
    push_str(&mut content, "\n[config.global]\n");
    push_str(&mut content, "edition = \"");
    push_str(&mut content, escaped.as_str());
    push_str(&mut content, "\"\n");
    let ghost mid = content@;
    let mut k: usize = 0;
    while k < crate_dependency_configs.len()
        invariant
            k <= crate_dependency_configs@.len(),
            content@ == mid + overrides_text(crate_dependency_configs@.take(k as int), global@),
        decreases crate_dependency_configs@.len() - k,
    {
        push_override(&mut content, &crate_dependency_configs[k], global.as_str());
        assert(crate_dependency_configs@.take(k + 1).drop_last() =~= crate_dependency_configs@.take(
            k as int,
        ));
        k = k + 1;
    }
    assert(crate_dependency_configs@.take(k as int) =~= crate_dependency_configs@);
    content
}

} // verus!
