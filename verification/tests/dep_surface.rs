use uc_cli::dep_surface::{
    collect_native_manifest_dependency_surface, native_dependency_surface_finish,
    native_dependency_surface_merge, native_dependency_surface_next, native_dependency_surface_start,
    DependencyCollectionContext, DependencyRootProbe,
};
use uc_cli::manifest::TomlNode;

fn st(v: &str) -> TomlNode {
    TomlNode::Str(v.to_string())
}

fn t(entries: Vec<(&str, TomlNode)>) -> TomlNode {
    TomlNode::Table(entries.into_iter().map(|(k, v)| (k.to_string(), v)).collect())
}

fn s(v: &str) -> String {
    v.to_string()
}

fn probe(candidate: &str, canonical: &str, has_lib: bool) -> DependencyRootProbe {
    DependencyRootProbe {
        candidate: s(candidate),
        canonical_root: Some(s(canonical)),
        has_lib,
        canonical_source_root: if has_lib { Some(format!("{canonical}/src")) } else { None },
    }
}

#[test]
fn manifest_surface_sorts_local_and_external_dependencies() {
    let manifest = t(vec![
        ("dependencies", t(vec![
            ("starknet", st(">=2.0")),
            ("my-lib", t(vec![("path", st("libs/a"))])),
            ("b", st("1.0")),
            ("escape", t(vec![("path", st("../outside"))])),
            ("nolib", t(vec![("path", st("libs/n"))])),
        ])),
        ("target", t(vec![("starknet-contract", t(vec![("dependencies", t(vec![("z", t(vec![("path", st("libs/z"))]))]))]))])),
    ]);
    let ctx = DependencyCollectionContext {
        dependency_label_prefix: "",
        manifest: &manifest,
        workspace_manifest_fallback: None,
        manifest_dir: "/w",
        workspace_root: "/w",
    };
    let probes = vec![
        probe("/w/libs/a", "/w/libs/a", true),
        probe("/w/../outside", "/outside", true),
        probe("/w/libs/n", "/w/libs/n", false),
        probe("/w/libs/z", "/w/libs/z", true),
    ];
    let (external, roots) = collect_native_manifest_dependency_surface(&ctx, &probes);
    assert_eq!(
        external,
        vec![s("[dependencies].b"), s("[dependencies].escape"), s("[dependencies].nolib")]
    );
    assert_eq!(roots, vec![(s("my_lib"), s("/w/libs/a/src")), (s("z"), s("/w/libs/z/src"))]);
}

#[test]
fn dependency_walk_visits_each_manifest_once_and_collects_settings() {
    let roots = vec![(s("a"), s("/w/libs/a/src"))];
    let mut state = native_dependency_surface_start("demo-pkg", Some(s("2023_10")), &vec![s("[dependencies].b")], roots);
    let (c, root, manifest) = native_dependency_surface_next(&mut state).unwrap();
    assert_eq!((c.as_str(), root.as_str(), manifest.as_str()), ("a", "/w/libs/a/src", "/w/libs/a/Scarb.toml"));
    native_dependency_surface_merge(
        &mut state,
        "a",
        Some(s("2024_07")),
        &vec![s("[dependency.a][dependencies].x")],
        &vec![(s("d"), s("/w/libs/d/src")), (s("a"), s("/elsewhere/src"))],
    );
    let (c, _, _) = native_dependency_surface_next(&mut state).unwrap();
    assert_eq!(c, "d");
    native_dependency_surface_merge(&mut state, "d", None, &vec![], &vec![]);
    assert!(native_dependency_surface_next(&mut state).is_none());
    let surface = native_dependency_surface_finish(state);
    assert_eq!(
        surface.external_non_starknet_dependencies,
        vec![
            s("[dependencies].b"),
            s("[dependency.a] conflicting path roots for `a` (/w/libs/a/src vs /elsewhere/src)"),
            s("[dependency.a][dependencies].x"),
        ]
    );
    let names: Vec<_> = surface.path_dependency_roots.iter().map(|r| r.crate_name.clone()).collect();
    assert_eq!(names, vec![s("a"), s("d")]);
    let configs: Vec<_> = surface
        .crate_dependency_configs
        .iter()
        .map(|c| (c.crate_name.clone(), c.cairo_edition.clone(), c.dependencies.clone()))
        .collect();
    assert_eq!(
        configs,
        vec![
            (s("a"), Some(s("2024_07")), vec![s("a"), s("d")]),
            (s("d"), None, vec![]),
            (s("demo_pkg"), Some(s("2023_10")), vec![s("a")]),
        ]
    );
}
