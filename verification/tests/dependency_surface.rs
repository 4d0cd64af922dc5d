use uc_cli::surface::{
    native_dependency_surface_from_unit, select_metadata_compilation_unit, ComponentSourceRoot,
    ScarbCompilationUnit, ScarbMetadataComponent, ScarbMetadataDocument, ScarbMetadataPackage,
};

fn package(id: &str, manifest: &str, edition: Option<&str>) -> ScarbMetadataPackage {
    ScarbMetadataPackage {
        id: id.to_string(),
        manifest_path: manifest.to_string(),
        edition: edition.map(|e| e.to_string()),
    }
}

fn component(id: &str, name: &str, deps: &[&str]) -> ScarbMetadataComponent {
    ScarbMetadataComponent {
        id: id.to_string(),
        name: name.to_string(),
        source_path: format!("/src/{name}/lib.cairo"),
        dependencies: deps.iter().map(|d| d.to_string()).collect(),
    }
}

fn unit(package: &str, kind: &str, components: Vec<ScarbMetadataComponent>) -> ScarbCompilationUnit {
    ScarbCompilationUnit {
        package: package.to_string(),
        target_kind: kind.to_string(),
        components,
    }
}

fn source(root: &str, lib: bool) -> ComponentSourceRoot {
    ComponentSourceRoot { source_root: root.to_string(), has_lib_cairo: lib }
}

fn sample() -> ScarbMetadataDocument {
    ScarbMetadataDocument {
        packages: vec![
            package("app", "/w/Scarb.toml", Some("2024_07")),
            package("dep-b", "/w/b/Scarb.toml", Some("2023_10")),
            package("zed", "/w/z/Scarb.toml", None),
        ],
        compilation_units: vec![
            unit("app", "lib", vec![component("app", "app", &[])]),
            unit(
                "app",
                "starknet-contract",
                vec![
                    component("app", "app", &["dep-b", "core", "missing", "nolib"]),
                    component("dep-b", "dep-b", &["zed", "core"]),
                    component("zed", "zed", &["dep-b"]),
                    component("core", "core", &[]),
                    component("nolib", "nolib", &[]),
                ],
            ),
        ],
    }
}

fn sources() -> Vec<ComponentSourceRoot> {
    vec![
        source("/w/src", true),
        source("/w/b/src", true),
        source("/w/z/src", true),
        source("/core/src", true),
        source("/w/nolib/src", false),
    ]
}

#[test]
fn contract_unit_is_preferred() {
    let doc = sample();
    assert_eq!(select_metadata_compilation_unit(&doc, "/w/Scarb.toml", "app"), Some(1));
    // matched through the package manifest even under another name
    assert_eq!(select_metadata_compilation_unit(&doc, "/w/Scarb.toml", "other"), Some(1));
    let mut foreign = sample();
    for u in foreign.compilation_units.iter_mut() {
        u.package = "elsewhere".to_string();
    }
    assert_eq!(select_metadata_compilation_unit(&foreign, "/x/Scarb.toml", "nothing"), None);
}

#[test]
fn first_matching_unit_without_contract_target() {
    let mut doc = sample();
    doc.compilation_units[1].target_kind = "lib".to_string();
    assert_eq!(select_metadata_compilation_unit(&doc, "/w/Scarb.toml", "app"), Some(0));
}

#[test]
fn surface_walks_reachable_crates() {
    let doc = sample();
    let s = native_dependency_surface_from_unit(&doc, 1, "/w/Scarb.toml", "app", &sources()).unwrap();
    assert!(s.external_non_starknet_dependencies.is_empty());
    let roots: Vec<(String, String)> = s
        .path_dependency_roots
        .iter()
        .map(|r| (r.crate_name.clone(), r.source_root.clone()))
        .collect();
    assert_eq!(
        roots,
        vec![
            ("dep_b".to_string(), "/w/b/src".to_string()),
            ("zed".to_string(), "/w/z/src".to_string()),
        ]
    );
    let configs: Vec<(String, Option<String>, Vec<String>)> = s
        .crate_dependency_configs
        .iter()
        .map(|c| (c.crate_name.clone(), c.cairo_edition.clone(), c.dependencies.clone()))
        .collect();
    assert_eq!(
        configs,
        vec![
            ("app".to_string(), Some("2024_07".to_string()), vec!["dep_b".to_string()]),
            ("dep_b".to_string(), Some("2023_10".to_string()), vec!["zed".to_string()]),
            ("zed".to_string(), None, vec!["dep_b".to_string()]),
        ]
    );
}

#[test]
fn surface_needs_the_root_crate_source() {
    let doc = sample();
    let mut srcs = sources();
    srcs[0].has_lib_cairo = false;
    assert!(native_dependency_surface_from_unit(&doc, 1, "/w/Scarb.toml", "app", &srcs).is_none());
}

#[test]
fn surface_needs_a_root_component() {
    let mut doc = sample();
    doc.compilation_units[1].package = "elsewhere".to_string();
    assert!(native_dependency_surface_from_unit(&doc, 1, "/x/Scarb.toml", "nothing", &sources()).is_none());
    assert!(native_dependency_surface_from_unit(&doc, 1, "/x/Scarb.toml", "dep-b", &sources()).is_some());
}

#[test]
fn first_found_source_root_wins_for_a_crate_name() {
    let doc = ScarbMetadataDocument {
        packages: vec![package("root", "/w/Scarb.toml", None)],
        compilation_units: vec![unit(
            "root",
            "starknet-contract",
            vec![
                component("root", "root", &["a-b", "a_b"]),
                component("a-b", "a-b", &[]),
                component("a_b", "a_b", &[]),
            ],
        )],
    };
    let srcs = vec![source("/w/src", true), source("/first", true), source("/second", true)];
    let s = native_dependency_surface_from_unit(&doc, 0, "/w/Scarb.toml", "root", &srcs).unwrap();
    assert_eq!(s.path_dependency_roots.len(), 1);
    assert_eq!(s.path_dependency_roots[0].crate_name, "a_b");
    assert_eq!(s.path_dependency_roots[0].source_root, "/first");
    assert_eq!(s.crate_dependency_configs[0].crate_name, "a_b");
    assert_eq!(s.crate_dependency_configs[1].dependencies, vec!["a_b".to_string()]);
}
