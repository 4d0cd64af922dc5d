use uc_cli::manifest::{manifest_path_dependency_dirs, native_corelib_manifest_version};
use uc_cli::errors::ErrorKind;
use uc_cli::manifest::{
    manifest_has_workspace_table, manifest_package_cairo_version,
    native_dependency_path_from_value, native_manifest_package_name,
    native_manifest_workspace_mode_supported, native_workspace_dependency_entry,
    resolve_manifest_cairo_settings_from_manifest,
    resolve_manifest_native_starknet_target_props,
    validate_manifest_dependency_sanity_from_manifest, TomlNode,
};

fn s(v: &str) -> TomlNode {
    TomlNode::Str(v.to_string())
}

fn t(entries: Vec<(&str, TomlNode)>) -> TomlNode {
    TomlNode::Table(entries.into_iter().map(|(k, v)| (k.to_string(), v)).collect())
}

fn manifest() -> TomlNode {
    t(vec![
        (
            "package",
            t(vec![
                ("name", s(" my_pkg ")),
                ("edition", s("2024_07")),
                ("cairo-version", s(" 2.14.0 ")),
            ]),
        ),
        ("cairo", t(vec![("version", s("2.13.0"))])),
        (
            "dependencies",
            t(vec![
                ("dep_a", t(vec![("path", s(" ../dep_a "))])),
                ("dep_b", t(vec![("workspace", TomlNode::Bool(true))])),
                ("starknet", s("2.14.0")),
            ]),
        ),
        (
            "workspace",
            t(vec![
                ("members", TomlNode::Array(vec![s("."), s(" ./ ")])),
                ("dependencies", t(vec![("dep_b", t(vec![("path", s("libs/b"))]))])),
            ]),
        ),
    ])
}

#[test]
fn package_name_and_cairo_version_are_trimmed() {
    let m = manifest();
    assert_eq!(native_manifest_package_name(&m), Some("my_pkg".to_string()));
    assert_eq!(manifest_package_cairo_version(&m), Some("2.14.0".to_string()));
    let only_underscore = t(vec![("package", t(vec![("cairo_version", s("2.12"))]))]);
    assert_eq!(manifest_package_cairo_version(&only_underscore), Some("2.12".to_string()));
    // a non-string `cairo-version` hides `cairo_version`
    let shadowed = t(vec![(
        "package",
        t(vec![("cairo-version", TomlNode::Bool(true)), ("cairo_version", s("2.12"))]),
    )]);
    assert_eq!(manifest_package_cairo_version(&shadowed), None);
    assert_eq!(native_manifest_package_name(&t(vec![("package", t(vec![("name", s("  "))]))])), None);
}

#[test]
fn workspace_mode_needs_self_only_members() {
    let m = manifest();
    assert!(manifest_has_workspace_table(&m));
    assert!(native_manifest_workspace_mode_supported(&m));
    let other_member = t(vec![
        ("package", t(vec![])),
        ("workspace", t(vec![("members", TomlNode::Array(vec![s("."), s("crates/x")]))])),
    ]);
    assert!(!native_manifest_workspace_mode_supported(&other_member));
    let no_members = t(vec![("package", t(vec![])), ("workspace", t(vec![]))]);
    assert!(native_manifest_workspace_mode_supported(&no_members));
    let empty_members = t(vec![("package", t(vec![])), ("workspace", t(vec![("members", TomlNode::Array(vec![]))]))]);
    assert!(!native_manifest_workspace_mode_supported(&empty_members));
    assert!(!native_manifest_workspace_mode_supported(&t(vec![("workspace", t(vec![]))])));
}

#[test]
fn dependency_paths_resolve_locally_or_through_workspace() {
    let m = manifest();
    let deps = match &m {
        TomlNode::Table(entries) => match &entries[2].1 {
            TomlNode::Table(d) => d,
            _ => unreachable!(),
        },
        _ => unreachable!(),
    };
    assert_eq!(
        native_dependency_path_from_value(&m, None, "dep_a", &deps[0].1),
        Some(("../dep_a".to_string(), false))
    );
    assert_eq!(
        native_dependency_path_from_value(&m, None, "dep_b", &deps[1].1),
        Some(("libs/b".to_string(), true))
    );
    assert_eq!(native_dependency_path_from_value(&m, None, "starknet", &deps[2].1), None);
    let bare = t(vec![("dependencies", t(vec![]))]);
    assert_eq!(native_dependency_path_from_value(&bare, None, "dep_b", &deps[1].1), None);
    assert_eq!(
        native_dependency_path_from_value(&bare, Some(&m), "dep_b", &deps[1].1),
        Some(("libs/b".to_string(), true))
    );
    assert!(native_workspace_dependency_entry(&bare, Some(&m), "dep_b").is_some());
    assert!(native_workspace_dependency_entry(&bare, None, "dep_b").is_none());
}

#[test]
fn self_dependency_is_refused() {
    let m = t(vec![
        ("package", t(vec![("name", s("me"))])),
        ("dev-dependencies", t(vec![("me", s("1.0"))])),
    ]);
    match validate_manifest_dependency_sanity_from_manifest("/w/Scarb.toml", &m).unwrap_err().kind {
        ErrorKind::ManifestSelfDependency { manifest_path, package, section } => {
            assert_eq!(manifest_path, "/w/Scarb.toml");
            assert_eq!(package, "me");
            assert_eq!(section, "dev-dependencies");
        }
        other => panic!("unexpected {other:?}"),
    }
    assert!(validate_manifest_dependency_sanity_from_manifest("/w/Scarb.toml", &manifest()).is_ok());
    assert!(validate_manifest_dependency_sanity_from_manifest("/w/Scarb.toml", &t(vec![])).is_ok());
}

#[test]
fn starknet_target_props_default_and_validate() {
    assert_eq!(resolve_manifest_native_starknet_target_props(&manifest()).unwrap(), (true, false));
    let single = t(vec![(
        "target",
        t(vec![("starknet-contract", TomlNode::Array(vec![t(vec![("casm", TomlNode::Bool(true))])]))]),
    )]);
    assert_eq!(resolve_manifest_native_starknet_target_props(&single).unwrap(), (true, true));
    let table = t(vec![("target", t(vec![("starknet-contract", t(vec![("sierra", TomlNode::Bool(false))]))]))]);
    assert_eq!(resolve_manifest_native_starknet_target_props(&table).unwrap(), (false, false));
    let two = t(vec![("target", t(vec![("starknet-contract", TomlNode::Array(vec![t(vec![]), t(vec![])]))]))]);
    assert!(matches!(
        resolve_manifest_native_starknet_target_props(&two).unwrap_err().kind,
        ErrorKind::StarknetTargetMultipleEntries
    ));
    let not_bool = t(vec![("target", t(vec![("starknet-contract", t(vec![("casm", s("yes"))]))]))]);
    assert!(matches!(
        resolve_manifest_native_starknet_target_props(&not_bool).unwrap_err().kind,
        ErrorKind::StarknetTargetCasmNotBool
    ));
    let odd = t(vec![("target", t(vec![("starknet-contract", s("x"))]))]);
    assert!(matches!(
        resolve_manifest_native_starknet_target_props(&odd).unwrap_err().kind,
        ErrorKind::StarknetTargetUnexpectedShape
    ));
}

#[test]
fn cairo_settings_prefer_environment() {
    let m = manifest();
    assert_eq!(
        resolve_manifest_cairo_settings_from_manifest(&m, None, None),
        (Some("2024_07".to_string()), Some("2.13.0".to_string()))
    );
    assert_eq!(
        resolve_manifest_cairo_settings_from_manifest(&m, Some(" 2023_11 "), Some("  ")),
        (Some("2023_11".to_string()), Some("2.13.0".to_string()))
    );
    let lang = t(vec![("cairo", t(vec![("language-version", s("2.9")), ("version", s("2.1"))]))]);
    assert_eq!(
        resolve_manifest_cairo_settings_from_manifest(&lang, None, Some("2.15")),
        (None, Some("2.15".to_string()))
    );
    assert_eq!(
        resolve_manifest_cairo_settings_from_manifest(&lang, None, None),
        (None, Some("2.9".to_string()))
    );
}

#[test]
fn corelib_manifest_version_is_trimmed_package_version() {
    let m = t(vec![("package", t(vec![("version", s(" 2.14.0 "))]))]);
    assert_eq!(native_corelib_manifest_version(&m), Some("2.14.0".to_string()));
    let blank = t(vec![("package", t(vec![("version", s("  "))]))]);
    assert_eq!(native_corelib_manifest_version(&blank), None);
    assert_eq!(native_corelib_manifest_version(&t(vec![])), None);
}

#[test]
fn path_dependency_dirs_follow_section_order() {
    let m = t(vec![
        ("dev-dependencies", t(vec![("x", t(vec![("path", s("../x"))]))])),
        ("dependencies", t(vec![("a", t(vec![("path", s("libs/a"))])), ("b", s("1.0")), ("c", t(vec![("version", s("1"))]))])),
        ("workspace", t(vec![("dependencies", t(vec![("w", t(vec![("path", s("/abs/w"))]))]))])),
    ]);
    let dirs = manifest_path_dependency_dirs("/ws/Scarb.toml", &m);
    assert_eq!(dirs, vec!["/ws/libs/a".to_string(), "/ws/../x".to_string(), "/abs/w".to_string()]);
    let bare = manifest_path_dependency_dirs("Scarb.toml", &t(vec![("dependencies", t(vec![("a", t(vec![("path", s("a"))]))]))]));
    assert_eq!(bare, vec!["a".to_string()]);
}
