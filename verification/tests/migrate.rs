use uc_cli::manifest::TomlNode;
use uc_cli::migrate::{migration_summary, uc_toml_project_fields};

fn s(v: &str) -> TomlNode {
    TomlNode::Str(v.to_string())
}

fn table(entries: Vec<(&str, TomlNode)>) -> TomlNode {
    TomlNode::Table(entries.into_iter().map(|(k, v)| (k.to_string(), v)).collect())
}

#[test]
fn migration_summary_reads_package_fields_and_counts() {
    let manifest = table(vec![
        (
            "package",
            table(vec![("name", s("hello")), ("version", s("0.2.0")), ("edition", s("2024_07"))]),
        ),
        ("dependencies", table(vec![("starknet", s("2.9.0")), ("alexandria", s("0.1"))])),
        ("dev-dependencies", table(vec![("snforge_std", s("0.30"))])),
    ]);
    let summary = migration_summary(&manifest);
    assert_eq!(summary.package_name.as_deref(), Some("hello"));
    assert_eq!(summary.package_version.as_deref(), Some("0.2.0"));
    assert_eq!(summary.edition.as_deref(), Some("2024_07"));
    assert_eq!(summary.dependency_count, 2);
    assert_eq!(summary.dev_dependency_count, 1);
    assert!(summary.unknown_sections.is_empty());
    assert!(summary.warnings.is_empty());
}

#[test]
fn migration_summary_lists_unknown_sections_sorted_and_warns() {
    let manifest = table(vec![
        ("zeta", table(vec![])),
        ("package", table(vec![("version", s("1.0.0"))])),
        ("alpha", s("x")),
        ("tool", table(vec![])),
    ]);
    let summary = migration_summary(&manifest);
    assert_eq!(summary.package_name, None);
    assert_eq!(summary.edition, None);
    assert_eq!(summary.dependency_count, 0);
    assert_eq!(summary.unknown_sections, vec!["alpha".to_string(), "zeta".to_string()]);
    assert_eq!(
        summary.warnings,
        vec![
            "missing [package].name".to_string(),
            "missing [package].edition".to_string(),
            "unknown top-level sections detected: alpha, zeta".to_string(),
        ]
    );
}

#[test]
fn migration_summary_ignores_non_string_fields_and_non_table_sections() {
    let manifest = table(vec![
        ("package", table(vec![("name", TomlNode::Bool(true)), ("edition", s("2023_11"))])),
        ("dependencies", s("not a table")),
    ]);
    let summary = migration_summary(&manifest);
    assert_eq!(summary.package_name, None);
    assert_eq!(summary.dependency_count, 0);
    assert_eq!(summary.warnings, vec!["missing [package].name".to_string()]);
}

#[test]
fn uc_toml_fields_fall_back_to_defaults() {
    let (n, v, e) = uc_toml_project_fields(None, None, None);
    assert_eq!((n.as_str(), v.as_str(), e.as_str()), ("unknown-package", "0.1.0", "2023_01"));
    let (n, v, e) = uc_toml_project_fields(Some("pkg"), Some("2.0.0"), Some("2024_07"));
    assert_eq!((n.as_str(), v.as_str(), e.as_str()), ("pkg", "2.0.0", "2024_07"));
}
