use uc_cli::json_wire::{decode_daemon_wire, JsonNode};
use uc_cli::manifest::{
    manifest_path_dependency_dirs_from_text, manifest_text_has_workspace_table,
    native_corelib_manifest_version_from_text,
};
use uc_cli::migrate::migration_summary_from_text;

#[test]
fn workspace_table_read_from_manifest_text() {
    assert!(manifest_text_has_workspace_table("[workspace]\nmembers = [\".\"]\n"));
    assert!(!manifest_text_has_workspace_table("[package]\nname = \"a\"\n"));
    assert!(!manifest_text_has_workspace_table("[workspace\n"));
}

#[test]
fn corelib_version_read_from_manifest_text() {
    assert_eq!(
        native_corelib_manifest_version_from_text("[package]\nname = \"core\"\nversion = \" 2.9.1 \"\n"),
        Some("2.9.1".to_string())
    );
    assert_eq!(native_corelib_manifest_version_from_text("[package]\nversion = \"  \"\n"), None);
    assert_eq!(native_corelib_manifest_version_from_text("not = = toml"), None);
}

#[test]
fn path_dependency_dirs_read_from_manifest_text() {
    let text = "[dependencies]\nfoo = { path = \"../foo\" }\nbar = \"1.0\"\n\n[workspace.dependencies]\nbaz = { path = \"vendor/baz\" }\n";
    assert_eq!(
        manifest_path_dependency_dirs_from_text("/w/Scarb.toml", text),
        vec!["/w/../foo".to_string(), "/w/vendor/baz".to_string()]
    );
    assert!(manifest_path_dependency_dirs_from_text("/w/Scarb.toml", "[[[").is_empty());
}

#[test]
fn migration_summary_read_from_manifest_text() {
    let summary =
        migration_summary_from_text("[package]\nname = \"demo\"\n\n[dependencies]\nstarknet = \"2.9.0\"\n\n[extras]\nx = 1\n")
            .expect("valid TOML");
    assert_eq!(summary.package_name.as_deref(), Some("demo"));
    assert_eq!(summary.dependency_count, 1);
    assert_eq!(summary.unknown_sections, vec!["extras".to_string()]);
    assert_eq!(
        summary.warnings,
        vec![
            "missing [package].edition".to_string(),
            "unknown top-level sections detected: extras".to_string(),
        ]
    );
    assert!(migration_summary_from_text("= broken").is_none());
}

#[test]
fn daemon_wire_line_is_parsed_and_flattened() {
    let decoded = decode_daemon_wire(r#"{"type":"build","payload":{"type":"ignored","manifest_path":"/w/Scarb.toml","release":true,"jobs":4}}"#)
        .expect("valid JSON");
    assert_eq!(
        decoded,
        JsonNode::Object(vec![
            ("type".to_string(), JsonNode::Str("build".to_string())),
            ("jobs".to_string(), JsonNode::Number("4".to_string())),
            ("manifest_path".to_string(), JsonNode::Str("/w/Scarb.toml".to_string())),
            ("release".to_string(), JsonNode::Bool(true)),
        ])
    );
    assert_eq!(decode_daemon_wire("[null]"), Some(JsonNode::Array(vec![JsonNode::Null])));
    assert_eq!(decode_daemon_wire("{not json"), None);
}
