use uc_cli::errors::ErrorKind;
use uc_cli::native::{
    ensure_native_daemon_backend_available, ensure_native_manifest_cairo_version_supported,
    mark_native_daemon_backend_poisoned, native_compile_preflight,
    native_corelib_version_matches_compiler, native_daemon_backend_is_poisoned,
    normalize_package_name_for_cairo_crate, sanitize_artifact_component,
    set_native_daemon_backend_poisoned_for_test, toml_escape_basic_string,
    validate_native_requested_package, validate_native_workspace_mode, NativeDaemonBackendState,
};
use uc_cli::versions::{
    daemon_response_protocol_mismatch, native_cairo_lang_compiler_version,
    native_compiler_version_line, native_lockfile_fallback_version,
    parse_cairo_version_major_minor, parse_lockfile_dependency_version,
    parse_metadata_format_version, parse_version_component_leading_u64,
    validate_daemon_protocol_version, validate_metadata_format_version, DAEMON_PROTOCOL_VERSION,
};

const LOCK: &str = "version = 4\n\n[[package]]\nname = \"anyhow\"\nversion = \"1.0.0\"\n\n[[package]]\r\nname = \"cairo-lang-compiler\"\r\nversion = \"2.16.0\"\r\nsource = \"registry\"\n";

#[test]
fn lockfile_versions_are_found_by_package() {
    assert_eq!(
        parse_lockfile_dependency_version(LOCK, "cairo-lang-compiler").as_deref(),
        Some("2.16.0")
    );
    assert_eq!(parse_lockfile_dependency_version(LOCK, "anyhow").as_deref(), Some("1.0.0"));
    assert_eq!(parse_lockfile_dependency_version(LOCK, "serde"), None);
    assert_eq!(
        parse_lockfile_dependency_version("[[package]]\nversion = \"9\"\nname = \"x\"\n", "x"),
        None
    );
}

#[test]
fn compiler_version_comes_from_the_lockfile_or_its_hash() {
    assert_eq!(native_cairo_lang_compiler_version(None), "disabled");
    assert_eq!(native_cairo_lang_compiler_version(Some(LOCK)), "2.16.0");
    let lock = "[[package]]\nname = \"other\"\nversion = \"1\"\n";
    let expected = format!("lockhash-{}", &blake3::hash(lock.as_bytes()).to_hex()[..32]);
    assert_eq!(native_lockfile_fallback_version(lock), expected);
    assert_eq!(native_cairo_lang_compiler_version(Some(lock)), expected);
    assert_eq!(
        native_compiler_version_line("0.1.0", "2.16.0"),
        "uc-native 0.1.0 cairo-lang 2.16.0"
    );
}

#[test]
fn version_components_read_leading_digits() {
    assert_eq!(parse_version_component_leading_u64(" 16-rc1"), Some(16));
    assert_eq!(parse_version_component_leading_u64("rc1"), None);
    assert_eq!(parse_version_component_leading_u64("99999999999999999999"), None);
    assert_eq!(parse_cairo_version_major_minor("2.16.0"), Some((2, 16)));
    assert_eq!(parse_cairo_version_major_minor(" vv2.11 "), Some((2, 11)));
    assert_eq!(parse_cairo_version_major_minor("2"), None);
    assert_eq!(parse_cairo_version_major_minor("^2.11"), None);
    assert_eq!(parse_cairo_version_major_minor("2.x"), None);
}

#[test]
fn metadata_format_versions_are_one_or_two() {
    assert_eq!(parse_metadata_format_version(" 2 ").unwrap(), 2);
    assert!(matches!(
        parse_metadata_format_version("3").unwrap_err().kind,
        ErrorKind::UnsupportedMetadataFormatVersion { version: 3 }
    ));
    assert!(matches!(
        parse_metadata_format_version("two").unwrap_err().kind,
        ErrorKind::InvalidMetadataFormatVersion { ref input } if input == "two"
    ));
    assert!(validate_metadata_format_version(1).is_ok());
    assert!(validate_metadata_format_version(0).is_err());
}

#[test]
fn daemon_protocol_must_match() {
    assert!(validate_daemon_protocol_version(DAEMON_PROTOCOL_VERSION).is_ok());
    assert!(matches!(
        validate_daemon_protocol_version("0.0.9").unwrap_err().kind,
        ErrorKind::DaemonProtocolMismatch { ref daemon_version } if daemon_version == "0.0.9"
    ));
    assert!(daemon_response_protocol_mismatch("Daemon PROTOCOL mismatch (daemon=1)"));
    assert!(!daemon_response_protocol_mismatch("build failed"));
}

#[test]
fn crate_keys_are_bare_toml_keys() {
    assert_eq!(normalize_package_name_for_cairo_crate("my-pkg"), "my_pkg");
    assert_eq!(normalize_package_name_for_cairo_crate("1st"), "_1st");
    assert_eq!(normalize_package_name_for_cairo_crate(""), "crate");
    assert_eq!(normalize_package_name_for_cairo_crate("é"), "_");
    assert_eq!(sanitize_artifact_component("Foo::Bar"), "Foo__Bar");
    assert_eq!(sanitize_artifact_component(""), "contract");
}

#[test]
fn toml_basic_strings_are_escaped() {
    assert_eq!(toml_escape_basic_string("a\"b\\c"), "a\\\"b\\\\c");
    assert_eq!(toml_escape_basic_string("\n\t\r\u{8}\u{c}"), "\\n\\t\\r\\b\\f");
    assert_eq!(toml_escape_basic_string("\u{1}\u{7f}\u{9f}é"), "\\u0001\\u007F\\u009Fé");
}

#[test]
fn native_checks_allow_scarb_fallback() {
    let err = native_compile_preflight().unwrap_err();
    assert!(err.native_fallback_eligible);
    assert!(validate_native_requested_package(None, "pkg").is_ok());
    assert!(validate_native_requested_package(Some("pkg"), "pkg").is_ok());
    let err = validate_native_requested_package(Some("other"), "pkg").unwrap_err();
    assert!(err.native_fallback_eligible);
    assert!(validate_native_workspace_mode(true, false).is_err());
    assert!(validate_native_workspace_mode(true, true).is_ok());
    assert!(validate_native_workspace_mode(false, false).is_ok());
}

#[test]
fn cairo_version_compatibility_follows_major_and_minor() {
    assert!(ensure_native_manifest_cairo_version_supported(None, "2.16.0").is_ok());
    assert!(ensure_native_manifest_cairo_version_supported(Some("2.11.4"), "2.16.0").is_ok());
    assert!(matches!(
        ensure_native_manifest_cairo_version_supported(Some("2.17.0"), "2.16.0").unwrap_err().kind,
        ErrorKind::NativeCairoVersionIncompatible { .. }
    ));
    assert!(matches!(
        ensure_native_manifest_cairo_version_supported(Some(">=2.0"), "2.16.0").unwrap_err().kind,
        ErrorKind::NativeCairoVersionConstraintUnsupported { .. }
    ));
    assert!(ensure_native_manifest_cairo_version_supported(Some("3.0"), "disabled").is_ok());
    assert!(native_corelib_version_matches_compiler(None, "2.16.0"));
    assert!(native_corelib_version_matches_compiler(Some("2.16.0"), "2.16.0"));
    assert!(!native_corelib_version_matches_compiler(Some("2.15.0"), "2.16.0"));
}

#[test]
fn poisoned_native_backend_refuses_requests() {
    let mut state = NativeDaemonBackendState { poisoned: false };
    assert!(ensure_native_daemon_backend_available(&state).is_ok());
    mark_native_daemon_backend_poisoned(&mut state);
    assert!(native_daemon_backend_is_poisoned(&state));
    let err = ensure_native_daemon_backend_available(&state).unwrap_err();
    assert!(err.native_fallback_eligible);
    set_native_daemon_backend_poisoned_for_test(&mut state, false);
    assert!(!native_daemon_backend_is_poisoned(&state));
}
