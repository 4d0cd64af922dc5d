use uc_cli::errors::{plain_error, ErrorKind, SemverPart};
use uc_cli::messages::kind_message;
use uc_cli::versions::validate_metadata_format_version;

#[test]
fn metadata_format_version_error_reads_as_reported() {
    let err = validate_metadata_format_version(3).unwrap_err();
    assert_eq!(err.message(), "unsupported metadata format version `3` (expected 1 or 2)");
    assert!(validate_metadata_format_version(1).is_ok());
    assert!(validate_metadata_format_version(2).is_ok());
}

#[test]
fn messages_render_values() {
    assert_eq!(
        kind_message(&ErrorKind::FingerprintBudgetExceeded { total_bytes: 1025, limit_bytes: 1024 }),
        "fingerprint source budget exceeded (1025 bytes > 1024 bytes)"
    );
    assert_eq!(
        kind_message(&ErrorKind::SemverPartMissing { part: SemverPart::Minor }),
        "missing minor version"
    );
    assert_eq!(
        kind_message(&ErrorKind::DaemonProtocolMismatch { daemon_version: "9.9.9".to_string() }),
        "daemon protocol mismatch (daemon=9.9.9, client=0.1.0)"
    );
    assert_eq!(
        plain_error(ErrorKind::TooManyExternalPathDependencyRoots { limit: 64 }).message(),
        "workspace references more than 64 external path dependency roots; refusing to fingerprint"
    );
    assert_eq!(kind_message(&ErrorKind::ManifestPathHasNoParent), "manifest path has no parent");
    assert_eq!(
        kind_message(&ErrorKind::NativeTrackedFileTooLarge {
            path: "src/lib.cairo".to_string(),
            size_bytes: 10,
            limit_bytes: 9,
        }),
        "native source tracker file src/lib.cairo exceeds size limit (10 bytes > 9 bytes)"
    );
}
