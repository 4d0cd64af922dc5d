use uc_cli::errors::{ErrorKind, SemverPart};
use uc_cli::toolchain::{
    cached_toolchain_version_line, min_scarb_version, parse_scarb_semver, parse_semver_triplet,
    scarb_toolchain_cache_ttl_ms, scarb_version_line_from_output, scarb_version_line_override,
    validate_scarb_version_constraints, DEFAULT_MIN_SCARB_VERSION,
};

#[test]
fn semver_triplets_parse_and_fail_by_part() {
    assert_eq!(parse_semver_triplet("2.14.0").unwrap(), (2, 14, 0));
    assert_eq!(parse_semver_triplet(" 2.14.3-rc.1 ").unwrap(), (2, 14, 3));
    assert_eq!(parse_semver_triplet("1.2.3.4").unwrap(), (1, 2, 3));
    let part = |s: &str| match parse_semver_triplet(s).unwrap_err().kind {
        ErrorKind::SemverPartMissing { part } => ("missing", part),
        ErrorKind::SemverPartInvalid { part } => ("invalid", part),
        other => panic!("unexpected {other:?}"),
    };
    assert_eq!(part("x.1.2"), ("invalid", SemverPart::Major));
    assert_eq!(part("2"), ("missing", SemverPart::Minor));
    assert_eq!(part("2.x.1"), ("invalid", SemverPart::Minor));
    assert_eq!(part("2.14"), ("missing", SemverPart::Patch));
    assert_eq!(part("2.14.x"), ("invalid", SemverPart::Patch));
    assert_eq!(part(""), ("invalid", SemverPart::Major));
}

#[test]
fn scarb_version_lines_parse() {
    assert_eq!(parse_scarb_semver("scarb 2.14.0 (abc 2025-01-01)").unwrap(), (2, 14, 0));
    assert_eq!(parse_scarb_semver("  Scarb\t2.15.1").unwrap(), (2, 15, 1));
    match parse_scarb_semver("cargo 1.80.0").unwrap_err().kind {
        ErrorKind::UnexpectedScarbVersionOutput { line } => assert_eq!(line, "cargo 1.80.0"),
        other => panic!("unexpected {other:?}"),
    }
    assert!(matches!(
        parse_scarb_semver("scarb   ").unwrap_err().kind,
        ErrorKind::MissingScarbSemverToken
    ));
}

#[test]
fn minimum_version_defaults_when_blank() {
    assert_eq!(min_scarb_version(None), DEFAULT_MIN_SCARB_VERSION);
    assert_eq!(min_scarb_version(Some("   ")), "2.14.0");
    assert_eq!(min_scarb_version(Some(" 2.15.0 ")), "2.15.0");
    assert_eq!(scarb_version_line_override(Some("  scarb 9.9.9 ")), Some("scarb 9.9.9".to_string()));
    assert_eq!(scarb_version_line_override(Some("  ")), None);
    assert_eq!(scarb_version_line_override(None), None);
    assert_eq!(scarb_toolchain_cache_ttl_ms(None), 300_000);
    assert_eq!(scarb_toolchain_cache_ttl_ms(Some("5")), 5);
}

#[test]
fn version_output_takes_the_first_line() {
    assert_eq!(
        scarb_version_line_from_output("scarb 2.14.0 (x)\r\ncairo: 2.14.0\n").unwrap(),
        "scarb 2.14.0 (x)"
    );
    for bad in ["", "\nscarb 2.14.0", "  scarb unknown  \n", "   "] {
        assert!(matches!(
            scarb_version_line_from_output(bad).unwrap_err().kind,
            ErrorKind::ScarbVersionOutputUnparsable
        ));
    }
}

#[test]
fn cached_toolchain_line_respects_schema_and_age() {
    assert_eq!(
        cached_toolchain_version_line(1, 1_000, " scarb 2.14.0 ", 2_000, 5_000),
        Some("scarb 2.14.0".to_string())
    );
    assert_eq!(cached_toolchain_version_line(2, 1_000, "scarb 2.14.0", 2_000, 5_000), None);
    assert_eq!(cached_toolchain_version_line(1, 1_000, "scarb 2.14.0", 7_000, 5_000), None);
    assert_eq!(
        cached_toolchain_version_line(1, 9_000, "scarb 2.14.0", 2_000, 5_000),
        Some("scarb 2.14.0".to_string())
    );
    assert_eq!(cached_toolchain_version_line(1, 1_000, "  ", 2_000, 5_000), None);
}

#[test]
fn version_constraints_are_checked_in_order() {
    assert!(validate_scarb_version_constraints("scarb 2.14.0", None, None).is_ok());
    assert!(validate_scarb_version_constraints("scarb 3.0.0", Some("2.99.99"), None).is_ok());
    match validate_scarb_version_constraints("scarb 2.13.9", None, None).unwrap_err().kind {
        ErrorKind::ScarbVersionBelowMinimum { version, minimum } => {
            assert_eq!(version, "scarb 2.13.9");
            assert_eq!(minimum, "2.14.0");
        }
        other => panic!("unexpected {other:?}"),
    }
    match validate_scarb_version_constraints("scarb 2.14.0", Some("two"), None).unwrap_err().kind {
        ErrorKind::InvalidMinScarbVersion { value } => assert_eq!(value, "two"),
        other => panic!("unexpected {other:?}"),
    }
    assert!(validate_scarb_version_constraints("scarb 2.14.0 (abc)", None, Some("abc")).is_ok());
    match validate_scarb_version_constraints("scarb 2.14.0", None, Some("2.15")).unwrap_err().kind {
        ErrorKind::ScarbVersionMismatch { expected, version } => {
            assert_eq!(expected, "2.15");
            assert_eq!(version, "scarb 2.14.0");
        }
        other => panic!("unexpected {other:?}"),
    }
    assert!(matches!(
        validate_scarb_version_constraints("nope", None, None).unwrap_err().kind,
        ErrorKind::UnexpectedScarbVersionOutput { .. }
    ));
}
