use uc_cli::modes::DaemonModeArg;
use uc_cli::protocol::{BuildCommonArgs, MetadataArgs};
use uc_cli::scarb_args::{join_strings, scarb_build_command, scarb_metadata_command};

fn common() -> BuildCommonArgs {
    BuildCommonArgs {
        manifest_path: None,
        package: None,
        workspace: false,
        features: vec![],
        offline: false,
        release: false,
        profile: None,
    }
}

#[test]
fn build_command_with_defaults() {
    let (argv, fingerprint) = scarb_build_command(&common(), "/w/Scarb.toml", false);
    assert_eq!(argv, vec!["scarb", "--manifest-path", "/w/Scarb.toml", "build"]);
    assert_eq!(fingerprint, "1");
}

#[test]
fn build_command_with_every_option() {
    let mut c = common();
    c.offline = true;
    c.release = true;
    c.profile = Some("ci".to_string());
    c.package = Some("demo".to_string());
    c.workspace = true;
    c.features = vec!["a".to_string(), "b".to_string()];
    let (argv, fingerprint) = scarb_build_command(&c, "Scarb.toml", true);
    assert_eq!(
        argv,
        vec![
            "scarb",
            "--manifest-path",
            "Scarb.toml",
            "--offline",
            "--release",
            "--profile",
            "ci",
            "build",
            "--package",
            "demo",
            "--workspace",
            "--features",
            "a,b",
        ]
    );
    assert_eq!(fingerprint, "0");
}

#[test]
fn metadata_command_lists_format_version_last() {
    let args = MetadataArgs {
        manifest_path: None,
        format_version: 1,
        daemon_mode: DaemonModeArg::Off,
        offline: true,
        global_cache_dir: Some("/cache".to_string()),
        report_path: None,
    };
    let argv = scarb_metadata_command(&args, "/w/Scarb.toml");
    assert_eq!(
        argv,
        vec![
            "scarb",
            "--manifest-path",
            "/w/Scarb.toml",
            "--offline",
            "--global-cache-dir",
            "/cache",
            "metadata",
            "--format-version",
            "1",
        ]
    );
}

#[test]
fn join_strings_uses_separator_between_parts_only() {
    assert_eq!(join_strings(&vec![], ","), "");
    assert_eq!(join_strings(&vec!["x".to_string()], ","), "x");
    assert_eq!(
        join_strings(&vec!["x".to_string(), "y".to_string(), "z".to_string()], "--"),
        "x--y--z"
    );
}
