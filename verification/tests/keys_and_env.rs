use uc_cli::build_env::{build_env_prefixes, compute_build_env_fingerprint};
use uc_cli::keys::{
    compute_manifest_content_hash_bytes, daemon_build_plan_cache_key,
    daemon_build_plan_invalidation_key, lock_content_hash, metadata_result_cache_key,
    session_input_cache_key, SessionInput,
};
use uc_cli::modes::{BuildCompileBackend, DaemonModeArg};
use uc_cli::protocol::{BuildCommonArgs, MetadataArgs};

fn hex(data: &[u8]) -> String {
    blake3::hash(data).to_hex().to_string()
}

fn common() -> BuildCommonArgs {
    BuildCommonArgs {
        manifest_path: None,
        package: None,
        workspace: true,
        features: vec!["z".to_string(), "a".to_string(), "z".to_string()],
        offline: false,
        release: true,
        profile: None,
    }
}

#[test]
fn build_plan_key_hashes_backend_and_options() {
    let k = daemon_build_plan_cache_key(&common(), "C:\\w\\Scarb.toml", "release", BuildCompileBackend::Native, "scarb 2.14.0", "env");
    let expected = hex(b"uc-daemon-build-plan-cache-v1C:/w/Scarb.tomlnativescarb 2.14.0envrelease*workspaceonlinereleasea,z,");
    assert_eq!(k, expected);
}

#[test]
fn session_key_omits_the_backend() {
    let k = session_input_cache_key(&common(), "/w/Scarb.toml", "dev", "v", "e");
    assert_eq!(k, hex(b"uc-session-input-cache-v1/w/Scarb.tomlvedev*workspaceonlinereleasea,z,"));
}

#[test]
fn metadata_key_includes_format_and_cache_dir() {
    let mut args = MetadataArgs {
        manifest_path: None,
        format_version: 12,
        daemon_mode: DaemonModeArg::Auto,
        offline: false,
        global_cache_dir: None,
        report_path: None,
    };
    assert_eq!(
        metadata_result_cache_key(&args, "/w/Scarb.toml", "v", "e"),
        hex(b"uc-metadata-result-cache-v2/w/Scarb.toml12*ve")
    );
    args.global_cache_dir = Some("\\\\?\\D:\\cache".to_string());
    assert_eq!(
        metadata_result_cache_key(&args, "/w/Scarb.toml", "v", "e"),
        hex(b"uc-metadata-result-cache-v2/w/Scarb.toml12D:/cacheve")
    );
}

#[test]
fn content_hashes_are_tagged() {
    assert_eq!(compute_manifest_content_hash_bytes(b"[package]"), format!("manifest-blake3:{}", hex(b"[package]")));
    assert_eq!(lock_content_hash(b"abc"), format!("lock-blake3:{}", hex(b"uc-scarb-lock-v1abc")));
}

#[test]
fn invalidation_key_covers_session_and_lock() {
    let input = SessionInput {
        compiler_version: "cv".to_string(),
        profile: "dev".to_string(),
        offline: true,
        package: Some("pkg".to_string()),
        features: vec!["b".to_string(), "a".to_string()],
        cfg_set: vec![],
        manifest_content_hash: "mh".to_string(),
        target_family: "package".to_string(),
        cairo_edition: None,
        cairo_lang_version: None,
        build_env_fingerprint: "ef".to_string(),
    };
    assert_eq!(
        daemon_build_plan_invalidation_key(&input, "lock:none"),
        hex(b"uc-daemon-build-plan-invalidation-v1cvefmhdevpackageofflinepkga,b,lock:none")
    );
}

#[test]
fn env_prefixes_default_override_and_extra() {
    assert_eq!(build_env_prefixes(None, None), vec!["CAIRO_", "SCARB_", "STARKNET_"]);
    assert_eq!(build_env_prefixes(Some(" A_, ,B_ "), Some("C_")), vec!["A_", "B_"]);
    assert_eq!(build_env_prefixes(Some(""), None), Vec::<String>::new());
    assert_eq!(
        build_env_prefixes(None, Some("MY_, SCARB_ ,MY_,X_")),
        vec!["CAIRO_", "SCARB_", "STARKNET_", "MY_", "X_"]
    );
}

#[test]
fn env_fingerprint_sorts_selected_variables() {
    let vars = vec![
        ("SCARB_B".to_string(), "2".to_string()),
        ("PATH".to_string(), "/bin".to_string()),
        ("CAIRO_A".to_string(), "1".to_string()),
        ("SCARB_A".to_string(), "3".to_string()),
    ];
    let prefixes = vec!["CAIRO_".to_string(), "SCARB_".to_string()];
    assert_eq!(
        compute_build_env_fingerprint(&vars, &prefixes),
        hex(b"uc-build-env-v1CAIRO_A=1\nSCARB_A=3\nSCARB_B=2\n")
    );
    assert_eq!(compute_build_env_fingerprint(&vec![], &prefixes), hex(b"uc-build-env-v1"));
}
