use uc_cli::native_session::{native_compile_source_roots, native_crate_cache_entry_hash};
use uc_cli::path_parts::{native_dependency_manifest_path, native_target_dir};
use uc_cli::native_session::native_crate_cache_root_fingerprint;
use uc_cli::native_plan::NativeTrackedFileState;
use uc_cli::native_session::{
    native_compile_context_estimated_bytes, native_compile_session_signature_hash,
    native_compile_session_state_estimated_bytes, native_tracked_sources_signature,
    stable_sort_indices, NativeCompileContext, NativeCompileSessionSignature,
    NativeContractOutputPlan, NativeStarknetTargetProps,
};
use uc_cli::surface::{CrateDependencyConfig, PathDependencyRoot};

fn s(v: &str) -> String {
    v.to_string()
}

fn context() -> NativeCompileContext {
    NativeCompileContext {
        package_name: s("demo"),
        crate_name: s("demo"),
        main_source_root: s("/w/src"),
        workspace_mode_supported: false,
        cairo_project_dir: s("/w/target/cairo"),
        corelib_src: s("/core/src"),
        starknet_target: NativeStarknetTargetProps { sierra: true, casm: false },
        manifest_content_hash: s("abc"),
        external_non_starknet_dependencies: vec![s("z"), s("a"), s("z")],
        path_dependency_roots: vec![
            PathDependencyRoot { crate_name: s("dep"), source_root: s("/d/src") },
            PathDependencyRoot { crate_name: s("alpha"), source_root: s("/a/src") },
        ],
        crate_dependency_configs: vec![
            CrateDependencyConfig { crate_name: s("m"), cairo_edition: Some(s("2024_07")), dependencies: vec![s("y"), s("x"), s("y")] },
            CrateDependencyConfig { crate_name: s("b"), cairo_edition: None, dependencies: vec![] },
            CrateDependencyConfig { crate_name: s("m"), cairo_edition: None, dependencies: vec![s("q")] },
        ],
    }
}

fn reference_signature(sig: &NativeCompileSessionSignature) -> String {
    let c = &sig.context;
    let mut h = blake3::Hasher::new();
    h.update(b"uc-native-session-image-signature-v1");
    h.update(sig.manifest_path.as_bytes());
    h.update(sig.manifest_content_hash.as_bytes());
    h.update(c.package_name.as_bytes());
    h.update(c.crate_name.as_bytes());
    h.update(c.cairo_project_dir.as_bytes());
    h.update(c.corelib_src.as_bytes());
    h.update(if c.starknet_target.sierra { b"1" } else { b"0" });
    h.update(if c.starknet_target.casm { b"1" } else { b"0" });
    let mut deps = c.external_non_starknet_dependencies.clone();
    deps.sort();
    deps.dedup();
    for d in deps {
        h.update(b"\x1Fdep\x1F");
        h.update(d.as_bytes());
    }
    let mut roots: Vec<String> =
        c.path_dependency_roots.iter().map(|r| format!("{}={}", r.crate_name, r.source_root)).collect();
    roots.sort();
    roots.dedup();
    for r in roots {
        h.update(b"\x1Froot\x1F");
        h.update(r.as_bytes());
    }
    let mut configs: Vec<&CrateDependencyConfig> = c.crate_dependency_configs.iter().collect();
    configs.sort_by(|l, r| l.crate_name.cmp(&r.crate_name).then_with(|| l.cairo_edition.cmp(&r.cairo_edition)));
    for cfg in configs {
        h.update(b"\x1Fcfg\x1F");
        h.update(cfg.crate_name.as_bytes());
        h.update(b"=");
        h.update(cfg.cairo_edition.as_deref().unwrap_or_default().as_bytes());
        let mut ds = cfg.dependencies.clone();
        ds.sort();
        ds.dedup();
        for d in ds {
            h.update(b",");
            h.update(d.as_bytes());
        }
    }
    h.finalize().to_hex().to_string()
}

#[test]
fn session_signature_matches_reference_hashing() {
    let sig = NativeCompileSessionSignature {
        manifest_path: s("/w/Scarb.toml"),
        manifest_content_hash: s("h"),
        context: context(),
    };
    let expected = reference_signature(&sig);
    assert_eq!(native_compile_session_signature_hash(&sig), expected);
}

#[test]
fn session_signature_ignores_dependency_order() {
    let a = NativeCompileSessionSignature { manifest_path: s("/w/Scarb.toml"), manifest_content_hash: s("h"), context: context() };
    let mut other = context();
    other.external_non_starknet_dependencies = vec![s("a"), s("z")];
    other.path_dependency_roots.reverse();
    let b = NativeCompileSessionSignature { manifest_path: s("/w/Scarb.toml"), manifest_content_hash: s("h"), context: other };
    assert_eq!(native_compile_session_signature_hash(&a), native_compile_session_signature_hash(&b));
    let mut changed = context();
    changed.starknet_target.casm = true;
    let c = NativeCompileSessionSignature { manifest_path: s("/w/Scarb.toml"), manifest_content_hash: s("h"), context: changed };
    assert_ne!(native_compile_session_signature_hash(&a), native_compile_session_signature_hash(&c));
}

#[test]
fn stable_sort_keeps_equal_keys_in_order() {
    let k = |a: &str, b: Option<&str>| (a.chars().collect::<Vec<char>>(), b.map(|x| x.chars().collect::<Vec<char>>()));
    let keys = vec![k("m", Some("2")), k("b", None), k("m", None), k("m", Some("2")), k("a", Some("1"))];
    assert_eq!(stable_sort_indices(&keys), vec![4, 1, 2, 0, 3]);
    assert!(stable_sort_indices(&vec![]).is_empty());
}

#[test]
fn tracked_sources_signature_matches_reference() {
    let st = |a: u64, b: u64| NativeTrackedFileState { size_bytes: a, modified_unix_ms: b };
    let files = vec![(s("src/a.cairo"), st(10, 20)), (s("src/b.cairo"), st(1, 2))];
    let mut h = blake3::Hasher::new();
    h.update(b"uc-native-tracked-sources-signature-v1");
    for (p, state) in &files {
        h.update(p.as_bytes());
        h.update(&state.size_bytes.to_le_bytes());
        h.update(&state.modified_unix_ms.to_le_bytes());
    }
    assert_eq!(native_tracked_sources_signature(&files), h.finalize().to_hex().to_string());
}

#[test]
fn context_estimated_bytes_sums_lengths() {
    let c = context();
    let expected = "/w/target/cairo".len() + "/core/src".len() + "/w/src".len() + 4 + 4 + 3
        + 3
        + ("dep".len() + "/d/src".len() + "alpha".len() + "/a/src".len())
        + (1 + 7 + 3) + (1 + 0 + 0) + (1 + 0 + 1);
    assert_eq!(native_compile_context_estimated_bytes(&c), expected as u64);
}

#[test]
fn session_state_estimated_bytes_adds_heap_meta_deps_and_plans() {
    let deps = vec![(s("m::a"), vec![s("src/a.cairo"), s("src/b.cairo")])];
    let plans = vec![NativeContractOutputPlan {
        mod_path: s("m::a"),
        artifact_id: s("id"),
        package_name: s("m"),
        contract_name: s("a"),
        artifact_file: s("m_a.json"),
        casm_file: Some(s("m_a.casm")),
    }];
    let b = native_compile_session_state_estimated_bytes(2, 100, &deps, &plans, 3, 50);
    let expected = (100 * 3 + 50) + 2 * 96 + (4 + 11 + 11) + (4 + 2 + 1 + 1 + 8 + 8);
    assert_eq!(b, expected);
    let saturated = native_compile_session_state_estimated_bytes(0, u64::MAX, &vec![], &vec![], 2, 0);
    assert_eq!(saturated, u64::MAX);
}

#[test]
fn crate_cache_root_fingerprint_matches_reference() {
    let files = vec![
        (s("src/z.cairo"), 3u64, 4u64, 5u64),
        (s("src/a.cairo"), 1, 2, 2),
        (s("lib.cairo"), 9, 9, 9),
    ];
    let mut sorted = files.clone();
    sorted.sort_by(|l, r| l.0.cmp(&r.0));
    let mut h = blake3::Hasher::new();
    h.update(b"uc-native-crate-cache-root-fingerprint-v1");
    h.update(b"/cache/dep");
    h.update(&(files.len() as u64).to_le_bytes());
    for (p, a, b, c) in &sorted {
        h.update(p.as_bytes());
        h.update(&a.to_le_bytes());
        h.update(&b.to_le_bytes());
        h.update(&c.to_le_bytes());
    }
    let expected = h.finalize().to_hex().to_string();
    assert_eq!(native_crate_cache_root_fingerprint("/cache/dep", &files, 10).unwrap(), expected);
    assert!(native_crate_cache_root_fingerprint("/cache/dep", &files, 2).is_err());
}

#[test]
fn crate_cache_entry_hash_matches_reference() {
    let mut h = blake3::Hasher::new();
    h.update(b"uc-native-crate-cache-entry-v1");
    h.update(b"sig");
    h.update(b"\x1F");
    h.update(b"real:dep::/d");
    assert_eq!(native_crate_cache_entry_hash("sig", "real:dep::/d"), h.finalize().to_hex().to_string());
}

#[test]
fn compile_source_roots_are_sorted_and_distinct() {
    let mut c = context();
    c.main_source_root = s("/w/src");
    c.path_dependency_roots = vec![
        PathDependencyRoot { crate_name: s("b"), source_root: s("/b/src") },
        PathDependencyRoot { crate_name: s("w"), source_root: s("/w/src") },
        PathDependencyRoot { crate_name: s("a"), source_root: s("/a/src") },
    ];
    assert_eq!(native_compile_source_roots(&c), vec![s("/a/src"), s("/b/src"), s("/w/src")]);
}

#[test]
fn target_dir_and_dependency_manifest_paths() {
    assert_eq!(native_target_dir("/w", "dev").unwrap(), "/w/target/dev");
    assert!(native_target_dir("/w", "../x").is_err());
    assert_eq!(native_dependency_manifest_path("/d/src"), "/d/Scarb.toml");
    assert_eq!(native_dependency_manifest_path("/"), "/Scarb.toml");
}
