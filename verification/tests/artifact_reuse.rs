use uc_cli::artifact_reuse::{
    native_cached_noop_keep_files, native_reusable_unaffected_manifest_entries, StarknetArtifactEntry,
    StarknetArtifactFiles,
};
use uc_cli::native_session::NativeContractOutputPlan;

fn s(v: &str) -> String {
    v.to_string()
}

fn entry(id: &str, module: &str, sierra: &str, casm: Option<&str>) -> StarknetArtifactEntry {
    StarknetArtifactEntry {
        id: s(id),
        package_name: s("demo"),
        contract_name: s(id),
        mod_path: s(module),
        artifacts: StarknetArtifactFiles { sierra: s(sierra), casm: casm.map(s) },
    }
}

fn plan(id: &str, module: &str, sierra: &str, casm: Option<&str>) -> NativeContractOutputPlan {
    NativeContractOutputPlan {
        mod_path: s(module),
        artifact_id: s(id),
        package_name: s("demo"),
        contract_name: s(id),
        artifact_file: s(sierra),
        casm_file: casm.map(s),
    }
}

#[test]
fn unaffected_contracts_are_reused_when_manifest_matches() {
    let entries = vec![
        entry("a", "demo::a", "demo_a.json", Some("demo_a.casm")),
        entry("b", "demo::b", "demo_b.json", None),
    ];
    let plans = vec![plan("a", "demo::a", "demo_a.json", Some("demo_a.casm")), plan("b", "demo::b", "demo_b.json", None)];
    let present = vec![s("demo_b.json"), s("demo_a.json"), s("demo_a.casm")];
    let (kept, files) = native_reusable_unaffected_manifest_entries(1, &entries, &plans, &vec![], &present).unwrap();
    assert_eq!(kept.iter().map(|e| e.id.clone()).collect::<Vec<_>>(), vec![s("a"), s("b")]);
    assert_eq!(files, vec![s("demo_a.casm"), s("demo_a.json"), s("demo_b.json")]);
    let (kept, files) = native_reusable_unaffected_manifest_entries(1, &entries, &plans, &vec![0], &present).unwrap();
    assert_eq!(kept.len(), 1);
    assert_eq!(files, vec![s("demo_b.json")]);
}

#[test]
fn reuse_is_refused_on_any_mismatch() {
    let entries = vec![entry("a", "demo::a", "demo_a.json", None)];
    let present = vec![s("demo_a.json")];
    assert!(native_reusable_unaffected_manifest_entries(2, &entries, &vec![plan("a", "demo::a", "demo_a.json", None)], &vec![], &present).is_none());
    assert!(native_reusable_unaffected_manifest_entries(1, &entries, &vec![plan("x", "demo::a", "demo_a.json", None)], &vec![], &present).is_none());
    assert!(native_reusable_unaffected_manifest_entries(1, &entries, &vec![plan("a", "demo::b", "demo_a.json", None)], &vec![], &present).is_none());
    assert!(native_reusable_unaffected_manifest_entries(1, &entries, &vec![plan("a", "demo::a", "demo_a.json", Some("c"))], &vec![], &present).is_none());
    assert!(native_reusable_unaffected_manifest_entries(1, &entries, &vec![plan("a", "demo::a", "demo_a.json", None)], &vec![], &vec![]).is_none());
}

#[test]
fn later_manifest_entries_win_for_duplicate_ids() {
    let entries = vec![entry("a", "demo::old", "old.json", None), entry("a", "demo::a", "demo_a.json", None)];
    let r = native_reusable_unaffected_manifest_entries(
        1,
        &entries,
        &vec![plan("a", "demo::a", "demo_a.json", None)],
        &vec![],
        &vec![s("demo_a.json")],
    );
    assert!(r.is_some());
}

#[test]
fn noop_keep_files_include_the_manifest() {
    let entries = vec![entry("a", "demo::a", "demo_a.json", None)];
    let plans = vec![plan("a", "demo::a", "demo_a.json", None)];
    let keep = native_cached_noop_keep_files("demo", 1, &entries, &plans, &vec![s("demo_a.json")]).unwrap();
    assert_eq!(keep, vec![s("demo.starknet_artifacts.json"), s("demo_a.json")]);
    assert!(native_cached_noop_keep_files("demo", 1, &entries, &vec![], &vec![]).is_none());
}
