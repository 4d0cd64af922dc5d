use uc_cli::native_plan::{
    decimal_string, native_compile_batch_summary, native_diff_tracked_sources,
    native_prune_contract_source_dependencies_for_output_plans, NativeTrackedFileState,
};

fn state(size: u64, modified: u64) -> NativeTrackedFileState {
    NativeTrackedFileState { size_bytes: size, modified_unix_ms: modified }
}

fn strings(v: &[&str]) -> Vec<String> {
    v.iter().map(|s| s.to_string()).collect()
}

#[test]
fn diff_reports_changed_new_and_removed_sources() {
    let previous = vec![
        ("src/a.cairo".to_string(), state(1, 10)),
        ("src/b.cairo".to_string(), state(2, 20)),
        ("src/gone.cairo".to_string(), state(3, 30)),
    ];
    let current = vec![
        ("src/a.cairo".to_string(), state(1, 10)),
        ("src/b.cairo".to_string(), state(2, 21)),
        ("src/new.cairo".to_string(), state(4, 40)),
    ];
    let (changed, removed) = native_diff_tracked_sources(&previous, &current);
    assert_eq!(changed, strings(&["src/b.cairo", "src/new.cairo"]));
    assert_eq!(removed, strings(&["src/gone.cairo"]));
    let (changed, removed) = native_diff_tracked_sources(&current, &current);
    assert!(changed.is_empty() && removed.is_empty());
}

#[test]
fn prune_keeps_only_planned_contracts() {
    let mut deps = vec![
        ("pkg::A".to_string(), strings(&["src/a.cairo"])),
        ("pkg::Old".to_string(), strings(&["src/old.cairo"])),
        ("pkg::B".to_string(), strings(&["src/b.cairo"])),
    ];
    let plans = strings(&["pkg::A", "pkg::B"]);
    assert!(native_prune_contract_source_dependencies_for_output_plans(&mut deps, &plans));
    assert_eq!(deps.len(), 2);
    assert_eq!(deps[0].0, "pkg::A");
    assert_eq!(deps[1].0, "pkg::B");
    assert_eq!(deps[1].1, strings(&["src/b.cairo"]));
    assert!(!native_prune_contract_source_dependencies_for_output_plans(&mut deps, &plans));
}

#[test]
fn batch_summary_previews_three_paths() {
    let paths = strings(&["p::A", "p::B", "p::C", "p::D", "p::E"]);
    assert_eq!(native_compile_batch_summary(&paths, &vec![0, 1]), "p::A, p::B");
    assert_eq!(
        native_compile_batch_summary(&paths, &vec![4, 3, 2, 1, 0]),
        "p::E, p::D, p::C (+2 more)"
    );
    assert_eq!(native_compile_batch_summary(&paths, &vec![9, 1, 8, 2]), "p::B (+3 more)");
    assert_eq!(native_compile_batch_summary(&paths, &vec![7, 8]), "2 contract(s)");
    assert_eq!(native_compile_batch_summary(&paths, &vec![]), "0 contract(s)");
}

#[test]
fn decimal_notation() {
    assert_eq!(decimal_string(0), "0");
    assert_eq!(decimal_string(7), "7");
    assert_eq!(decimal_string(1203), "1203");
    assert_eq!(decimal_string(u64::MAX), u64::MAX.to_string());
}
