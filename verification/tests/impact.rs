use uc_cli::impact::{
    native_changed_files_affect_tracked_contracts, native_compile_session_estimated_heap_bytes,
    native_contract_name, native_contract_package_name,
    native_filter_changed_files_to_contract_source_index, native_impacted_contract_indices,
    native_impacted_subset_used, native_indexed_source_metric,
    native_should_capture_statement_locations_with_flags,
    native_should_force_full_rebuild_on_empty_delta, native_should_persist_crate_cache_after_build,
    native_should_try_cached_noop_reuse, native_should_use_dependency_metadata_with_flags,
};

fn strings(v: &[&str]) -> Vec<String> {
    v.iter().map(|s| s.to_string()).collect()
}

fn deps(entries: &[(&str, &[&str])]) -> Vec<(String, Vec<String>)> {
    entries
        .iter()
        .map(|(m, ds)| (m.to_string(), strings(ds)))
        .collect()
}

fn modules() -> Vec<String> {
    strings(&["pkg::a::A", "pkg::b::B", "pkg::c::C"])
}

fn own_sources() -> Vec<Option<String>> {
    vec![
        Some("src/a.cairo".to_string()),
        Some("src/b.cairo".to_string()),
        None,
    ]
}

fn complete_index() -> Vec<(String, Vec<String>)> {
    deps(&[
        ("pkg::a::A", &["src/a.cairo", "src/shared.cairo"]),
        ("pkg::b::B", &["src/b.cairo"]),
        ("pkg::c::C", &["src/c.cairo", "src/shared.cairo"]),
    ])
}

#[test]
fn empty_change_set_impacts_nothing() {
    assert_eq!(
        native_impacted_contract_indices(&modules(), &own_sources(), &vec![], &vec![], &complete_index()),
        Some(vec![])
    );
}

#[test]
fn shared_source_impacts_all_dependents_in_order() {
    assert_eq!(
        native_impacted_contract_indices(
            &modules(),
            &own_sources(),
            &strings(&["src/shared.cairo"]),
            &strings(&["src/b.cairo"]),
            &complete_index()
        ),
        Some(vec![0, 1, 2])
    );
    assert_eq!(
        native_impacted_contract_indices(
            &modules(),
            &own_sources(),
            &strings(&["src/c.cairo"]),
            &vec![],
            &complete_index()
        ),
        Some(vec![2])
    );
}

#[test]
fn absolute_paths_force_full_compile() {
    assert_eq!(
        native_impacted_contract_indices(
            &modules(),
            &own_sources(),
            &strings(&["/abs/x.cairo"]),
            &vec![],
            &complete_index()
        ),
        None
    );
}

#[test]
fn complete_index_ignores_unknown_sources_but_not_tracked_ones() {
    assert_eq!(
        native_impacted_contract_indices(
            &modules(),
            &own_sources(),
            &strings(&["src/unrelated.cairo"]),
            &vec![],
            &complete_index()
        ),
        Some(vec![])
    );
    let index = deps(&[
        ("pkg::a::A", &["src/shared.cairo"]),
        ("pkg::b::B", &["src/b.cairo"]),
        ("pkg::c::C", &["src/c.cairo"]),
    ]);
    // `src/a.cairo` is contract A's own file yet no contract depends on it
    assert_eq!(
        native_impacted_contract_indices(&modules(), &own_sources(), &strings(&["src/a.cairo"]), &vec![], &index),
        None
    );
}

#[test]
fn incomplete_index_falls_back_to_own_sources() {
    let index = deps(&[("pkg::a::A", &["src/shared.cairo"]), ("pkg::b::B", &[])]);
    assert_eq!(
        native_impacted_contract_indices(
            &modules(),
            &own_sources(),
            &strings(&["src/b.cairo", "src/shared.cairo"]),
            &vec![],
            &index
        ),
        Some(vec![0, 1])
    );
    assert_eq!(
        native_impacted_contract_indices(
            &modules(),
            &own_sources(),
            &strings(&["src/other.cairo"]),
            &vec![],
            &index
        ),
        None
    );
}

#[test]
fn affect_and_filter_follow_the_index() {
    let m = modules();
    let idx = complete_index();
    assert!(!native_changed_files_affect_tracked_contracts(&vec![], &vec![], &m, &idx));
    assert!(native_changed_files_affect_tracked_contracts(&strings(&["/x"]), &vec![], &m, &idx));
    assert!(native_changed_files_affect_tracked_contracts(&strings(&["src/b.cairo"]), &vec![], &m, &idx));
    assert!(!native_changed_files_affect_tracked_contracts(&strings(&["README.md"]), &vec![], &m, &idx));
    let partial = deps(&[("pkg::a::A", &["src/a.cairo"])]);
    assert!(native_changed_files_affect_tracked_contracts(&strings(&["README.md"]), &vec![], &m, &partial));

    let (c, r) = native_filter_changed_files_to_contract_source_index(
        &strings(&["src/a.cairo", "README.md"]),
        &strings(&["src/c.cairo", "docs/x.md"]),
        &m,
        &idx,
    );
    assert_eq!(c, strings(&["src/a.cairo"]));
    assert_eq!(r, strings(&["src/c.cairo"]));
    let (c, r) = native_filter_changed_files_to_contract_source_index(
        &strings(&["README.md"]),
        &vec![],
        &m,
        &partial,
    );
    assert_eq!(c, strings(&["README.md"]));
    assert!(r.is_empty());
}

#[test]
fn contract_and_package_names_split_module_paths() {
    assert_eq!(native_contract_name("pkg::mod::Contract"), "Contract");
    assert_eq!(native_contract_name("Contract"), "Contract");
    assert_eq!(native_contract_package_name("pkg::mod::Contract"), "pkg");
    assert_eq!(native_contract_package_name("pkg"), "pkg");
    assert_eq!(native_contract_name("a:::b"), "b");
    assert_eq!(native_contract_package_name("a:::b"), "a");
    assert_eq!(native_contract_name("x::"), "");
}

#[test]
fn native_flags() {
    assert!(native_should_use_dependency_metadata_with_flags(false, 0, 1));
    assert!(native_should_use_dependency_metadata_with_flags(true, 2, 0));
    assert!(!native_should_use_dependency_metadata_with_flags(true, 0, 0));
    assert!(!native_should_use_dependency_metadata_with_flags(false, 3, 0));

    let none: Vec<String> = vec![];
    let one = strings(&["src/a.cairo"]);
    assert!(!native_should_capture_statement_locations_with_flags(false, true, &one, &none, false));
    assert!(native_should_capture_statement_locations_with_flags(true, false, &one, &none, false));
    assert!(!native_should_capture_statement_locations_with_flags(true, false, &one, &none, true));
    assert!(native_should_capture_statement_locations_with_flags(true, true, &none, &none, false));

    assert!(native_should_force_full_rebuild_on_empty_delta(true, true, false, false));
    assert!(!native_should_force_full_rebuild_on_empty_delta(true, true, false, true));
    assert!(native_should_try_cached_noop_reuse(&none, &none, false));
    assert!(!native_should_try_cached_noop_reuse(&none, &one, false));
    assert!(!native_should_try_cached_noop_reuse(&none, &none, true));
    assert!(native_should_persist_crate_cache_after_build(true, true, 0, 0, 3));
    assert!(!native_should_persist_crate_cache_after_build(true, true, 1, 0, 3));
    assert!(!native_should_persist_crate_cache_after_build(false, true, 0, 0, 3));
    assert!(native_impacted_subset_used(5, 2));
    assert!(!native_impacted_subset_used(5, 5));
    assert!(!native_impacted_subset_used(5, 0));
    assert_eq!(native_compile_session_estimated_heap_bytes(10, 3, 7), 37);
    assert_eq!(native_compile_session_estimated_heap_bytes(u64::MAX, 2, 7), u64::MAX);
    assert_eq!(native_compile_session_estimated_heap_bytes(1, 1, u64::MAX), u64::MAX);
    assert_eq!(native_indexed_source_metric(&one, &one, 1), 1);
    assert_eq!(native_indexed_source_metric(&one, &none, 5), 0);
}
