use uc_cli::debug_deps::{
    native_collect_contract_dependency_updates, native_contract_dependency_paths_from_debug_paths,
    native_workspace_relative_cairo_path_from_debug,
};
use uc_cli::native_session::NativeContractOutputPlan;

fn s(v: &str) -> String {
    v.to_string()
}

#[test]
fn debug_paths_become_workspace_keys() {
    assert_eq!(native_workspace_relative_cairo_path_from_debug("/w", "/w/src/a.cairo"), Some(s("src/a.cairo")));
    assert_eq!(native_workspace_relative_cairo_path_from_debug("/w", "src/b.cairo"), Some(s("src/b.cairo")));
    assert_eq!(native_workspace_relative_cairo_path_from_debug("/w", "/other/a.cairo"), None);
    assert_eq!(native_workspace_relative_cairo_path_from_debug("/w", "../a.cairo"), None);
    assert_eq!(native_workspace_relative_cairo_path_from_debug("/w", "/w/src/a.rs"), None);
}

#[test]
fn dependency_paths_are_sorted_and_distinct() {
    let paths = vec![s("/w/src/b.cairo"), s("/w/src/a.cairo"), s("src/b.cairo"), s("/x/y.cairo")];
    assert_eq!(native_contract_dependency_paths_from_debug_paths("/w", &paths), vec![s("src/a.cairo"), s("src/b.cairo")]);
}

#[test]
fn dependency_updates_pair_contracts_with_their_files() {
    let plan = |m: &str| NativeContractOutputPlan {
        mod_path: s(m),
        artifact_id: s(m),
        package_name: s("demo"),
        contract_name: s(m),
        artifact_file: s("f.json"),
        casm_file: None,
    };
    let plans = vec![plan("m::a"), plan("m::b"), plan("m::c")];
    let sources = vec![Some(s("src/a.cairo")), None, Some(s("src/c.cairo"))];
    let selected = vec![2, 0, 1];
    let deps = vec![vec![s("src/lib.cairo")], vec![], vec![s("src/x.cairo")]];
    let updates = native_collect_contract_dependency_updates(&plans, &sources, &selected, &deps);
    assert_eq!(
        updates,
        vec![
            (s("m::c"), vec![s("src/c.cairo"), s("src/lib.cairo")]),
            (s("m::a"), vec![]),
            (s("m::b"), vec![s("src/x.cairo")]),
        ]
    );
    let fewer = native_collect_contract_dependency_updates(&plans, &sources, &selected, &vec![vec![]]);
    assert_eq!(fewer.len(), 1);
}
