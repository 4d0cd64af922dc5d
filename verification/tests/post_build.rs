use uc_cli::native_session::NativeContractOutputPlan;
use uc_cli::post_build::native_update_compile_session_post_build_state;

fn s(v: &str) -> String {
    v.to_string()
}

fn plan(module: &str) -> NativeContractOutputPlan {
    NativeContractOutputPlan {
        mod_path: s(module),
        artifact_id: s(module),
        package_name: s("demo"),
        contract_name: s(module),
        artifact_file: s("f.json"),
        casm_file: None,
    }
}

#[test]
fn dependency_updates_replace_drop_and_insert_in_module_order() {
    let mut deps = vec![(s("m::a"), vec![s("src/a.cairo")]), (s("m::c"), vec![s("src/c.cairo")])];
    let mut plans = vec![plan("m::a"), plan("m::c")];
    let updates = vec![
        (s("m::c"), vec![s("src/c.cairo")]),
        (s("m::b"), vec![s("src/b.cairo")]),
        (s("m::a"), vec![]),
    ];
    assert!(native_update_compile_session_post_build_state(&mut deps, &mut plans, updates, None));
    assert_eq!(deps, vec![(s("m::b"), vec![s("src/b.cairo")]), (s("m::c"), vec![s("src/c.cairo")])]);
    assert_eq!(plans.len(), 2);
}

#[test]
fn unchanged_updates_report_no_change() {
    let mut deps = vec![(s("m::a"), vec![s("src/a.cairo")])];
    let mut plans = vec![plan("m::a")];
    let same = vec![(s("m::a"), vec![s("src/a.cairo")]), (s("m::z"), vec![])];
    assert!(!native_update_compile_session_post_build_state(&mut deps, &mut plans, same, Some(vec![plan("m::a")])));
    assert_eq!(deps, vec![(s("m::a"), vec![s("src/a.cairo")])]);
}

#[test]
fn new_plans_prune_dependencies_of_dropped_contracts() {
    let mut deps = vec![(s("m::a"), vec![s("src/a.cairo")]), (s("m::b"), vec![s("src/b.cairo")])];
    let mut plans = vec![plan("m::a"), plan("m::b")];
    assert!(native_update_compile_session_post_build_state(&mut deps, &mut plans, vec![], Some(vec![plan("m::b")])));
    assert_eq!(deps, vec![(s("m::b"), vec![s("src/b.cairo")])]);
    assert_eq!(plans.iter().map(|p| p.mod_path.clone()).collect::<Vec<_>>(), vec![s("m::b")]);
}
