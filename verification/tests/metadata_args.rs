use uc_cli::modes::DaemonModeArg;
use uc_cli::protocol::{should_capture_metadata_output_for_local_run, MetadataArgs};

#[test]
fn metadata_local_capture_output_mode_only_depends_on_report_generation() {
    let base = MetadataArgs {
        manifest_path: Some("/tmp/workspace/Scarb.toml".to_string()),
        format_version: 1,
        daemon_mode: DaemonModeArg::Off,
        offline: false,
        global_cache_dir: None,
        report_path: None,
    };
    assert!(
        !should_capture_metadata_output_for_local_run(&base),
        "daemon=off without report should stream output"
    );

    let mut with_report = base.clone();
    with_report.report_path = Some("/tmp/report.json".to_string());
    assert!(
        should_capture_metadata_output_for_local_run(&with_report),
        "report generation requires buffered output capture"
    );

    let mut daemon_auto = base;
    daemon_auto.daemon_mode = DaemonModeArg::Auto;
    assert!(
        !should_capture_metadata_output_for_local_run(&daemon_auto),
        "daemon auto fallback to local should stream output when report generation is disabled"
    );
}
