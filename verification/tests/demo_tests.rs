use chronos_engine::demo::DemoReport;

#[test]
fn demo_report_success() {
    let mut report = DemoReport::new();
    report.step_completed("plugin_registry");
    report.step_completed("init");
    report.step_completed("simulation");
    report.step_completed("factions");
    report.step_completed("save_load");
    report.step_completed("editor_hooks");
    report.step_completed("shutdown");
    assert!(report.is_success());
}

#[test]
fn demo_report_failure_on_missing_step() {
    let mut report = DemoReport::new();
    report.step_completed("plugin_registry");
    report.step_completed("init");
    // missing steps
    assert!(!report.is_success());
}

#[test]
fn demo_report_order_does_not_matter() {
    let mut report = DemoReport::default();
    for s in ["shutdown", "editor_hooks", "save_load", "factions", "simulation", "init", "plugin_registry"] {
        report.step_completed(s);
    }
    assert!(report.is_success());
    assert_eq!(report.tick_count, 0);
    assert!(report.errors.is_empty());
}
