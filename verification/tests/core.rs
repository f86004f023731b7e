use eda_diff_core::core_status;

#[test]
fn reports_ready_status() {
    assert_eq!(core_status(), "EDA-Diff Rust core ready");
}
