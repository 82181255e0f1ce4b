use zenlings::exercise::{Exercise, ExerciseEntry};
use zenlings::verify::{
    OrchestratorCheckResult, PythonVersion, StatusStep, VerifyOptions, VerifyOutcome, ZenmlProbe,
    check_zenml_init, combine_output, find_python_binary, find_zenml_binary,
    parse_cli_version_line, parse_python_version, parse_zenml_status, probe_zenml,
    verification_error_result, verify_exercise, verify_exercise_simple, worker_result,
};

fn exercise() -> Exercise {
    let entry = ExerciseEntry {
        name: "load1".to_string(),
        dir: "01_loading".to_string(),
        hint: None,
        pipeline_name: None,
        verify_status: None,
        verify_step_count: None,
    };
    Exercise::from_entry(&entry, "/pack")
}

#[test]
fn test_parse_zenml_status() {
    // Status is directly on the item (not nested in "body")
    let json = r#"{"items":[{"status":"completed"}]}"#;
    assert_eq!(parse_zenml_status(json), Some("completed".to_string()));

    let json_empty = r#"{"items":[]}"#;
    assert_eq!(parse_zenml_status(json_empty), None);
}

#[test]
fn test_python_version_comparison() {
    let v39 = PythonVersion { major: 3, minor: 9, patch: 0 };
    let v311 = PythonVersion { major: 3, minor: 11, patch: 5 };
    let v38 = PythonVersion { major: 3, minor: 8, patch: 10 };

    assert!(v39.meets_minimum());
    assert!(v311.meets_minimum());
    assert!(!v38.meets_minimum());

    assert!(v311 > v39);
    assert!(v39 > v38);
}

#[test]
fn test_python_version_display() {
    let v = PythonVersion { major: 3, minor: 11, patch: 5 };
    assert_eq!(v.version_string(), "3.11.5");
}

#[test]
fn parse_python_version_accepts_triples() {
    assert_eq!(
        parse_python_version("3.11.5"),
        Some(PythonVersion { major: 3, minor: 11, patch: 5 })
    );
    assert_eq!(
        parse_python_version("0.0.0"),
        Some(PythonVersion { major: 0, minor: 0, patch: 0 })
    );
}

#[test]
fn parse_python_version_rejects_other_shapes() {
    assert_eq!(parse_python_version(""), None);
    assert_eq!(parse_python_version("3.11"), None);
    assert_eq!(parse_python_version("3.11.5.2"), None);
    assert_eq!(parse_python_version("a.b.c"), None);
    assert_eq!(parse_python_version("3..5"), None);
    assert_eq!(parse_python_version(".1.2"), None);
    assert_eq!(parse_python_version("1.2."), None);
    assert_eq!(parse_python_version("3.11.5 "), None);
}

#[test]
fn full_mode_passes_on_matching_status() {
    let ex = exercise();
    let r = verify_exercise(
        &ex,
        true,
        "out".to_string(),
        true,
        "listing".to_string(),
        Some("completed".to_string()),
    );
    assert!(r.passed());
    assert_eq!(r.outcome, VerifyOutcome::Passed);
    assert_eq!(r.message, "Pipeline completed");
    assert!(r.zenml_checked);
}

#[test]
fn full_mode_status_mismatch_fails_with_both_names() {
    // Script exits 0 but the engine reports a different status.
    let ex = exercise();
    let r = verify_exercise(
        &ex,
        true,
        String::new(),
        true,
        "listing".to_string(),
        Some("running".to_string()),
    );
    assert!(!r.passed());
    assert_eq!(r.message, "Pipeline status 'running', expected 'completed'");
    assert!(r.message.contains("'running'"));
    assert!(r.message.contains("'completed'"));
}

#[test]
fn full_mode_script_failure_short_circuits() {
    let ex = exercise();
    let r = verify_exercise(
        &ex,
        false,
        "boom".to_string(),
        true,
        "ignored".to_string(),
        Some("completed".to_string()),
    );
    assert!(!r.passed());
    assert_eq!(r.message, "Python script failed");
    assert!(!r.zenml_checked);
    assert_eq!(r.display_output(), "boom");
}

#[test]
fn full_mode_status_tool_failure_never_passes() {
    let ex = exercise();
    let r = verify_exercise(&ex, true, String::new(), false, "tool broke".to_string(), None);
    assert!(!r.passed());
    assert_eq!(r.message, "ZenML status check failed");
    assert_eq!(r.display_output(), "tool broke");
}

#[test]
fn full_mode_unknown_status_reads_as_unknown() {
    let ex = exercise();
    let r = verify_exercise(&ex, true, String::new(), true, String::new(), None);
    assert_eq!(r.message, "Pipeline status 'unknown', expected 'completed'");
}

#[test]
fn simple_mode_follows_exit_code() {
    let ex = exercise();
    let pass = verify_exercise_simple(&ex, true, "out".to_string());
    assert!(pass.passed());
    assert_eq!(pass.message, "Exercise completed successfully");
    assert!(!pass.zenml_checked);
    let fail = verify_exercise_simple(&ex, false, "err".to_string());
    assert!(!fail.passed());
    assert_eq!(fail.message, "Python script failed");
}

#[test]
fn verification_error_is_a_failed_result() {
    let ex = exercise();
    let r = verification_error_result(&ex, "spawn failed");
    assert!(!r.passed());
    assert_eq!(r.message, "Verification error: spawn failed");
    assert_eq!(r.zenml_output, "Error: spawn failed");
}

#[test]
fn worker_builds_one_result_per_mode() {
    let ex = exercise();
    let simple = worker_result(&ex, true, true, StatusStep::Skipped);
    assert!(simple.passed());
    assert_eq!(simple.message, "Exercise completed successfully");

    let failed_script = worker_result(&ex, false, false, StatusStep::Skipped);
    assert!(!failed_script.passed());
    assert_eq!(failed_script.message, "Python script failed");

    let full = worker_result(
        &ex,
        false,
        true,
        StatusStep::Ran {
            zenml_ok: true,
            zenml_output: "listing".to_string(),
            status: Some("completed".to_string()),
        },
    );
    assert!(full.passed());
    assert_eq!(full.message, "Pipeline completed");

    let broke = worker_result(&ex, false, true, StatusStep::Broke { error: "no tool".to_string() });
    assert!(!broke.passed());
    assert_eq!(broke.message, "Verification error: no tool");
}

#[test]
fn cli_version_line_parses_after_keyword() {
    assert_eq!(parse_cli_version_line("zenml, version 0.60.0"), "0.60.0");
    assert_eq!(parse_cli_version_line("version 1.2.3"), "1.2.3");
    assert_eq!(parse_cli_version_line("  0.55.5  "), "0.55.5");
    assert_eq!(parse_cli_version_line("zenml 0.60.0"), "zenml 0.60.0");
}

#[test]
fn combine_output_joins_streams() {
    assert_eq!(combine_output("out", ""), "out");
    assert_eq!(combine_output("out", "err"), "out\nerr");
}

#[test]
fn check_zenml_init_looks_for_marker() {
    let with = vec!["src".to_string(), ".zen".to_string()];
    let without = vec!["src".to_string(), ".zenml".to_string()];
    assert!(check_zenml_init(&with));
    assert!(!check_zenml_init(&without));
}

#[test]
fn binary_discovery_prefers_venv() {
    assert_eq!(find_python_binary("/pack", "python", true), "/pack/.venv/bin/python");
    assert_eq!(find_python_binary("/pack", "python3", false), "python3");
    assert_eq!(find_zenml_binary("/pack", "zenml", true), "/pack/.venv/bin/zenml");
    assert_eq!(find_zenml_binary("/pack", "zenml", false), "zenml");
}

#[test]
fn probe_carries_check_results() {
    let p: ZenmlProbe = probe_zenml(true, Some("0.60.0".to_string()), false, None);
    assert!(p.python_import_ok);
    assert!(!p.zenml_cli_ok);
    assert_eq!(p.zenml_version.as_deref(), Some("0.60.0"));
    assert!(p.zenml_cli_version.is_none());
}

#[test]
fn default_options_use_stock_names() {
    let o = VerifyOptions::default();
    assert_eq!(o.python_bin, "python");
    assert_eq!(o.zenml_bin, "zenml");
    assert_eq!(o.working_dir, ".");
}

#[test]
fn orchestrator_results_carry_flavor() {
    let found = OrchestratorCheckResult::Found("local".to_string());
    assert!(matches!(found, OrchestratorCheckResult::Found(ref f) if f == "local"));
    let failed = OrchestratorCheckResult::CommandFailed("no tool".to_string());
    assert!(matches!(failed, OrchestratorCheckResult::CommandFailed(_)));
}
