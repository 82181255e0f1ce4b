use zenlings::term::{
    Action, CheckOutcome, KeyPress, ModalView, StartupCheckItem, StartupCheckStatus,
    apply_outcome, init_check_outcome, key_to_action, list_entry_line, orchestrator_check_outcome,
    progress_bar_filled, python_check_outcome, render_welcome, spinner_frame, tail_start,
    truncate_chars, zenml_install_outcome,
};
use zenlings::verify::{OrchestratorCheckResult, PythonVersion, probe_zenml};
use zenlings::watch::{Debouncer, WatchEvent, has_py_extension, watch_event_for};

// Trailing-edge debounce: after one event the trigger is due exactly
// when the quiet period has elapsed.
#[test]
fn debouncer_fires_after_quiet_period() {
    let mut d = Debouncer::new(300);
    assert!(!d.ready_to_trigger(0));
    d.observe(100);
    assert!(!d.ready_to_trigger(100));
    assert!(!d.ready_to_trigger(399));
    assert!(d.ready_to_trigger(400));
    assert!(d.ready_to_trigger(10_000));
    d.reset();
    assert!(!d.ready_to_trigger(10_000));
}

// A second event defers the deadline: within the quiet period of the
// second observation nothing is due.
#[test]
fn debouncer_defers_on_new_events() {
    let mut d = Debouncer::new(300);
    d.observe(0);
    d.observe(250);
    assert!(!d.ready_to_trigger(300));
    assert!(!d.ready_to_trigger(549));
    assert!(d.ready_to_trigger(550));
}

#[test]
fn should_process_observes_and_reports() {
    let mut d = Debouncer::new(300);
    assert!(d.should_process(0));
    assert!(!d.should_process(100));
    assert!(d.should_process(500));
}

#[test]
fn py_extension_filter() {
    assert!(has_py_extension(&"/pack/exercises/01/load1.py".to_string()));
    assert!(has_py_extension(&"relative/a.tar.py".to_string()));
    assert!(!has_py_extension(&"/pack/exercises/01/load1.pyc".to_string()));
    assert!(!has_py_extension(&"/pack/exercises/01/.py".to_string()));
    assert!(!has_py_extension(&"/pack/notes.txt".to_string()));
    assert!(!has_py_extension(&"/pack/dir.py/".to_string()));
}

#[test]
fn watch_filter_forwards_relevant_changes() {
    let hit = watch_event_for(true, "/p/a.py".to_string());
    assert!(matches!(hit, Some(WatchEvent::FileChanged(p)) if p == "/p/a.py"));
    assert!(watch_event_for(false, "/p/a.py".to_string()).is_none());
    assert!(watch_event_for(true, "/p/a.txt".to_string()).is_none());
}

#[test]
fn key_table_matches_the_help_line() {
    let ch = |c| KeyPress::Char { c, ctrl: false };
    assert_eq!(key_to_action(ch('q')), Action::Quit);
    assert_eq!(key_to_action(KeyPress::Char { c: 'c', ctrl: true }), Action::Quit);
    assert_eq!(key_to_action(ch('h')), Action::Hint);
    assert_eq!(key_to_action(ch('n')), Action::Next);
    assert_eq!(key_to_action(ch('p')), Action::Prev);
    assert_eq!(key_to_action(ch('l')), Action::List);
    assert_eq!(key_to_action(ch('r')), Action::Rerun);
    assert_eq!(key_to_action(ch('s')), Action::Solution);
    assert_eq!(key_to_action(ch('o')), Action::Open);
    assert_eq!(key_to_action(KeyPress::Enter), Action::Continue);
    assert_eq!(key_to_action(KeyPress::Esc), Action::Continue);
    assert_eq!(key_to_action(ch('x')), Action::NoOp);
    assert_eq!(key_to_action(KeyPress::Other), Action::NoOp);
}

#[test]
fn progress_bar_fills_proportionally() {
    assert_eq!(progress_bar_filled(0, 2, 30), 0);
    assert_eq!(progress_bar_filled(1, 2, 30), 15);
    assert_eq!(progress_bar_filled(2, 2, 30), 30);
    assert_eq!(progress_bar_filled(1, 3, 30), 10);
    assert_eq!(progress_bar_filled(5, 0, 30), 0);
}

#[test]
fn output_tail_shows_last_rows() {
    assert_eq!(tail_start(120, 20), 100);
    assert_eq!(tail_start(5, 20), 0);
    assert_eq!(tail_start(20, 20), 0);
}

#[test]
fn truncation_is_character_safe() {
    assert_eq!(truncate_chars("hello", 10), "hello");
    assert_eq!(truncate_chars("hello", 3), "hel");
    assert_eq!(truncate_chars("naïve line", 4), "naïv");
}

#[test]
fn list_lines_carry_marker_glyph_and_number() {
    assert_eq!(list_entry_line(0, true, false, "01/load1.py"), "→ ⬜  1. 01/load1.py");
    assert_eq!(list_entry_line(1, false, true, "01/load2.py"), "  ✅  2. 01/load2.py");
    assert_eq!(list_entry_line(11, false, false, "03/x.py"), "  ⬜ 12. 03/x.py");
}

#[test]
fn spinner_cycles_four_frames() {
    assert_eq!(spinner_frame(0), "◐");
    assert_eq!(spinner_frame(1), "◓");
    assert_eq!(spinner_frame(2), "◑");
    assert_eq!(spinner_frame(3), "◒");
    assert_eq!(spinner_frame(4), "◐");
}

#[test]
fn welcome_modal_carries_the_message() {
    let m: ModalView = render_welcome("hello learner");
    assert_eq!(m.title, "Welcome to Zenlings!");
    assert_eq!(m.body, "hello learner");
}

#[test]
fn python_check_verdicts() {
    let ok = python_check_outcome(&Ok(PythonVersion { major: 3, minor: 11, patch: 5 }));
    assert!(matches!(ok, CheckOutcome::Pass { details } if details == "Python 3.11.5"));
    let old = python_check_outcome(&Ok(PythonVersion { major: 3, minor: 8, patch: 0 }));
    assert!(matches!(old, CheckOutcome::Fail { error, .. } if error == "Python 3.8.0 (need >= 3.9.0)"));
    let missing = python_check_outcome(&Err("no interpreter".to_string()));
    assert!(
        matches!(missing, CheckOutcome::Fail { error, .. } if error == "Could not detect Python: no interpreter")
    );
}

#[test]
fn install_check_verdicts() {
    let ok = zenml_install_outcome(&probe_zenml(true, Some("0.60.0".to_string()), true, None));
    assert!(matches!(ok, CheckOutcome::Pass { details } if details == "v0.60.0"));
    let cli_only = zenml_install_outcome(&probe_zenml(true, None, true, Some("0.61.0".to_string())));
    assert!(matches!(cli_only, CheckOutcome::Pass { details } if details == "CLI v0.61.0"));
    let no_import = zenml_install_outcome(&probe_zenml(false, None, true, None));
    assert!(
        matches!(no_import, CheckOutcome::Fail { error, .. } if error == "ZenML not found in Python environment")
    );
    let no_cli = zenml_install_outcome(&probe_zenml(true, None, false, None));
    assert!(matches!(no_cli, CheckOutcome::Fail { error, .. } if error == "ZenML CLI not accessible"));
}

#[test]
fn init_and_orchestrator_verdicts() {
    let ok = init_check_outcome(true, "/pack");
    assert!(matches!(ok, CheckOutcome::Pass { details } if details == ".zen directory found"));
    let missing = init_check_outcome(false, "/pack");
    match missing {
        CheckOutcome::Fail { error, help } => {
            assert_eq!(error, "ZenML not initialized");
            assert_eq!(help, vec!["cd /pack".to_string(), "zenml init".to_string()]);
        }
        _ => panic!("expected failure"),
    }
    let local = orchestrator_check_outcome(&OrchestratorCheckResult::Found("local".to_string()));
    assert!(matches!(local, CheckOutcome::Pass { details } if details == "local"));
    let other = orchestrator_check_outcome(&OrchestratorCheckResult::Found("k8s".to_string()));
    assert!(
        matches!(other, CheckOutcome::Warn { details } if details == "'k8s' (recommend 'local' for fast feedback)")
    );
    let none = orchestrator_check_outcome(&OrchestratorCheckResult::NotFound);
    assert!(matches!(none, CheckOutcome::Warn { details } if details == "no active orchestrator found"));
}

#[test]
fn apply_outcome_writes_the_item() {
    let mut items = vec![
        StartupCheckItem {
            label: "Python version".to_string(),
            status: StartupCheckStatus::Pending,
        },
        StartupCheckItem {
            label: "ZenML installed".to_string(),
            status: StartupCheckStatus::Pending,
        },
    ];
    apply_outcome(&mut items, 1, &CheckOutcome::Pass { details: "v1".to_string() });
    assert!(matches!(items[0].status, StartupCheckStatus::Pending));
    assert_eq!(items[1].label, "ZenML installed");
    assert!(matches!(&items[1].status, StartupCheckStatus::Passed { details } if details == "v1"));
}
