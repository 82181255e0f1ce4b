use zenlings::app_state::AppState;
use zenlings::codec::parse_progress;
use zenlings::exercise::{CatalogError, ExerciseEntry, InfoToml};
use zenlings::term::Action;
use zenlings::tick::{
    ActionEffect, LoopState, OUTPUT_RING_CAP, VerifyMessage, apply_action, handle_verify_message,
    handle_watch_event, push_output, try_trigger,
};
use zenlings::verify::{OutputLine, VerifyOutcome, VerifyResult};
use zenlings::watch::{Debouncer, WatchEvent};

fn entry(name: &str) -> ExerciseEntry {
    ExerciseEntry {
        name: name.to_string(),
        dir: "01".to_string(),
        hint: Some(format!("hint for {}", name)),
        pipeline_name: None,
        verify_status: None,
        verify_step_count: None,
    }
}

fn two_exercise_state() -> AppState {
    let info = InfoToml {
        format_version: 1,
        welcome_message: Some("welcome".to_string()),
        final_message: Some("done".to_string()),
        exercises: vec![entry("load1"), entry("load2")],
    };
    AppState::load(
        "/tmp/zenlings".to_string(),
        info,
        &vec![true, true],
        &None,
        1700000000,
    )
    .expect("load must succeed")
}

fn passed_result(name: &str) -> VerifyResult {
    VerifyResult {
        exercise_name: name.to_string(),
        outcome: VerifyOutcome::Passed,
        python_exit_ok: true,
        python_output: String::new(),
        zenml_checked: false,
        zenml_output: String::new(),
        message: "Exercise completed successfully".to_string(),
    }
}

// Cold start on a fresh pack: the pointer is at the first exercise and
// the first save writes an empty completed set with that exercise as
// current.
#[test]
fn cold_start_first_exercise() {
    let mut app = two_exercise_state();
    assert_eq!(app.current_index, 0);
    assert_eq!(app.completed_count(), 0);
    assert_eq!(app.total_count(), 2);
    assert!(!app.all_completed());
    assert_eq!(app.current_exercise().name, "load1");
    assert_eq!(app.current_exercise().display_path(), "01/load1.py");
    assert_eq!(app.progress_path(), "/tmp/zenlings/.zenlings-progress.json");

    let content = app.save_progress(1700000001);
    assert!(content.contains("\"completed\":[]"));
    assert!(content.contains("\"current\":\"load1\""));
    let saved = parse_progress(&content).unwrap();
    assert!(saved.completed.is_empty());
    assert_eq!(saved.current.as_deref(), Some("load1"));
}

// A save to the current exercise's file fires exactly one run after
// the quiet period, and its passing result marks the exercise
// completed without advancing the pointer.
#[test]
fn save_triggers_verification_simple_mode() {
    let app = two_exercise_state();
    let path = app.current_exercise().path.clone();
    let mut s = LoopState::new(app);
    let mut deb = Debouncer::new(300);

    handle_watch_event(&mut s, &mut deb, &WatchEvent::FileChanged(path), 0);
    assert!(try_trigger(&mut s, &mut deb, 100).is_none());
    let run = try_trigger(&mut s, &mut deb, 300).expect("debounce elapsed, must fire");
    assert_eq!(run.name, "load1");
    assert!(s.app.verifying);

    let save = handle_verify_message(&mut s, VerifyMessage::Result(passed_result("load1")), 50);
    assert!(s.app.is_completed("load1"));
    assert_eq!(s.app.current_index, 0);
    assert!(!s.app.verifying);
    let content = save.expect("a passing result must save progress");
    let record = parse_progress(&content).unwrap();
    assert_eq!(record.completed, vec!["load1".to_string()]);
}

// Three rapid saves coalesce into one run: the trigger fires once the
// quiet period has elapsed after the last save, and only once.
#[test]
fn burst_save_coalescing() {
    let app = two_exercise_state();
    let path = app.current_exercise().path.clone();
    let mut s = LoopState::new(app);
    let mut deb = Debouncer::new(300);

    handle_watch_event(&mut s, &mut deb, &WatchEvent::FileChanged(path.clone()), 0);
    handle_watch_event(&mut s, &mut deb, &WatchEvent::FileChanged(path.clone()), 100);
    handle_watch_event(&mut s, &mut deb, &WatchEvent::FileChanged(path.clone()), 200);

    assert!(try_trigger(&mut s, &mut deb, 250).is_none());
    assert!(try_trigger(&mut s, &mut deb, 499).is_none());
    let mut runs = 0;
    if try_trigger(&mut s, &mut deb, 500).is_some() {
        runs += 1;
    }
    if try_trigger(&mut s, &mut deb, 600).is_some() {
        runs += 1;
    }
    if try_trigger(&mut s, &mut deb, 10_000).is_some() {
        runs += 1;
    }
    assert_eq!(runs, 1);
}

// A result for an exercise that is no longer current is dropped
// without touching any state.
#[test]
fn stale_result_dropped() {
    let app = two_exercise_state();
    let mut s = LoopState::new(app);
    let mut deb = Debouncer::new(300);
    let path = s.app.current_exercise().path.clone();

    handle_watch_event(&mut s, &mut deb, &WatchEvent::FileChanged(path), 0);
    let run = try_trigger(&mut s, &mut deb, 300).unwrap();
    assert_eq!(run.name, "load1");

    // The learner moves on before the result lands.
    let effect = apply_action(&mut s, Action::Next, 1000);
    assert!(matches!(effect, ActionEffect::Save(_)));
    assert_eq!(s.app.current_exercise().name, "load2");

    let save = handle_verify_message(&mut s, VerifyMessage::Result(passed_result("load1")), 2000);
    assert!(save.is_none());
    assert!(!s.app.is_completed("load1"));
    assert!(s.app.last_verify.is_none());
}

// Failing results never touch the completed set.
#[test]
fn failing_result_saves_nothing() {
    let app = two_exercise_state();
    let mut s = LoopState::new(app);
    let mut failed = passed_result("load1");
    failed.outcome = VerifyOutcome::Failed;
    let save = handle_verify_message(&mut s, VerifyMessage::Result(failed), 0);
    assert!(save.is_none());
    assert!(!s.app.is_completed("load1"));
    assert!(s.app.last_verify.is_some());
}

// The output ring holds the most recent lines and never exceeds its cap.
#[test]
fn output_ring_never_exceeds_cap() {
    let app = two_exercise_state();
    let mut s = LoopState::new(app);
    for i in 0..(OUTPUT_RING_CAP + 25) {
        push_output(&mut s, format!("line {}", i));
        assert!(s.output_ring.len() <= OUTPUT_RING_CAP);
    }
    assert_eq!(s.output_ring.len(), OUTPUT_RING_CAP);
    assert_eq!(s.output_ring[0], "line 25");
    assert_eq!(s.output_ring[OUTPUT_RING_CAP - 1], format!("line {}", OUTPUT_RING_CAP + 24));
}

#[test]
fn output_messages_fill_the_ring_and_done_is_silent() {
    let app = two_exercise_state();
    let mut s = LoopState::new(app);
    handle_verify_message(
        &mut s,
        VerifyMessage::Output(OutputLine::Stdout("out".to_string())),
        0,
    );
    handle_verify_message(
        &mut s,
        VerifyMessage::Output(OutputLine::Stderr("err".to_string())),
        0,
    );
    handle_verify_message(&mut s, VerifyMessage::Output(OutputLine::Done(true)), 0);
    assert_eq!(s.output_ring, vec!["out".to_string(), "err".to_string()]);
}

#[test]
fn next_and_prev_clamp_and_save() {
    let app = two_exercise_state();
    let mut s = LoopState::new(app);
    let effect = apply_action(&mut s, Action::Next, 10);
    assert!(matches!(effect, ActionEffect::Save(_)));
    assert_eq!(s.app.current_index, 1);
    // At the end of the catalog the pointer stays put.
    let effect = apply_action(&mut s, Action::Next, 11);
    assert!(matches!(effect, ActionEffect::Save(_)));
    assert_eq!(s.app.current_index, 1);
    let effect = apply_action(&mut s, Action::Prev, 12);
    assert!(matches!(effect, ActionEffect::Save(_)));
    assert_eq!(s.app.current_index, 0);
    let effect = apply_action(&mut s, Action::Prev, 13);
    assert!(matches!(effect, ActionEffect::Save(_)));
    assert_eq!(s.app.current_index, 0);
}

#[test]
fn hint_action_counts_and_saves() {
    let app = two_exercise_state();
    let mut s = LoopState::new(app);
    let effect = apply_action(&mut s, Action::Hint, 10);
    match effect {
        ActionEffect::HintModal { text, save } => {
            assert_eq!(text, "hint for load1");
            let record = parse_progress(&save).unwrap();
            assert_eq!(record.hints_used, vec![("load1".to_string(), 1)]);
        }
        other => panic!("unexpected effect: {:?}", effect_name(&other)),
    }
    assert_eq!(zenlings::hints::hints_used_count(&s.app.progress, "load1"), 1);
}

fn effect_name(e: &ActionEffect) -> &'static str {
    match e {
        ActionEffect::Quit => "Quit",
        ActionEffect::Save(_) => "Save",
        ActionEffect::HintModal { .. } => "HintModal",
        ActionEffect::NoHintModal => "NoHintModal",
        ActionEffect::ShowList => "ShowList",
        ActionEffect::ShowSolution(_) => "ShowSolution",
        ActionEffect::OpenEditor(_) => "OpenEditor",
        ActionEffect::SendRun(_) => "SendRun",
        ActionEffect::Idle => "Idle",
    }
}

#[test]
fn rerun_sends_one_run_while_idle_only() {
    let app = two_exercise_state();
    let mut s = LoopState::new(app);
    let effect = apply_action(&mut s, Action::Rerun, 0);
    match effect {
        ActionEffect::SendRun(e) => assert_eq!(e.name, "load1"),
        other => panic!("unexpected effect: {}", effect_name(&other)),
    }
    assert!(s.app.verifying);
    let effect = apply_action(&mut s, Action::Rerun, 1);
    assert!(matches!(effect, ActionEffect::Idle));
}

#[test]
fn marking_completed_twice_is_a_no_op() {
    let mut app = two_exercise_state();
    app.mark_completed("load1");
    let once = app.progress.completed.clone();
    app.mark_completed("load1");
    assert_eq!(app.progress.completed, once);
    assert_eq!(app.progress.completed, vec!["load1".to_string()]);
    app.mark_completed("load2");
    assert_eq!(
        app.progress.completed,
        vec!["load1".to_string(), "load2".to_string()]
    );
}

#[test]
fn set_current_by_name_jumps_or_fails() {
    let mut app = two_exercise_state();
    app.set_current_by_name("load2").unwrap();
    assert_eq!(app.current_index, 1);
    let err = app.set_current_by_name("load9").unwrap_err();
    match err {
        CatalogError::ExerciseNotFound { name } => assert_eq!(name, "load9"),
        other => panic!("unexpected error: {:?}", other),
    }
    assert_eq!(app.current_index, 1);
}

#[test]
fn resume_prefers_saved_current_then_first_incomplete() {
    let info = InfoToml {
        format_version: 1,
        welcome_message: None,
        final_message: None,
        exercises: vec![entry("load1"), entry("load2"), entry("load3")],
    };
    let saved = zenlings::progress::ProgressFile {
        version: 1,
        completed: vec!["load1".to_string()],
        current: Some("load3".to_string()),
        hints_used: vec![],
        started_at: Some("1".to_string()),
        last_activity: Some("2".to_string()),
    };
    let text = zenlings::codec::render_progress(&saved);
    let app = AppState::load(
        "/p".to_string(),
        info.clone(),
        &vec![true, true, true],
        &Some(text),
        5,
    )
    .unwrap();
    assert_eq!(app.current_index, 2);

    // A stale current name falls back to the first incomplete exercise.
    let stale = zenlings::progress::ProgressFile {
        current: Some("gone".to_string()),
        ..saved
    };
    let text = zenlings::codec::render_progress(&stale);
    let app =
        AppState::load("/p".to_string(), info, &vec![true, true, true], &Some(text), 5).unwrap();
    assert_eq!(app.current_index, 1);
}

#[test]
fn unparsable_progress_file_is_fatal() {
    let info = InfoToml {
        format_version: 1,
        welcome_message: None,
        final_message: None,
        exercises: vec![entry("load1")],
    };
    let err = match AppState::load(
        "/p".to_string(),
        info,
        &vec![true],
        &Some("not a progress file".to_string()),
        5,
    ) {
        Err(e) => e,
        Ok(_) => panic!("expected the load to fail"),
    };
    assert!(matches!(err, zenlings::app_state::LoadError::ProgressParse));
    assert_eq!(err.message(), "Failed to parse progress file");
}
