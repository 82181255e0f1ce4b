use zenlings::codec::{parse_progress, render_progress};
use zenlings::hints::{hint_for, hints_used_count, record_hint_used};
use zenlings::exercise::{Exercise, ExerciseEntry};
use zenlings::progress::ProgressFile;

fn record() -> ProgressFile {
    ProgressFile {
        version: 1,
        completed: vec!["load1".to_string(), "load2".to_string()],
        current: Some("load3".to_string()),
        hints_used: vec![("load1".to_string(), 2), ("load3".to_string(), 1)],
        started_at: Some("1700000000".to_string()),
        last_activity: Some("1700000100".to_string()),
    }
}

fn assert_equal_records(a: &ProgressFile, b: &ProgressFile) {
    assert_eq!(a.version, b.version);
    assert_eq!(a.completed, b.completed);
    assert_eq!(a.current, b.current);
    assert_eq!(a.hints_used, b.hints_used);
    assert_eq!(a.started_at, b.started_at);
    assert_eq!(a.last_activity, b.last_activity);
}

#[test]
fn saving_then_loading_yields_an_equal_record() {
    let p = record();
    let text = render_progress(&p);
    let q = parse_progress(&text).expect("rendered record must parse");
    assert_equal_records(&p, &q);
}

#[test]
fn round_trip_survives_escaped_names() {
    let p = ProgressFile {
        version: 1,
        completed: vec!["na\"me".to_string(), "back\\slash".to_string(), "".to_string()],
        current: None,
        hints_used: vec![("we\"ird\\key".to_string(), 7)],
        started_at: None,
        last_activity: Some("42".to_string()),
    };
    let text = render_progress(&p);
    let q = parse_progress(&text).expect("rendered record must parse");
    assert_equal_records(&p, &q);
}

#[test]
fn rendering_is_the_canonical_document() {
    let p = ProgressFile {
        version: 1,
        completed: vec!["a".to_string()],
        current: Some("a".to_string()),
        hints_used: vec![("a".to_string(), 3)],
        started_at: Some("10".to_string()),
        last_activity: Some("20".to_string()),
    };
    assert_eq!(
        render_progress(&p),
        "{\"version\":1,\"completed\":[\"a\"],\"current\":\"a\",\"hints_used\":{\"a\":3},\"started_at\":\"10\",\"last_activity\":\"20\"}"
    );
}

#[test]
fn rendered_record_is_valid_json() {
    let text = render_progress(&record());
    let v: serde_json::Value = serde_json::from_str(&text).expect("must be JSON");
    assert_eq!(v["version"], serde_json::Value::from(1u32));
    assert_eq!(v["completed"][0], serde_json::Value::from("load1"));
    assert_eq!(v["current"], serde_json::Value::from("load3"));
    assert_eq!(v["hints_used"]["load1"], serde_json::Value::from(2u32));
}

#[test]
fn parse_rejects_malformed_documents() {
    assert!(parse_progress("").is_none());
    assert!(parse_progress("{}").is_none());
    assert!(parse_progress("{\"version\":1}").is_none());
    let good = render_progress(&record());
    let mut truncated = good.clone();
    truncated.pop();
    assert!(parse_progress(&truncated).is_none());
    let trailing = format!("{} ", good);
    assert!(parse_progress(&trailing).is_none());
}

#[test]
fn fresh_record_has_initialized_timestamps() {
    let p = ProgressFile::new(1700000000);
    assert_eq!(p.version, 1);
    assert!(p.completed.is_empty());
    assert!(p.current.is_none());
    assert!(p.hints_used.is_empty());
    assert_eq!(p.started_at.as_deref(), Some("1700000000"));
    assert_eq!(p.last_activity.as_deref(), Some("1700000000"));
    assert_eq!(ProgressFile::now_iso(0), "0");
    assert_eq!(ProgressFile::now_iso(907), "907");
}

#[test]
fn recording_hints_counts_per_exercise() {
    let mut p = ProgressFile::new(0);
    assert_eq!(hints_used_count(&p, "load1"), 0);
    record_hint_used(&mut p, "load1");
    record_hint_used(&mut p, "load1");
    record_hint_used(&mut p, "load2");
    assert_eq!(hints_used_count(&p, "load1"), 2);
    assert_eq!(hints_used_count(&p, "load2"), 1);
    assert_eq!(hints_used_count(&p, "load3"), 0);
}

#[test]
fn hint_tallies_saturate_at_the_largest_count() {
    let mut p = ProgressFile {
        version: 1,
        completed: vec![],
        current: None,
        hints_used: vec![("load1".to_string(), u32::MAX)],
        started_at: None,
        last_activity: None,
    };
    record_hint_used(&mut p, "load1");
    assert_eq!(hints_used_count(&p, "load1"), u32::MAX);
}

#[test]
fn round_trip_handles_the_largest_counts() {
    let p = ProgressFile {
        version: u32::MAX,
        completed: vec![],
        current: None,
        hints_used: vec![("a".to_string(), u32::MAX)],
        started_at: None,
        last_activity: None,
    };
    let text = render_progress(&p);
    let q = parse_progress(&text).expect("rendered record must parse");
    assert_equal_records(&p, &q);
    // A count one past the largest is rejected rather than wrapped.
    let too_big = text.replace("4294967295}", "4294967296}");
    assert!(parse_progress(&too_big).is_none());
}

#[test]
fn hint_for_reads_the_exercise() {
    let mut entry = ExerciseEntry {
        name: "load1".to_string(),
        dir: "01".to_string(),
        hint: Some("look closer".to_string()),
        pipeline_name: None,
        verify_status: None,
        verify_step_count: None,
    };
    let with = Exercise::from_entry(&entry, "/pack");
    assert_eq!(hint_for(&with), Some("look closer"));
    entry.hint = None;
    let without = Exercise::from_entry(&entry, "/pack");
    assert_eq!(hint_for(&without), None);
}
