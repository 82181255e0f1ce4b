use zenlings::exercise::{CatalogError, Exercise, ExerciseEntry, InfoToml, find_pack_root,
    load_exercises};

fn entry(name: &str, dir: &str) -> ExerciseEntry {
    ExerciseEntry {
        name: name.to_string(),
        dir: dir.to_string(),
        hint: None,
        pipeline_name: None,
        verify_status: None,
        verify_step_count: None,
    }
}

#[test]
fn test_exercise_display_path() {
    let entry = ExerciseEntry {
        name: "load1".to_string(),
        dir: "01_loading".to_string(),
        hint: None,
        pipeline_name: None,
        verify_status: None,
        verify_step_count: None,
    };

    let exercise = Exercise::from_entry(&entry, "/tmp/zenlings");
    assert_eq!(exercise.display_path(), "01_loading/load1.py");
    assert_eq!(exercise.pipeline_name, "load1_pipeline");
    assert_eq!(exercise.verify_status, "completed");
}

#[test]
fn from_entry_resolves_paths_and_defaults() {
    let e = entry("load1", "01_loading");
    let ex = Exercise::from_entry(&e, "/pack");
    assert_eq!(ex.path, "/pack/exercises/01_loading/load1.py");
    assert_eq!(ex.solution_path, "/pack/solutions/01_loading/load1.py");
    assert_eq!(ex.name, "load1");
    assert_eq!(ex.dir, "01_loading");
    assert!(ex.hint.is_none());
    assert!(ex.verify_step_count.is_none());
}

#[test]
fn from_entry_keeps_explicit_fields() {
    let mut e = entry("load2", "02_steps");
    e.pipeline_name = Some("custom_pipe".to_string());
    e.verify_status = Some("running".to_string());
    e.hint = Some("try harder".to_string());
    let ex = Exercise::from_entry(&e, "/pack");
    assert_eq!(ex.pipeline_name, "custom_pipe");
    assert_eq!(ex.verify_status, "running");
    assert_eq!(ex.hint.as_deref(), Some("try harder"));
}

fn info(entries: Vec<ExerciseEntry>) -> InfoToml {
    InfoToml {
        format_version: 1,
        welcome_message: None,
        final_message: None,
        exercises: entries,
    }
}

#[test]
fn load_exercises_resolves_all() {
    let i = info(vec![entry("a", "01"), entry("b", "02")]);
    let es = load_exercises("/pack", &i, &vec![true, true]).unwrap();
    assert_eq!(es.len(), 2);
    assert_eq!(es[0].path, "/pack/exercises/01/a.py");
    assert_eq!(es[1].path, "/pack/exercises/02/b.py");
}

#[test]
fn load_exercises_fails_on_missing_file() {
    let i = info(vec![entry("a", "01"), entry("b", "02")]);
    let err = load_exercises("/pack", &i, &vec![true, false]).unwrap_err();
    match err {
        CatalogError::MissingExerciseFile { name, path } => {
            assert_eq!(name, "b");
            assert_eq!(path, "/pack/exercises/02/b.py");
        }
        other => panic!("unexpected error: {:?}", other),
    }
}

#[test]
fn load_exercises_fails_on_empty_catalog() {
    let i = info(vec![]);
    let err = load_exercises("/pack", &i, &vec![]).unwrap_err();
    assert!(matches!(err, CatalogError::EmptyCatalog));
    assert_eq!(err.message(), "No exercises found in info.toml");
}

#[test]
fn load_exercises_fails_on_unsupported_version() {
    let mut i = info(vec![entry("a", "01")]);
    i.format_version = 2;
    let err = load_exercises("/pack", &i, &vec![true]).unwrap_err();
    match err {
        CatalogError::UnsupportedFormatVersion { found } => assert_eq!(found, 2),
        other => panic!("unexpected error: {:?}", other),
    }
}

#[test]
fn find_pack_root_picks_first_hit() {
    let dirs = vec![
        "/a/b/c".to_string(),
        "/a/b".to_string(),
        "/a".to_string(),
        "/".to_string(),
    ];
    let has = vec![false, true, true, false];
    let root = find_pack_root(&dirs, &has).unwrap();
    assert_eq!(root, "/a/b");
}

#[test]
fn find_pack_root_fails_when_absent() {
    let dirs = vec!["/a".to_string(), "/".to_string()];
    let has = vec![false, false];
    let err = find_pack_root(&dirs, &has).unwrap_err();
    assert!(matches!(err, CatalogError::PackRootNotFound));
    assert_eq!(
        err.message(),
        "Could not find info.toml in this directory or any parent directory"
    );
}
