//! The exercise catalog: pack metadata, resolved exercise descriptors,
//! and pack-root discovery.
//!
//! Reading the metadata file and testing which files exist is I/O and
//! happens outside the library; the results arrive here as plain
//! values (parsed entries and per-entry existence flags).  Paths are
//! plain strings joined with `/`.

use vstd::prelude::*;
use vstd::string::StringExecFns;

verus! {

/// The metadata file format version this library understands.
pub const SUPPORTED_FORMAT_VERSION: u32 = 1;

/// Root structure of the pack metadata file.
#[derive(Debug, Clone)]
pub struct InfoToml {
    pub format_version: u32,
    pub welcome_message: Option<String>,
    pub final_message: Option<String>,
    pub exercises: Vec<ExerciseEntry>,
}

/// Raw exercise entry from the pack metadata file.
#[derive(Debug, Clone)]
pub struct ExerciseEntry {
    pub name: String,
    pub dir: String,
    pub hint: Option<String>,
    pub pipeline_name: Option<String>,
    pub verify_status: Option<String>,
    pub verify_step_count: Option<u64>,
}

/// Resolved exercise with full paths.
#[derive(Debug)]
pub struct Exercise {
    pub name: String,
    pub dir: String,
    pub hint: Option<String>,
    /// Full path to the exercise file: `<root>/exercises/<dir>/<name>.py`.
    pub path: String,
    /// Full path to the solution file: `<root>/solutions/<dir>/<name>.py`.
    pub solution_path: String,
    /// Pipeline name for verification (explicit or derived from name).
    pub pipeline_name: String,
    /// Expected status for verification (default: "completed").
    pub verify_status: String,
    /// Optional: expected step count.
    pub verify_step_count: Option<u64>,
}

/// Why loading or addressing the catalog failed.
#[derive(Debug, Clone)]
pub enum CatalogError {
    /// An entry's exercise file does not exist on disk.
    MissingExerciseFile { name: String, path: String },
    /// The metadata file lists no exercises.
    EmptyCatalog,
    /// The metadata file's format version is not supported.
    UnsupportedFormatVersion { found: u32 },
    /// No directory on the search path contains the metadata file.
    PackRootNotFound,
    /// No exercise in the catalog bears the requested name.
    ExerciseNotFound { name: String },
}

impl CatalogError {
    /// A human-readable description of the error.
    pub fn message(&self) -> (r: String)
        ensures
            match self {
                CatalogError::MissingExerciseFile { name, path } => r@ == "Exercise file not found: "@
                    + path@ + " (defined in info.toml as '"@ + name@ + "')"@,
                CatalogError::EmptyCatalog => r@ == "No exercises found in info.toml"@,
                CatalogError::UnsupportedFormatVersion { found } => r@
                    == "Unsupported info.toml format version: "@
                    + crate::text::spec_dec(*found as nat) + " (expected 1)"@,
                CatalogError::PackRootNotFound => r@
                    == "Could not find info.toml in this directory or any parent directory"@,
                CatalogError::ExerciseNotFound { name } => r@ == "Exercise not found: "@ + name@,
            },
    {
        match self {
            CatalogError::MissingExerciseFile { name, path } => {
                let mut m = String::new();
                m.append("Exercise file not found: ");
                m.append(path.as_str());
                m.append(" (defined in info.toml as '");
                m.append(name.as_str());
                m.append("')");
                m
            },
            CatalogError::EmptyCatalog => String::from_str("No exercises found in info.toml"),
            CatalogError::UnsupportedFormatVersion { found } => {
                let mut m = String::from_str("Unsupported info.toml format version: ");
                let d = crate::text::dec_string(*found as u64);
                m.append(d.as_str());
                m.append(" (expected 1)");
                m
            },
            CatalogError::PackRootNotFound => String::from_str(
                "Could not find info.toml in this directory or any parent directory",
            ),
            CatalogError::ExerciseNotFound { name } => {
                let mut m = String::from_str("Exercise not found: ");
                m.append(name.as_str());
                m
            },
        }
    }
}

/// The resolved exercise-file path for an entry.
pub open spec fn spec_exercise_path(pack_root: Seq<char>, dir: Seq<char>, name: Seq<char>) -> Seq<
    char,
> {
    pack_root + "/exercises/"@ + dir + "/"@ + name + ".py"@
}

/// The resolved solution-file path for an entry.
pub open spec fn spec_solution_path(pack_root: Seq<char>, dir: Seq<char>, name: Seq<char>) -> Seq<
    char,
> {
    pack_root + "/solutions/"@ + dir + "/"@ + name + ".py"@
}

/// How a resolved `Exercise` relates to the entry it came from:
/// names copied, paths resolved under the pack root, and the pipeline
/// name and expected status filled with their defaults when absent.
pub open spec fn spec_resolved(e: Exercise, entry: ExerciseEntry, pack_root: Seq<char>) -> bool {
    &&& e.name@ == entry.name@
    &&& e.dir@ == entry.dir@
    &&& (match (e.hint, entry.hint) {
        (Some(a), Some(b)) => a@ == b@,
        (None, None) => true,
        _ => false,
    })
    &&& e.path@ == spec_exercise_path(pack_root, entry.dir@, entry.name@)
    &&& e.solution_path@ == spec_solution_path(pack_root, entry.dir@, entry.name@)
    &&& e.pipeline_name@ == (match entry.pipeline_name {
        Some(p) => p@,
        None => entry.name@ + "_pipeline"@,
    })
    &&& e.verify_status@ == (match entry.verify_status {
        Some(s) => s@,
        None => "completed"@,
    })
    &&& e.verify_step_count == entry.verify_step_count
}

fn clone_opt_string(o: &Option<String>) -> (r: Option<String>)
    ensures
        match (&r, o) {
            (Some(a), Some(b)) => a@ == b@,
            (None, None) => true,
            _ => false,
        },
{
    match o {
        Some(s) => Some(s.clone()),
        None => None,
    }
}

impl Clone for Exercise {
    /// A field-for-field copy.
    fn clone(&self) -> (r: Self)
        ensures
            r == *self,
    {
        Exercise {
            name: self.name.clone(),
            dir: self.dir.clone(),
            hint: match &self.hint {
                Some(h) => Some(h.clone()),
                None => None,
            },
            path: self.path.clone(),
            solution_path: self.solution_path.clone(),
            pipeline_name: self.pipeline_name.clone(),
            verify_status: self.verify_status.clone(),
            verify_step_count: self.verify_step_count,
        }
    }
}

impl Exercise {
    /// Resolves an entry against the pack root: builds both file paths
    /// and fills the pipeline-name and expected-status defaults.
    pub fn from_entry(entry: &ExerciseEntry, pack_root: &str) -> (e: Exercise)
        ensures
            spec_resolved(e, *entry, pack_root@),
    {
        let mut path = String::from_str(pack_root);
        path.append("/exercises/");
        path.append(entry.dir.as_str());
        path.append("/");
        path.append(entry.name.as_str());
        path.append(".py");

        let mut solution_path = String::from_str(pack_root);
        solution_path.append("/solutions/");
        solution_path.append(entry.dir.as_str());
        solution_path.append("/");
        solution_path.append(entry.name.as_str());
        solution_path.append(".py");

        let pipeline_name = match &entry.pipeline_name {
            Some(p) => p.clone(),
            None => {
                let mut p = entry.name.clone();
                p.append("_pipeline");
                p
            },
        };

        let verify_status = match &entry.verify_status {
            Some(s) => s.clone(),
            None => String::from_str("completed"),
        };

        Exercise {
            name: entry.name.clone(),
            dir: entry.dir.clone(),
            hint: clone_opt_string(&entry.hint),
            path,
            solution_path,
            pipeline_name,
            verify_status,
            verify_step_count: entry.verify_step_count,
        }
    }

    /// The display path relative to the exercises directory:
    /// `<dir>/<name>.py`.
    pub fn display_path(&self) -> (r: String)
        ensures
            r@ == self.dir@ + "/"@ + self.name@ + ".py"@,
    {
        let mut r = self.dir.clone();
        r.append("/");
        r.append(self.name.as_str());
        r.append(".py");
        r
    }
}

/// Resolves every entry of the metadata file against the pack root and
/// checks the catalog is usable.  `exists` says, entry by entry,
/// whether the resolved exercise file is present on disk.  Fails closed
/// on an unsupported format version, a missing exercise file, or an
/// empty catalog.
pub fn load_exercises(pack_root: &str, info: &InfoToml, exists: &Vec<bool>) -> (r: Result<
    Vec<Exercise>,
    CatalogError,
>)
    requires
        exists@.len() == info.exercises@.len(),
    ensures
        r is Ok <==> (info.format_version == SUPPORTED_FORMAT_VERSION && info.exercises@.len() > 0
            && (forall|i: int| 0 <= i < exists@.len() ==> exists@[i])),
        r matches Ok(es) ==> es@.len() == info.exercises@.len() && (forall|i: int|
            0 <= i < es@.len() ==> spec_resolved(es@[i], info.exercises@[i], pack_root@)),
        info.format_version != SUPPORTED_FORMAT_VERSION ==> (r matches Err(
            CatalogError::UnsupportedFormatVersion { found },
        ) && found == info.format_version),
        info.format_version == SUPPORTED_FORMAT_VERSION && (exists|i: int|
            0 <= i < exists@.len() && !exists@[i]) ==> (r matches Err(
            CatalogError::MissingExerciseFile { name, path },
        ) && (exists|i: int|
            {
                &&& 0 <= i < exists@.len()
                &&& !exists@[i]
                &&& (forall|j: int| 0 <= j < i ==> exists@[j])
                &&& name@ == info.exercises@[i].name@
                &&& path@ == spec_exercise_path(pack_root@, info.exercises@[i].dir@,
                    info.exercises@[i].name@)
            })),
        info.format_version == SUPPORTED_FORMAT_VERSION && info.exercises@.len() == 0 ==> r
            matches Err(CatalogError::EmptyCatalog),
{
    if info.format_version != SUPPORTED_FORMAT_VERSION {
        return Err(CatalogError::UnsupportedFormatVersion { found: info.format_version });
    }
    let mut out: Vec<Exercise> = Vec::new();
    let mut i: usize = 0;
    while i < info.exercises.len()
        invariant
            info.format_version == SUPPORTED_FORMAT_VERSION,
            i <= info.exercises@.len(),
            exists@.len() == info.exercises@.len(),
            out@.len() == i,
            forall|j: int| 0 <= j < i ==> spec_resolved(out@[j], info.exercises@[j], pack_root@),
            forall|j: int| 0 <= j < i ==> exists@[j],
        decreases info.exercises@.len() - i,
    {
        let entry = &info.exercises[i];
        let exercise = Exercise::from_entry(entry, pack_root);
        if !exists[i] {
            return Err(CatalogError::MissingExerciseFile {
                name: entry.name.clone(),
                path: exercise.path,
            });
        }
        out.push(exercise);
        i += 1;
    }
    if out.len() == 0 {
        return Err(CatalogError::EmptyCatalog);
    }
    Ok(out)
}

/// Picks the pack root from a directory walk.  `dirs` lists the
/// candidate directories in search order (the starting directory, then
/// each parent in turn); `has_info` says, directory by directory,
/// whether it holds the pack metadata file.  The first hit wins.
pub fn find_pack_root(dirs: &Vec<String>, has_info: &Vec<bool>) -> (r: Result<
    String,
    CatalogError,
>)
    requires
        dirs@.len() == has_info@.len(),
    ensures
        r is Ok <==> (exists|i: int| 0 <= i < has_info@.len() && has_info@[i]),
        r matches Ok(d) ==> (exists|i: int|
            {
                &&& 0 <= i < has_info@.len()
                &&& has_info@[i]
                &&& (forall|j: int| 0 <= j < i ==> !has_info@[j])
                &&& d@ == dirs@[i]@
            }),
        r is Err ==> r matches Err(CatalogError::PackRootNotFound),
{
    let mut i: usize = 0;
    while i < dirs.len()
        invariant
            i <= dirs@.len(),
            dirs@.len() == has_info@.len(),
            forall|j: int| 0 <= j < i ==> !has_info@[j],
        decreases dirs@.len() - i,
    {
        if has_info[i] {
            return Ok(dirs[i].clone());
        }
        i += 1;
    }
    Err(CatalogError::PackRootNotFound)
}

} // verus!
