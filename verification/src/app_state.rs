//! Application state: the catalog, the progress record, the current
//! pointer, and the last verification result.
//!
//! Reading and writing the progress file is I/O and happens outside
//! the library: loading takes the file's text (or nothing, when the
//! file is absent), and saving returns the text to be written
//! atomically.  The clock likewise enters as an explicit reading.

use vstd::prelude::*;
use vstd::string::StringExecFns;
use crate::codec::{opt_view, hints_view, parse_progress, render_progress, sp_progress,
    spec_render_progress, progress_view};
use crate::exercise::{CatalogError, Exercise, InfoToml, load_exercises, SUPPORTED_FORMAT_VERSION};
use crate::progress::{completed_contains, spec_completed_contains, spec_mark, ProgressFile};
use crate::text::{spec_dec, str_eq};
use crate::verify::VerifyResult;

verus! {

/// Why loading the application state failed.
#[derive(Debug, Clone)]
pub enum LoadError {
    /// The catalog could not be loaded.
    Catalog(CatalogError),
    /// The progress file exists but could not be parsed.
    ProgressParse,
}

impl LoadError {
    /// A human-readable description of the error.
    pub fn message(&self) -> (r: String)
        ensures
            match self {
                LoadError::Catalog(e) => r@ == (match e {
                    CatalogError::MissingExerciseFile { name, path } => "Exercise file not found: "@
                        + path@ + " (defined in info.toml as '"@ + name@ + "')"@,
                    CatalogError::EmptyCatalog => "No exercises found in info.toml"@,
                    CatalogError::UnsupportedFormatVersion { found } => {
                        "Unsupported info.toml format version: "@ + spec_dec(*found as nat)
                            + " (expected 1)"@
                    },
                    CatalogError::PackRootNotFound => {
                        "Could not find info.toml in this directory or any parent directory"@
                    },
                    CatalogError::ExerciseNotFound { name } => "Exercise not found: "@ + name@,
                }),
                LoadError::ProgressParse => r@ == "Failed to parse progress file"@,
            },
    {
        match self {
            LoadError::Catalog(e) => e.message(),
            LoadError::ProgressParse => String::from_str("Failed to parse progress file"),
        }
    }
}

/// The index of the first exercise bearing `name`, if any.
pub open spec fn spec_name_index(exercises: Seq<Exercise>, name: Seq<char>) -> Option<int>
    decreases exercises.len(),
{
    if exercises.len() == 0 {
        None
    } else if exercises[0].name@ == name {
        Some(0int)
    } else {
        match spec_name_index(exercises.drop_first(), name) {
            None => None,
            Some(i) => Some(i + 1),
        }
    }
}

/// What `spec_name_index` finds: the least matching index.
pub proof fn lemma_name_index(exercises: Seq<Exercise>, name: Seq<char>)
    ensures
        match spec_name_index(exercises, name) {
            None => forall|i: int|
                0 <= i < exercises.len() ==> (#[trigger] exercises[i].name)@ != name,
            Some(i) => 0 <= i < exercises.len() && exercises[i].name@ == name && (forall|j: int|
                0 <= j < i ==> (#[trigger] exercises[j].name)@ != name),
        },
    decreases exercises.len(),
{
    if exercises.len() > 0 && exercises[0].name@ != name {
        let rest = exercises.drop_first();
        lemma_name_index(rest, name);
        match spec_name_index(rest, name) {
            None => {
                assert forall|i: int| 0 <= i < exercises.len() implies (#[trigger] exercises[i].name)@
                    != name by {
                    if i > 0 {
                        assert(exercises[i] == rest[i - 1]);
                    }
                }
            },
            Some(k) => {
                assert(exercises[k + 1] == rest[k]);
                assert forall|j: int| 0 <= j < k + 1 implies (#[trigger] exercises[j].name)@
                    != name by {
                    if j > 0 {
                        assert(exercises[j] == rest[j - 1]);
                    }
                }
            },
        }
    }
}

/// The index of the first exercise not yet completed, if any.
pub open spec fn spec_first_incomplete(exercises: Seq<Exercise>, completed: Seq<Seq<char>>) -> Option<
    int,
>
    decreases exercises.len(),
{
    if exercises.len() == 0 {
        None
    } else if !spec_completed_contains(completed, exercises[0].name@) {
        Some(0int)
    } else {
        match spec_first_incomplete(exercises.drop_first(), completed) {
            None => None,
            Some(i) => Some(i + 1),
        }
    }
}

/// What `spec_first_incomplete` finds: the least incomplete index.
pub proof fn lemma_first_incomplete(exercises: Seq<Exercise>, completed: Seq<Seq<char>>)
    ensures
        match spec_first_incomplete(exercises, completed) {
            None => forall|i: int|
                0 <= i < exercises.len() ==> spec_completed_contains(
                    completed,
                    (#[trigger] exercises[i].name)@,
                ),
            Some(i) => 0 <= i < exercises.len() && !spec_completed_contains(
                completed,
                exercises[i].name@,
            ) && (forall|j: int|
                0 <= j < i ==> spec_completed_contains(
                    completed,
                    (#[trigger] exercises[j].name)@,
                )),
        },
    decreases exercises.len(),
{
    if exercises.len() > 0 && spec_completed_contains(completed, exercises[0].name@) {
        let rest = exercises.drop_first();
        lemma_first_incomplete(rest, completed);
        match spec_first_incomplete(rest, completed) {
            None => {
                assert forall|i: int| 0 <= i < exercises.len() implies spec_completed_contains(
                    completed,
                    (#[trigger] exercises[i].name)@,
                ) by {
                    if i > 0 {
                        assert(exercises[i] == rest[i - 1]);
                    }
                }
            },
            Some(k) => {
                assert(exercises[k + 1] == rest[k]);
                assert forall|j: int| 0 <= j < k + 1 implies spec_completed_contains(
                    completed,
                    (#[trigger] exercises[j].name)@,
                ) by {
                    if j > 0 {
                        assert(exercises[j] == rest[j - 1]);
                    }
                }
            },
        }
    }
}

/// Where a session resumes: the saved current exercise when it still
/// exists, otherwise the first incomplete exercise, otherwise the last
/// exercise.
pub open spec fn spec_resolve_index(exercises: Seq<Exercise>, progress: ProgressFile) -> int {
    if progress.current matches Some(name) && spec_name_index(exercises, name@) is Some {
        spec_name_index(exercises, progress.current->0@)->0
    } else if spec_first_incomplete(exercises, progress.completed.deep_view()) is Some {
        spec_first_incomplete(exercises, progress.completed.deep_view())->0
    } else if exercises.len() == 0 {
        0int
    } else {
        exercises.len() - 1
    }
}

/// Main application state.
pub struct AppState {
    pub pack_root: String,
    pub info: InfoToml,
    pub exercises: Vec<Exercise>,
    pub progress_path: String,
    pub progress: ProgressFile,
    pub current_index: usize,
    /// Last verification result (if any).
    pub last_verify: Option<VerifyResult>,
    /// Whether a verification request is outstanding.
    pub verifying: bool,
}

impl AppState {
    /// The state invariant: the catalog is non-empty and the current
    /// index points into it.
    pub open spec fn wf(&self) -> bool {
        &&& self.exercises@.len() > 0
        &&& (self.current_index as int) < self.exercises@.len()
    }

    /// The path of the progress file.
    pub open spec fn spec_progress_path(&self) -> Seq<char> {
        self.progress_path@
    }

    /// Everything except the navigation fields (`current_index`,
    /// `last_verify`) is the same in both states.
    pub open spec fn frame_except_nav(pre: AppState, post: AppState) -> bool {
        &&& post.pack_root == pre.pack_root
        &&& post.info == pre.info
        &&& post.exercises == pre.exercises
        &&& post.spec_progress_path() == pre.spec_progress_path()
        &&& post.progress == pre.progress
        &&& post.verifying == pre.verifying
    }

    /// The progress-file path under a pack root.
    pub fn progress_file_path(pack_root: &str) -> (r: String)
        ensures
            r@ == pack_root@ + "/.zenlings-progress.json"@,
    {
        let mut r = String::from_str(pack_root);
        r.append("/.zenlings-progress.json");
        r
    }

    /// Assembles the application state from the pack root, the parsed
    /// metadata, the per-entry existence flags, the progress file's
    /// text (or nothing, when the file is absent) and the clock.
    /// Fails exactly when the catalog is unusable or the progress text
    /// does not parse.
    pub fn load(
        pack_root: String,
        info: InfoToml,
        exists: &Vec<bool>,
        progress_text: &Option<String>,
        now_secs: u64,
    ) -> (r: Result<AppState, LoadError>)
        requires
            exists@.len() == info.exercises@.len(),
        ensures
            r is Ok <==> (info.format_version == SUPPORTED_FORMAT_VERSION
                && info.exercises@.len() > 0 && (forall|i: int|
                0 <= i < exists@.len() ==> exists@[i]) && (progress_text matches Some(t) ==> sp_progress(
                t@,
            ) is Some)),
            r matches Ok(st) ==> {
                &&& st.wf()
                &&& st.pack_root@ == pack_root@
                &&& st.info == info
                &&& st.exercises@.len() == info.exercises@.len()
                &&& (forall|i: int|
                    0 <= i < st.exercises@.len() ==> crate::exercise::spec_resolved(
                        st.exercises@[i],
                        info.exercises@[i],
                        pack_root@,
                    ))
                &&& st.spec_progress_path() == pack_root@ + "/.zenlings-progress.json"@
                &&& (match progress_text {
                    Some(t) => sp_progress(t@) == Some(progress_view(st.progress)),
                    None => {
                        &&& st.progress.version == crate::progress::PROGRESS_VERSION
                        &&& st.progress.completed@.len() == 0
                        &&& st.progress.current is None
                        &&& st.progress.hints_used@.len() == 0
                        &&& (st.progress.started_at matches Some(t) && t@ == spec_dec(
                            now_secs as nat,
                        ))
                        &&& (st.progress.last_activity matches Some(t) && t@ == spec_dec(
                            now_secs as nat,
                        ))
                    },
                })
                &&& st.current_index as int == spec_resolve_index(st.exercises@, st.progress)
                &&& st.last_verify is None
                &&& !st.verifying
            },
    {
        let exercises = match load_exercises(pack_root.as_str(), &info, exists) {
            Ok(es) => es,
            Err(e) => {
                return Err(LoadError::Catalog(e));
            },
        };
        let progress = match progress_text {
            Some(t) => match parse_progress(t.as_str()) {
                Some(p) => p,
                None => {
                    return Err(LoadError::ProgressParse);
                },
            },
            None => ProgressFile::new(now_secs),
        };
        let current_index = Self::resolve_current_index(&exercises, &progress);
        let progress_path = Self::progress_file_path(pack_root.as_str());
        Ok(
            AppState {
                pack_root,
                info,
                exercises,
                progress_path,
                progress,
                current_index,
                last_verify: None,
                verifying: false,
            },
        )
    }

    /// Where the session resumes in the catalog, given the saved
    /// progress: the saved current exercise when it still exists,
    /// else the first incomplete exercise, else the last one.
    pub fn resolve_current_index(exercises: &Vec<Exercise>, progress: &ProgressFile) -> (r: usize)
        ensures
            r as int == spec_resolve_index(exercises@, *progress),
            exercises@.len() > 0 ==> (r as int) < exercises@.len(),
    {
        match &progress.current {
            Some(current_name) => {
                let mut i: usize = 0;
                while i < exercises.len()
                    invariant
                        i <= exercises@.len(),
                        progress.current == Some(*current_name),
                        forall|j: int|
                            0 <= j < i ==> (#[trigger] exercises@[j].name)@ != current_name@,
                    decreases exercises@.len() - i,
                {
                    if str_eq(exercises[i].name.as_str(), current_name.as_str()) {
                        proof {
                            lemma_name_index(exercises@, current_name@);
                            match spec_name_index(exercises@, current_name@) {
                                Some(w) => {
                                    if w < i {
                                        assert(exercises@[w].name@ != current_name@);
                                    }
                                    if w > i {
                                        assert(exercises@[i as int].name@ != current_name@);
                                    }
                                    assert(w == i);
                                    assert(progress.current == Some(*current_name));
                                    assert(spec_resolve_index(exercises@, *progress) == w);
                                },
                                None => {
                                    assert(false);
                                },
                            }
                        }
                        return i;
                    }
                    i += 1;
                }
                proof {
                    lemma_name_index(exercises@, current_name@);
                }
                Self::first_incomplete_or_last(exercises, progress)
            },
            None => Self::first_incomplete_or_last(exercises, progress),
        }
    }

    fn first_incomplete_or_last(exercises: &Vec<Exercise>, progress: &ProgressFile) -> (r: usize)
        ensures
            r as int == (if spec_first_incomplete(
                exercises@,
                progress.completed.deep_view(),
            ) is Some {
                spec_first_incomplete(exercises@, progress.completed.deep_view())->0
            } else if exercises@.len() == 0 {
                0int
            } else {
                exercises@.len() - 1
            }),
            exercises@.len() > 0 ==> (r as int) < exercises@.len(),
    {
        let mut i: usize = 0;
        while i < exercises.len()
            invariant
                i <= exercises@.len(),
                forall|j: int|
                    0 <= j < i ==> spec_completed_contains(
                        progress.completed.deep_view(),
                        (#[trigger] exercises@[j].name)@,
                    ),
            decreases exercises@.len() - i,
        {
            if !completed_contains(&progress.completed, exercises[i].name.as_str()) {
                proof {
                    lemma_first_incomplete(exercises@, progress.completed.deep_view());
                }
                return i;
            }
            i += 1;
        }
        proof {
            lemma_first_incomplete(exercises@, progress.completed.deep_view());
        }
        if exercises.len() == 0 {
            0
        } else {
            exercises.len() - 1
        }
    }

    /// Stamps the record with the clock and the current exercise and
    /// returns the document text to be written atomically to the
    /// progress file.
    pub fn save_progress(&mut self, now_secs: u64) -> (content: String)
        requires
            old(self).wf(),
        ensures
            final(self).wf(),
            final(self).progress.last_activity matches Some(t) && t@ == spec_dec(now_secs as nat),
            final(self).progress.current matches Some(c) && c@ == old(self).exercises@[old(
                self,
            ).current_index as int].name@,
            final(self).progress.version == old(self).progress.version,
            final(self).progress.completed == old(self).progress.completed,
            final(self).progress.hints_used == old(self).progress.hints_used,
            final(self).progress.started_at == old(self).progress.started_at,
            final(self).pack_root == old(self).pack_root,
            final(self).info == old(self).info,
            final(self).exercises == old(self).exercises,
            final(self).spec_progress_path() == old(self).spec_progress_path(),
            final(self).current_index == old(self).current_index,
            final(self).last_verify == old(self).last_verify,
            final(self).verifying == old(self).verifying,
            content@ == spec_render_progress(
                final(self).progress.version,
                final(self).progress.completed.deep_view(),
                opt_view(final(self).progress.current),
                hints_view(final(self).progress.hints_used@),
                opt_view(final(self).progress.started_at),
                opt_view(final(self).progress.last_activity),
            ),
    {
        self.progress.last_activity = Some(ProgressFile::now_iso(now_secs));
        let name = self.exercises[self.current_index].name.clone();
        self.progress.current = Some(name);
        render_progress(&self.progress)
    }

    /// The path of the progress file.
    pub fn progress_path(&self) -> (r: &str)
        ensures
            r@ == self.spec_progress_path(),
    {
        self.progress_path.as_str()
    }

    /// The current exercise.
    pub fn current_exercise(&self) -> (r: &Exercise)
        requires
            self.wf(),
        ensures
            *r == self.exercises@[self.current_index as int],
    {
        &self.exercises[self.current_index]
    }

    /// Whether an exercise has been completed.
    pub fn is_completed(&self, exercise_name: &str) -> (r: bool)
        ensures
            r == spec_completed_contains(self.progress.completed.deep_view(), exercise_name@),
    {
        completed_contains(&self.progress.completed, exercise_name)
    }

    /// Marks an exercise as completed.  Marking a name already present
    /// changes nothing; otherwise the name is appended, preserving
    /// first-completion order.
    pub fn mark_completed(&mut self, exercise_name: &str)
        ensures
            final(self).progress.completed.deep_view() == spec_mark(
                old(self).progress.completed.deep_view(),
                exercise_name@,
            ),
            spec_completed_contains(
                final(self).progress.completed.deep_view(),
                exercise_name@,
            ),
            final(self).progress.version == old(self).progress.version,
            final(self).progress.current == old(self).progress.current,
            final(self).progress.hints_used == old(self).progress.hints_used,
            final(self).progress.started_at == old(self).progress.started_at,
            final(self).progress.last_activity == old(self).progress.last_activity,
            final(self).pack_root == old(self).pack_root,
            final(self).info == old(self).info,
            final(self).exercises == old(self).exercises,
            final(self).spec_progress_path() == old(self).spec_progress_path(),
            final(self).current_index == old(self).current_index,
            final(self).last_verify == old(self).last_verify,
            final(self).verifying == old(self).verifying,
    {
        if !self.is_completed(exercise_name) {
            let mut name = String::new();
            name.append(exercise_name);
            let ghost pre = self.progress.completed.deep_view();
            self.progress.completed.push(name);
            proof {
                assert(self.progress.completed.deep_view() =~= pre.push(exercise_name@));
                assert(self.progress.completed.deep_view()[pre.len() as int] == exercise_name@);
            }
        }
    }

    /// Moves to the next exercise, when there is one; at the end of
    /// the catalog nothing changes.
    pub fn next(&mut self)
        requires
            old(self).wf(),
        ensures
            final(self).wf(),
            (old(self).current_index as int) < old(self).exercises@.len() - 1 ==> {
                &&& final(self).current_index == old(self).current_index + 1
                &&& final(self).last_verify is None
                &&& AppState::frame_except_nav(*old(self), *final(self))
            },
            (old(self).current_index as int) >= old(self).exercises@.len() - 1 ==> *final(self)
                == *old(self),
    {
        if self.current_index < self.exercises.len() - 1 {
            self.current_index = self.current_index + 1;
            self.last_verify = None;
        }
    }

    /// Moves to the previous exercise, when there is one; at the start
    /// of the catalog nothing changes.
    pub fn prev(&mut self)
        requires
            old(self).wf(),
        ensures
            final(self).wf(),
            old(self).current_index > 0 ==> {
                &&& final(self).current_index == old(self).current_index - 1
                &&& final(self).last_verify is None
                &&& AppState::frame_except_nav(*old(self), *final(self))
            },
            old(self).current_index == 0 ==> *final(self) == *old(self),
    {
        if self.current_index > 0 {
            self.current_index = self.current_index - 1;
            self.last_verify = None;
        }
    }

    /// Jumps to the exercise bearing `name`.  Succeeds exactly when
    /// the catalog holds one; on failure nothing changes.
    pub fn set_current_by_name(&mut self, name: &str) -> (r: Result<(), CatalogError>)
        requires
            old(self).wf(),
        ensures
            final(self).wf(),
            r is Ok <==> spec_name_index(old(self).exercises@, name@) is Some,
            r is Ok ==> {
                &&& final(self).current_index as int == spec_name_index(
                    old(self).exercises@,
                    name@,
                )->0
                &&& final(self).last_verify is None
                &&& AppState::frame_except_nav(*old(self), *final(self))
            },
            r is Err ==> *final(self) == *old(self) && (r matches Err(
                CatalogError::ExerciseNotFound { name: n },
            ) && n@ == name@),
    {
        proof {
            lemma_name_index(self.exercises@, name@);
        }
        let mut i: usize = 0;
        while i < self.exercises.len()
            invariant
                i <= self.exercises@.len(),
                *self == *old(self),
                forall|j: int| 0 <= j < i ==> (#[trigger] self.exercises@[j].name)@ != name@,
            decreases self.exercises@.len() - i,
        {
            if str_eq(self.exercises[i].name.as_str(), name) {
                proof {
                    lemma_name_index(self.exercises@, name@);
                }
                self.current_index = i;
                self.last_verify = None;
                return Ok(());
            }
            i += 1;
        }
        proof {
            lemma_name_index(self.exercises@, name@);
        }
        let mut n = String::new();
        n.append(name);
        Err(CatalogError::ExerciseNotFound { name: n })
    }

    /// The number of completed exercises.
    pub fn completed_count(&self) -> (r: usize)
        ensures
            r == self.progress.completed@.len(),
    {
        self.progress.completed.len()
    }

    /// The number of exercises in the catalog.
    pub fn total_count(&self) -> (r: usize)
        ensures
            r == self.exercises@.len(),
    {
        self.exercises.len()
    }

    /// Whether every exercise has been completed.
    pub fn all_completed(&self) -> (r: bool)
        ensures
            r == (self.progress.completed@.len() >= self.exercises@.len()),
    {
        self.completed_count() >= self.total_count()
    }

    /// The pack's welcome message, if it has one.
    pub fn welcome_message(&self) -> (r: Option<&str>)
        ensures
            match (r, &self.info.welcome_message) {
                (Some(a), Some(b)) => a@ == b@,
                (None, None) => true,
                _ => false,
            },
    {
        match &self.info.welcome_message {
            Some(m) => Some(m.as_str()),
            None => None,
        }
    }

    /// The pack's final message, if it has one.
    pub fn final_message(&self) -> (r: Option<&str>)
        ensures
            match (r, &self.info.final_message) {
                (Some(a), Some(b)) => a@ == b@,
                (None, None) => true,
                _ => false,
            },
    {
        match &self.info.final_message {
            Some(m) => Some(m.as_str()),
            None => None,
        }
    }
}

/// In every well-formed state the current index points into the
/// catalog: `0 <= current_index < |catalog|`.
pub proof fn lemma_current_index_in_range(s: AppState)
    requires
        s.wf(),
    ensures
        0 <= s.current_index < s.exercises@.len(),
{
}

} // verus!
