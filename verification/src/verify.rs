//! Verification results and their construction.
//!
//! Running the learner script and the external status tool is
//! subprocess I/O and happens outside the library; their exit flags,
//! captured output and the parsed status arrive here as plain values.
//! These functions fuse them into a `VerifyResult` exactly as the two
//! verification modes prescribe.

use vstd::prelude::*;
use vstd::string::StringExecFns;
use crate::exercise::Exercise;

verus! {

/// Outcome of a verification attempt.
#[derive(Debug, Clone, Copy, PartialEq, Eq, Structural)]
pub enum VerifyOutcome {
    Passed,
    Failed,
}

/// Result of verifying an exercise.
#[derive(Debug, Clone)]
pub struct VerifyResult {
    pub exercise_name: String,
    pub outcome: VerifyOutcome,
    /// Whether the learner script exited successfully.
    pub python_exit_ok: bool,
    pub python_output: String,
    /// Whether the external status tool was consulted.
    pub zenml_checked: bool,
    pub zenml_output: String,
    /// Human-readable status message.
    pub message: String,
}

impl VerifyResult {
    /// Whether the verification passed.
    pub fn passed(&self) -> (r: bool)
        ensures
            r == (self.outcome is Passed),
    {
        self.outcome == VerifyOutcome::Passed
    }

    /// The output to display: the script's own output when it failed
    /// or said anything, otherwise the status tool's.
    pub fn display_output(&self) -> (r: &str)
        ensures
            (!self.python_exit_ok || self.python_output@.len() > 0) ==> r@ == self.python_output@,
            (self.python_exit_ok && self.python_output@.len() == 0) ==> r@ == self.zenml_output@,
    {
        if !self.python_exit_ok || !self.python_output.as_str().is_empty() {
            self.python_output.as_str()
        } else {
            self.zenml_output.as_str()
        }
    }
}

/// Options for verification.
#[derive(Debug, Clone)]
pub struct VerifyOptions {
    pub python_bin: String,
    pub zenml_bin: String,
    pub working_dir: String,
}

impl Default for VerifyOptions {
    /// The stock interpreter and tool names, with the working directory
    /// left for the caller to fill in.
    fn default() -> (r: Self)
        ensures
            r.python_bin@ == "python"@,
            r.zenml_bin@ == "zenml"@,
            r.working_dir@ == "."@,
    {
        VerifyOptions {
            python_bin: String::from_str("python"),
            zenml_bin: String::from_str("zenml"),
            working_dir: String::from_str("."),
        }
    }
}

/// Message type for streaming output.
#[derive(Debug, Clone)]
pub enum OutputLine {
    Stdout(String),
    Stderr(String),
    /// End of the run; carries whether the script exited successfully.
    Done(bool),
}

/// The status string named by a structured run listing, if any.
///
/// This names what `parse_zenml_status` returns; the result depends on
/// the listing text alone.
pub uninterp spec fn spec_listing_status(s: Seq<char>) -> Option<Seq<char>>;

/// Relies on `serde_json::from_str` and `serde_json::Value::{get, as_str}`:
/// reads the listing as a JSON document and returns the `status` string
/// field of the first element of its top-level `items` array, or `None`
/// when the text is not such a document.  The result is a function of
/// the text alone.
#[verifier::external_body]
pub fn parse_zenml_status(json_str: &str) -> (r: Option<String>)
    ensures
        match r {
            Some(s) => spec_listing_status(json_str@) == Some(s@),
            None => spec_listing_status(json_str@) is None,
        },
{
    let value: serde_json::Value = serde_json::from_str(json_str).ok()?;
    value.get("items")?.get(0)?.get("status")?.as_str().map(|s| s.to_string())
}

/// The combined transcript of a subprocess: its standard output, then,
/// when the error stream said anything, a newline and that stream.
pub fn combine_output(stdout: &str, stderr: &str) -> (r: String)
    ensures
        stderr@.len() == 0 ==> r@ == stdout@,
        stderr@.len() > 0 ==> r@ == stdout@ + "\n"@ + stderr@,
{
    if stderr.is_empty() {
        String::from_str(stdout)
    } else {
        let mut r = String::from_str(stdout);
        r.append("\n");
        r.append(stderr);
        r
    }
}

/// What full-mode verification returns for each fused set of step
/// outcomes: the script's exit, then the status tool's own success,
/// then the reported status against the expected one.
pub open spec fn spec_full_verdict(
    e: Exercise,
    python_ok: bool,
    python_output: Seq<char>,
    zenml_ok: bool,
    zenml_output: Seq<char>,
    status: Option<Seq<char>>,
    r: VerifyResult,
) -> bool {
    &&& r.exercise_name@ == e.name@
    &&& if !python_ok {
        &&& r.outcome is Failed
        &&& !r.python_exit_ok
        &&& r.python_output@ == python_output
        &&& !r.zenml_checked
        &&& r.zenml_output@.len() == 0
        &&& r.message@ == "Python script failed"@
    } else if !zenml_ok {
        &&& r.outcome is Failed
        &&& r.python_exit_ok
        &&& r.python_output@ == python_output
        &&& r.zenml_checked
        &&& r.zenml_output@ == zenml_output
        &&& r.message@ == "ZenML status check failed"@
    } else if status matches Some(s) && s == e.verify_status@ {
        &&& r.outcome is Passed
        &&& r.python_exit_ok
        &&& r.python_output@ == python_output
        &&& r.zenml_checked
        &&& r.zenml_output@ == zenml_output
        &&& r.message@ == "Pipeline "@ + e.verify_status@
    } else {
        &&& r.outcome is Failed
        &&& r.python_exit_ok
        &&& r.python_output@ == python_output
        &&& r.zenml_checked
        &&& r.zenml_output@ == zenml_output
        &&& r.message@ == "Pipeline status '"@ + (match status {
            Some(s) => s,
            None => "unknown"@,
        }) + "', expected '"@ + e.verify_status@ + "'"@
    }
}

/// Full-mode verification verdict.  The subprocess steps have already
/// run: `python_ok` is the script's exit, `zenml_ok` whether the status
/// tool itself succeeded, and `status` the status it reported.  Passes
/// exactly when the script succeeded, the tool answered, and the
/// reported status equals the exercise's expected status; every failure
/// carries the message naming what went wrong.
pub fn verify_exercise(
    exercise: &Exercise,
    python_ok: bool,
    python_output: String,
    zenml_ok: bool,
    zenml_output: String,
    status: Option<String>,
) -> (r: VerifyResult)
    ensures
        spec_full_verdict(
            *exercise,
            python_ok,
            python_output@,
            zenml_ok,
            zenml_output@,
            match status {
                Some(s) => Some(s@),
                None => None,
            },
            r,
        ),
        r.outcome is Passed <==> (python_ok && zenml_ok && (status matches Some(s) && s@
            == exercise.verify_status@)),
{
    if !python_ok {
        return VerifyResult {
            exercise_name: exercise.name.clone(),
            outcome: VerifyOutcome::Failed,
            python_exit_ok: false,
            python_output,
            zenml_checked: false,
            zenml_output: String::new(),
            message: String::from_str("Python script failed"),
        };
    }
    if !zenml_ok {
        return VerifyResult {
            exercise_name: exercise.name.clone(),
            outcome: VerifyOutcome::Failed,
            python_exit_ok: true,
            python_output,
            zenml_checked: true,
            zenml_output,
            message: String::from_str("ZenML status check failed"),
        };
    }
    let status_matches = match &status {
        Some(s) => crate::text::str_eq(s.as_str(), exercise.verify_status.as_str()),
        None => false,
    };
    if status_matches {
        let mut message = String::from_str("Pipeline ");
        message.append(exercise.verify_status.as_str());
        VerifyResult {
            exercise_name: exercise.name.clone(),
            outcome: VerifyOutcome::Passed,
            python_exit_ok: true,
            python_output,
            zenml_checked: true,
            zenml_output,
            message,
        }
    } else {
        let actual = match status {
            Some(s) => s,
            None => String::from_str("unknown"),
        };
        let mut message = String::from_str("Pipeline status '");
        message.append(actual.as_str());
        message.append("', expected '");
        message.append(exercise.verify_status.as_str());
        message.append("'");
        VerifyResult {
            exercise_name: exercise.name.clone(),
            outcome: VerifyOutcome::Failed,
            python_exit_ok: true,
            python_output,
            zenml_checked: true,
            zenml_output,
            message,
        }
    }
}

/// The verdict in the simpler verification mode: it passes exactly
/// when the learner script exited successfully; the status tool is
/// not consulted.
pub fn verify_exercise_simple(exercise: &Exercise, python_ok: bool, python_output: String) -> (r:
    VerifyResult)
    ensures
        r.exercise_name@ == exercise.name@,
        r.outcome is Passed <==> python_ok,
        r.python_exit_ok == python_ok,
        r.python_output@ == python_output@,
        !r.zenml_checked,
        r.zenml_output@.len() == 0,
        python_ok ==> r.message@ == "Exercise completed successfully"@,
        !python_ok ==> r.message@ == "Python script failed"@,
{
    VerifyResult {
        exercise_name: exercise.name.clone(),
        outcome: if python_ok {
            VerifyOutcome::Passed
        } else {
            VerifyOutcome::Failed
        },
        python_exit_ok: python_ok,
        python_output,
        zenml_checked: false,
        zenml_output: String::new(),
        message: if python_ok {
            String::from_str("Exercise completed successfully")
        } else {
            String::from_str("Python script failed")
        },
    }
}

/// The failed result delivered when verification itself broke down
/// (the status step could not run at all): never `Passed`, with the
/// breakdown's description in the message.
pub fn verification_error_result(exercise: &Exercise, error_text: &str) -> (r: VerifyResult)
    ensures
        r.exercise_name@ == exercise.name@,
        r.outcome is Failed,
        r.python_exit_ok,
        r.python_output@.len() == 0,
        !r.zenml_checked,
        r.zenml_output@ == "Error: "@ + error_text@,
        r.message@ == "Verification error: "@ + error_text@,
{
    let mut zenml_output = String::from_str("Error: ");
    zenml_output.append(error_text);
    let mut message = String::from_str("Verification error: ");
    message.append(error_text);
    VerifyResult {
        exercise_name: exercise.name.clone(),
        outcome: VerifyOutcome::Failed,
        python_exit_ok: true,
        python_output: String::new(),
        zenml_checked: false,
        zenml_output,
        message,
    }
}

/// What became of the status step of a run: skipped, taken, or broken
/// down before it could run.
#[derive(Debug, Clone)]
pub enum StatusStep {
    /// The step was not taken (simpler mode, or the script failed).
    Skipped,
    /// The tool ran: its own success, its transcript, and the status
    /// it reported.
    Ran { zenml_ok: bool, zenml_output: String, status: Option<String> },
    /// The step could not run at all.
    Broke { error: String },
}

/// The one result the worker builds for a run request: the mode picks
/// the verdict function, and every branch returns exactly one result.
/// The script's output is empty here because it was streamed.
pub fn worker_result(exercise: &Exercise, simple_mode: bool, python_ok: bool, step: StatusStep)
    -> (r: VerifyResult)
    requires
        simple_mode || !python_ok || !(step is Skipped),
    ensures
        r.exercise_name@ == exercise.name@,
        r.python_output@.len() == 0,
        simple_mode ==> {
            &&& (r.outcome is Passed <==> python_ok)
            &&& !r.zenml_checked
            &&& (python_ok ==> r.message@ == "Exercise completed successfully"@)
            &&& (!python_ok ==> r.message@ == "Python script failed"@)
        },
        !simple_mode && !python_ok ==> spec_full_verdict(
            *exercise,
            false,
            Seq::empty(),
            false,
            Seq::empty(),
            None,
            r,
        ),
        !simple_mode && python_ok ==> match step {
            StatusStep::Ran { zenml_ok, zenml_output, status } => spec_full_verdict(
                *exercise,
                true,
                Seq::empty(),
                zenml_ok,
                zenml_output@,
                match status {
                    Some(s) => Some(s@),
                    None => None,
                },
                r,
            ),
            StatusStep::Broke { error } => {
                &&& r.outcome is Failed
                &&& r.message@ == "Verification error: "@ + error@
            },
            StatusStep::Skipped => true,
        },
{
    if simple_mode {
        verify_exercise_simple(exercise, python_ok, String::new())
    } else if !python_ok {
        verify_exercise(exercise, false, String::new(), false, String::new(), None)
    } else {
        match step {
            StatusStep::Ran { zenml_ok, zenml_output, status } => verify_exercise(
                exercise,
                true,
                String::new(),
                zenml_ok,
                zenml_output,
                status,
            ),
            StatusStep::Broke { error } => verification_error_result(exercise, error.as_str()),
            StatusStep::Skipped => {
                proof {
                    assert(false);
                }
                vstd::pervasive::unreached()
            },
        }
    }
}

/// Whether the pack directory has been initialized for the external
/// engine: its listing contains a `.zen` entry.
pub fn check_zenml_init(entries: &Vec<String>) -> (r: bool)
    ensures
        r == (exists|i: int| 0 <= i < entries@.len() && entries@[i]@ == ".zen"@),
{
    let mut i: usize = 0;
    while i < entries.len()
        invariant
            i <= entries@.len(),
            forall|j: int| 0 <= j < i ==> entries@[j]@ != ".zen"@,
        decreases entries@.len() - i,
    {
        if crate::text::str_eq(entries[i].as_str(), ".zen") {
            return true;
        }
        i += 1;
    }
    false
}

/// Result of checking the orchestrator type.
#[derive(Debug, Clone)]
pub enum OrchestratorCheckResult {
    /// Successfully found the active orchestrator's flavor.
    Found(String),
    /// The status tool's command failed (with error details).
    CommandFailed(String),
    /// The command succeeded but no active orchestrator was found.
    NotFound,
}

/// A version of the learner-script interpreter.
#[derive(Debug, Clone, Copy, PartialEq, Eq, PartialOrd, Ord, Structural)]
pub struct PythonVersion {
    pub major: u32,
    pub minor: u32,
    pub patch: u32,
}

/// Whether a version reaches the minimum the tutor needs (3.9.0),
/// comparing major, then minor, then patch.
pub open spec fn spec_meets_minimum(v: PythonVersion) -> bool {
    v.major > 3 || (v.major == 3 && v.minor >= 9)
}

impl PythonVersion {
    /// The minimum interpreter version the tutor supports.
    pub fn min_required() -> (r: PythonVersion)
        ensures
            r == (PythonVersion { major: 3u32, minor: 9u32, patch: 0u32 }),
    {
        PythonVersion { major: 3, minor: 9, patch: 0 }
    }

    /// Whether this version meets the minimum requirement.
    pub fn meets_minimum(&self) -> (r: bool)
        ensures
            r == spec_meets_minimum(*self),
    {
        self.major > 3 || (self.major == 3 && self.minor >= 9)
    }

    /// The `major.minor.patch` rendering of the version.
    pub fn version_string(&self) -> (r: String)
        ensures
            r@ == crate::text::spec_dec(self.major as nat) + "."@ + crate::text::spec_dec(
                self.minor as nat,
            ) + "."@ + crate::text::spec_dec(self.patch as nat),
    {
        let mut r = crate::text::dec_string(self.major as u64);
        r.append(".");
        let m = crate::text::dec_string(self.minor as u64);
        r.append(m.as_str());
        r.append(".");
        let p = crate::text::dec_string(self.patch as u64);
        r.append(p.as_str());
        r
    }
}

/// Whether `s` has the shape `<digits>.<digits>.<digits>` with the
/// dots at `i1` and `i2` and every segment non-empty.
pub open spec fn spec_version_shape(s: Seq<char>, i1: int, i2: int) -> bool {
    &&& 0 < i1
    &&& i1 + 1 < i2
    &&& i2 + 1 < s.len()
    &&& s[i1] == '.'
    &&& s[i2] == '.'
    &&& forall|j: int|
        0 <= j < s.len() && j != i1 && j != i2 ==> crate::text::is_digit(#[trigger] s[j])
}

/// The numeric value of a version segment.  A segment too large for
/// `u32` reads as zero.
pub open spec fn spec_version_component(s: Seq<char>) -> u32 {
    if crate::text::spec_dec_val(s) > u32::MAX {
        0u32
    } else {
        crate::text::spec_dec_val(s) as u32
    }
}

/// The value of the digit run `v[from..to]`, clamped to the
/// zero-on-overflow rule of `spec_version_component`.
fn version_component(v: &Vec<char>, from: usize, to: usize) -> (r: u32)
    requires
        from <= to <= v@.len(),
        forall|j: int| from <= j < to ==> crate::text::is_digit(#[trigger] v@[j]),
    ensures
        r == spec_version_component(v@.subrange(from as int, to as int)),
{
    let mut acc: u64 = 0;
    let mut i: usize = from;
    while i < to
        invariant
            from <= i <= to <= v@.len(),
            forall|j: int| from <= j < to ==> crate::text::is_digit(#[trigger] v@[j]),
            acc <= 0x1_0000_0000,
            crate::text::spec_dec_val(v@.subrange(from as int, i as int)) <= u32::MAX ==> acc
                == crate::text::spec_dec_val(v@.subrange(from as int, i as int)),
            crate::text::spec_dec_val(v@.subrange(from as int, i as int)) > u32::MAX ==> acc
                == 0x1_0000_0000,
        decreases to - i,
    {
        let d = crate::text::digit_value(v[i]);
        proof {
            let pre = v@.subrange(from as int, i as int);
            let ext = v@.subrange(from as int, i as int + 1);
            assert(ext.drop_last() =~= pre);
            assert(ext.last() == v@[i as int]);
            assert(crate::text::spec_dec_val(ext) == crate::text::spec_dec_val(pre) * 10
                + crate::text::digit_val(v@[i as int]));
        }
        acc = acc * 10 + d;
        if acc > 0xffff_ffff {
            acc = 0x1_0000_0000;
        }
        i += 1;
    }
    proof {
        assert(v@.subrange(from as int, i as int) =~= v@.subrange(from as int, to as int));
    }
    if acc > 0xffff_ffff {
        0
    } else {
        acc as u32
    }
}

/// Parses an interpreter version of the shape
/// `<major>.<minor>.<patch>`: three non-empty digit runs separated by
/// single dots and nothing else.  Any other shape is rejected; a
/// segment too large for `u32` reads as zero.
pub fn parse_python_version(s: &str) -> (r: Option<PythonVersion>)
    ensures
        r matches Some(ver) ==> exists|i1: int, i2: int|
            {
                &&& #[trigger] spec_version_shape(s@, i1, i2)
                &&& ver.major == spec_version_component(s@.subrange(0, i1))
                &&& ver.minor == spec_version_component(s@.subrange(i1 + 1, i2))
                &&& ver.patch == spec_version_component(s@.subrange(i2 + 1, s@.len() as int))
            },
        r is None ==> forall|i1: int, i2: int| !spec_version_shape(s@, i1, i2),
{
    let v = crate::text::chars_of(s);
    let len = v.len();

    // First digit run.
    let mut i1: usize = 0;
    while i1 < len && crate::text::is_digit_char(v[i1])
        invariant
            i1 <= len,
            len == v@.len(),
            v@ == s@,
            forall|j: int| 0 <= j < i1 ==> crate::text::is_digit(#[trigger] v@[j]),
        decreases len - i1,
    {
        i1 += 1;
    }
    if i1 == 0 || i1 == len || v[i1] != '.' {
        proof {
            assert forall|a: int, b: int| !spec_version_shape(s@, a, b) by {
                if spec_version_shape(s@, a, b) {
                    // The first dot of any such shape would be the first
                    // non-digit character, which this scan did not find
                    // in an acceptable place.
                    if i1 < len && a != i1 && b != i1 {
                        assert(crate::text::is_digit(s@[i1 as int]));
                    }
                }
            }
        }
        return None;
    }

    // Second digit run.
    let mut i2: usize = i1 + 1;
    while i2 < len && crate::text::is_digit_char(v[i2])
        invariant
            i1 + 1 <= i2 <= len,
            len == v@.len(),
            v@ == s@,
            forall|j: int| i1 < j < i2 ==> crate::text::is_digit(#[trigger] v@[j]),
        decreases len - i2,
    {
        i2 += 1;
    }
    if i2 == i1 + 1 || i2 == len || v[i2] != '.' {
        proof {
            assert forall|a: int, b: int| !spec_version_shape(s@, a, b) by {
                if spec_version_shape(s@, a, b) {
                    assert(a == i1) by {
                        if a < i1 {
                            assert(crate::text::is_digit(s@[a]));
                        }
                        if a > i1 {
                            assert(crate::text::is_digit(s@[i1 as int]));
                        }
                    }
                    if i2 < len && b != i2 {
                        assert(crate::text::is_digit(s@[i2 as int]));
                    }
                    if b < i2 {
                        assert(crate::text::is_digit(s@[b]));
                    }
                }
            }
        }
        return None;
    }

    // Third digit run, which must reach the end.
    let mut i3: usize = i2 + 1;
    while i3 < len && crate::text::is_digit_char(v[i3])
        invariant
            i2 + 1 <= i3 <= len,
            len == v@.len(),
            v@ == s@,
            forall|j: int| i2 < j < i3 ==> crate::text::is_digit(#[trigger] v@[j]),
        decreases len - i3,
    {
        i3 += 1;
    }
    if i3 == i2 + 1 || i3 < len {
        proof {
            assert forall|a: int, b: int| !spec_version_shape(s@, a, b) by {
                if spec_version_shape(s@, a, b) {
                    assert(a == i1) by {
                        if a < i1 {
                            assert(crate::text::is_digit(s@[a]));
                        }
                        if a > i1 {
                            assert(crate::text::is_digit(s@[i1 as int]));
                        }
                    }
                    assert(b == i2) by {
                        if b < i2 {
                            assert(crate::text::is_digit(s@[b]));
                        }
                        if b > i2 {
                            assert(crate::text::is_digit(s@[i2 as int]));
                        }
                    }
                    if i3 < len {
                        assert(crate::text::is_digit(s@[i3 as int]));
                    }
                }
            }
        }
        return None;
    }

    let major = version_component(&v, 0, i1);
    let minor = version_component(&v, i1 + 1, i2);
    let patch = version_component(&v, i2 + 1, len);
    proof {
        assert(spec_version_shape(s@, i1 as int, i2 as int));
    }
    Some(PythonVersion { major, minor, patch })
}

/// Reads the version out of the status tool's version line
/// (`zenml, version 0.60.0` or similar): everything after the first
/// occurrence of the version keyword, trimmed; when the keyword is
/// absent, the whole line trimmed.
pub fn parse_cli_version_line(line: &str) -> (r: String)
    ensures
        (exists|i: int| crate::text::occurs_at(line@, "version"@, i)) ==> (exists|i: int|
            {
                &&& #[trigger] crate::text::occurs_at(line@, "version"@, i)
                &&& (forall|j: int| 0 <= j < i ==> !crate::text::occurs_at(line@, "version"@, j))
                &&& r@ == crate::text::spec_trim(line@.skip(i + "version"@.len()))
            }),
        (forall|j: int| !crate::text::occurs_at(line@, "version"@, j)) ==> r@
            == crate::text::spec_trim(line@),
{
    match crate::text::find_first(line, "version") {
        Some(idx) => {
            let v = crate::text::chars_of(line);
            let n = v.len();
            let keyword_len = "version".unicode_len();
            proof {
                assert(idx + "version"@.len() <= line@.len());
            }
            let start = idx + keyword_len;
            let mut rest: Vec<char> = Vec::new();
            let mut i: usize = start;
            while i < n
                invariant
                    v@ == line@,
                    n == v@.len(),
                    start <= i <= n,
                    rest@ == line@.subrange(start as int, i as int),
                decreases n - i,
            {
                rest.push(v[i]);
                proof {
                    assert(rest@ =~= line@.subrange(start as int, i as int + 1));
                }
                i += 1;
            }
            proof {
                assert(rest@ =~= line@.skip(start as int));
            }
            let rest_str = crate::text::string_of(&rest);
            crate::text::trim_str(rest_str.as_str())
        },
        None => crate::text::trim_str(line),
    }
}

/// Result of probing for the external engine's installation.
#[derive(Debug, Clone)]
pub struct ZenmlProbe {
    /// The engine's package version, if importable.
    pub zenml_version: Option<String>,
    /// Whether the engine's package can be imported by the interpreter.
    pub python_import_ok: bool,
    /// Whether the engine's command-line tool is accessible and working.
    pub zenml_cli_ok: bool,
    /// The command-line tool's version string.
    pub zenml_cli_version: Option<String>,
}

/// Fuses the two installation checks (package import and command-line
/// tool) into one probe record.
pub fn probe_zenml(
    python_import_ok: bool,
    zenml_version: Option<String>,
    zenml_cli_ok: bool,
    zenml_cli_version: Option<String>,
) -> (r: ZenmlProbe)
    ensures
        r.python_import_ok == python_import_ok,
        r.zenml_cli_ok == zenml_cli_ok,
        r.zenml_version == zenml_version,
        r.zenml_cli_version == zenml_cli_version,
{
    ZenmlProbe { zenml_version, python_import_ok, zenml_cli_ok, zenml_cli_version }
}

/// The interpreter to use: the pack's own virtual-environment
/// interpreter when it exists, otherwise the configured default.
pub fn find_python_binary(working_dir: &str, default_bin: &str, venv_python_exists: bool) -> (r:
    String)
    ensures
        venv_python_exists ==> r@ == working_dir@ + "/.venv/bin/python"@,
        !venv_python_exists ==> r@ == default_bin@,
{
    if venv_python_exists {
        let mut r = String::from_str(working_dir);
        r.append("/.venv/bin/python");
        r
    } else {
        String::from_str(default_bin)
    }
}

/// The status tool to use: the pack's own virtual-environment copy
/// when it exists and answers, otherwise the configured default.
pub fn find_zenml_binary(working_dir: &str, default_bin: &str, venv_zenml_works: bool) -> (r:
    String)
    ensures
        venv_zenml_works ==> r@ == working_dir@ + "/.venv/bin/zenml"@,
        !venv_zenml_works ==> r@ == default_bin@,
{
    if venv_zenml_works {
        let mut r = String::from_str(working_dir);
        r.append("/.venv/bin/zenml");
        r
    } else {
        String::from_str(default_bin)
    }
}

} // verus!
