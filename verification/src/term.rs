//! Terminal-facing types and the pure parts of the views.
//!
//! Painting, raw mode and the keyboard poll are I/O and live outside
//! the library.  What is here is the semantic layer: the key-to-action
//! table, the startup-checklist states, and the computations behind
//! the views (progress-bar fill, output tails, safe truncation, list
//! lines), each a pure function of plain values.

use vstd::prelude::*;
use vstd::string::StringExecFns;
use crate::text::{dec_string, spec_dec};

verus! {

/// Status of a startup check item.
#[derive(Debug, Clone)]
pub enum StartupCheckStatus {
    Pending,
    Running { frame: usize },
    Passed { details: String },
    Warn { details: String },
    Failed { error: String, help: Vec<String> },
}

/// A single item in the startup checklist.
#[derive(Debug, Clone)]
pub struct StartupCheckItem {
    pub label: String,
    pub status: StartupCheckStatus,
}

/// Outcome of a single startup check.
#[derive(Debug, Clone)]
pub enum CheckOutcome {
    Pass { details: String },
    Warn { details: String },
    Fail { error: String, help: Vec<String> },
}

/// Writes a check's outcome into its checklist item: the status takes
/// the outcome's shape, and every other item stays as it was.
pub fn apply_outcome(items: &mut Vec<StartupCheckItem>, idx: usize, outcome: &CheckOutcome)
    requires
        idx < old(items)@.len(),
    ensures
        final(items)@.len() == old(items)@.len(),
        forall|j: int| 0 <= j < old(items)@.len() && j != idx ==> final(items)@[j] == old(items)@[j],
        final(items)@[idx as int].label == old(items)@[idx as int].label,
        match (outcome, final(items)@[idx as int].status) {
            (CheckOutcome::Pass { details }, StartupCheckStatus::Passed { details: d }) => d@
                == details@,
            (CheckOutcome::Warn { details }, StartupCheckStatus::Warn { details: d }) => d@
                == details@,
            (
                CheckOutcome::Fail { error, help },
                StartupCheckStatus::Failed { error: e, help: h },
            ) => e@ == error@ && h@ == help@,
            _ => false,
        },
{
    let status = match outcome {
        CheckOutcome::Pass { details } => StartupCheckStatus::Passed { details: details.clone() },
        CheckOutcome::Warn { details } => StartupCheckStatus::Warn { details: details.clone() },
        CheckOutcome::Fail { error, help } => StartupCheckStatus::Failed {
            error: error.clone(),
            help: help.clone(),
        },
    };
    let label = items[idx].label.clone();
    items[idx] = StartupCheckItem { label, status };
}

/// The spinner glyph for an animation frame.
pub fn spinner_frame(i: usize) -> (r: &'static str)
    ensures
        r@ == (if i % 4 == 0 {
            "\u{25d0}"@
        } else if i % 4 == 1 {
            "\u{25d3}"@
        } else if i % 4 == 2 {
            "\u{25d1}"@
        } else {
            "\u{25d2}"@
        }),
{
    let m = i % 4;
    if m == 0 {
        "\u{25d0}"
    } else if m == 1 {
        "\u{25d3}"
    } else if m == 2 {
        "\u{25d1}"
    } else {
        "\u{25d2}"
    }
}

/// The verdict on the interpreter check: the version must be detected
/// and meet the minimum.
pub fn python_check_outcome(version: &Result<crate::verify::PythonVersion, String>) -> (r:
    CheckOutcome)
    ensures
        match version {
            Ok(v) => {
                if crate::verify::spec_meets_minimum(*v) {
                    r matches CheckOutcome::Pass { details } && details@ == "Python "@
                        + spec_dec(v.major as nat) + "."@ + spec_dec(v.minor as nat) + "."@
                        + spec_dec(v.patch as nat)
                } else {
                    r matches CheckOutcome::Fail { error, help } && error@ == "Python "@
                        + spec_dec(v.major as nat) + "."@ + spec_dec(v.minor as nat) + "."@
                        + spec_dec(v.patch as nat) + " (need >= 3.9.0)"@ && help@.len() == 2
                        && help@[0]@ == "Install Python 3.9 or newer"@ && help@[1]@
                        == "Or use --python <path> to specify a different interpreter"@
                }
            },
            Err(e) => r matches CheckOutcome::Fail { error, help } && error@
                == "Could not detect Python: "@ + e@ && help@.len() == 2 && help@[0]@
                == "Ensure Python is installed and in your PATH"@ && help@[1]@
                == "Or use --python <path> to specify the interpreter"@,
        },
{
    match version {
        Ok(v) => {
            let vs = v.version_string();
            if v.meets_minimum() {
                let mut details = String::from_str("Python ");
                details.append(vs.as_str());
                CheckOutcome::Pass { details }
            } else {
                let mut error = String::from_str("Python ");
                error.append(vs.as_str());
                error.append(" (need >= 3.9.0)");
                let mut help: Vec<String> = Vec::new();
                help.push(String::from_str("Install Python 3.9 or newer"));
                help.push(
                    String::from_str("Or use --python <path> to specify a different interpreter"),
                );
                CheckOutcome::Fail { error, help }
            }
        },
        Err(e) => {
            let mut error = String::from_str("Could not detect Python: ");
            error.append(e.as_str());
            let mut help: Vec<String> = Vec::new();
            help.push(String::from_str("Ensure Python is installed and in your PATH"));
            help.push(String::from_str("Or use --python <path> to specify the interpreter"));
            CheckOutcome::Fail { error, help }
        },
    }
}

/// The verdict on the engine-installation check: the package must be
/// importable and the command-line tool must answer.
pub fn zenml_install_outcome(probe: &crate::verify::ZenmlProbe) -> (r: CheckOutcome)
    ensures
        !probe.python_import_ok ==> (r matches CheckOutcome::Fail { error, help } && error@
            == "ZenML not found in Python environment"@ && help@.len() == 2 && help@[0]@
            == "Install with: pip install \"zenml[local]\""@ && help@[1]@
            == "Make sure to install in the same environment as --python"@),
        probe.python_import_ok && !probe.zenml_cli_ok ==> (r matches CheckOutcome::Fail {
            error,
            help,
        } && error@ == "ZenML CLI not accessible"@ && help@.len() == 2 && help@[0]@
            == "Ensure 'zenml' command is in your PATH"@ && help@[1]@
            == "Or use --zenml <path> to specify the CLI location"@),
        probe.python_import_ok && probe.zenml_cli_ok ==> (r matches CheckOutcome::Pass { details }
            && details@ == (match (&probe.zenml_version, &probe.zenml_cli_version) {
            (Some(py_ver), _) => "v"@ + py_ver@,
            (None, Some(cli_ver)) => "CLI v"@ + cli_ver@,
            (None, None) => "installed"@,
        })),
{
    if !probe.python_import_ok {
        let mut help: Vec<String> = Vec::new();
        help.push(String::from_str("Install with: pip install \"zenml[local]\""));
        help.push(
            String::from_str("Make sure to install in the same environment as --python"),
        );
        return CheckOutcome::Fail {
            error: String::from_str("ZenML not found in Python environment"),
            help,
        };
    }
    if !probe.zenml_cli_ok {
        let mut help: Vec<String> = Vec::new();
        help.push(String::from_str("Ensure 'zenml' command is in your PATH"));
        help.push(String::from_str("Or use --zenml <path> to specify the CLI location"));
        return CheckOutcome::Fail {
            error: String::from_str("ZenML CLI not accessible"),
            help,
        };
    }
    let details = match (&probe.zenml_version, &probe.zenml_cli_version) {
        (Some(py_ver), _) => {
            let mut d = String::from_str("v");
            d.append(py_ver.as_str());
            d
        },
        (None, Some(cli_ver)) => {
            let mut d = String::from_str("CLI v");
            d.append(cli_ver.as_str());
            d
        },
        (None, None) => String::from_str("installed"),
    };
    CheckOutcome::Pass { details }
}

/// The verdict on the initialization check: the pack directory must
/// hold the engine's marker directory.
pub fn init_check_outcome(initialized: bool, pack_root: &str) -> (r: CheckOutcome)
    ensures
        initialized ==> (r matches CheckOutcome::Pass { details } && details@
            == ".zen directory found"@),
        !initialized ==> (r matches CheckOutcome::Fail { error, help } && error@
            == "ZenML not initialized"@ && help@.len() == 2 && help@[0]@ == "cd "@ + pack_root@
            && help@[1]@ == "zenml init"@),
{
    if initialized {
        CheckOutcome::Pass { details: String::from_str(".zen directory found") }
    } else {
        let mut cd = String::from_str("cd ");
        cd.append(pack_root);
        let mut help: Vec<String> = Vec::new();
        help.push(cd);
        help.push(String::from_str("zenml init"));
        CheckOutcome::Fail { error: String::from_str("ZenML not initialized"), help }
    }
}

/// The verdict on the orchestrator check: only the local flavor gets
/// a pass; everything else is a warning, never a failure.
pub fn orchestrator_check_outcome(check: &crate::verify::OrchestratorCheckResult) -> (r:
    CheckOutcome)
    ensures
        match check {
            crate::verify::OrchestratorCheckResult::Found(flavor) => {
                if flavor@ == "local"@ {
                    r matches CheckOutcome::Pass { details } && details@ == "local"@
                } else {
                    r matches CheckOutcome::Warn { details } && details@ == "'"@ + flavor@
                        + "' (recommend 'local' for fast feedback)"@
                }
            },
            crate::verify::OrchestratorCheckResult::NotFound => r matches CheckOutcome::Warn {
                details,
            } && details@ == "no active orchestrator found"@,
            crate::verify::OrchestratorCheckResult::CommandFailed(err) => r matches
                CheckOutcome::Warn { details } && details@ == err@,
        },
{
    match check {
        crate::verify::OrchestratorCheckResult::Found(flavor) => {
            if crate::text::str_eq(flavor.as_str(), "local") {
                CheckOutcome::Pass { details: String::from_str("local") }
            } else {
                let mut details = String::from_str("'");
                details.append(flavor.as_str());
                details.append("' (recommend 'local' for fast feedback)");
                CheckOutcome::Warn { details }
            }
        },
        crate::verify::OrchestratorCheckResult::NotFound => CheckOutcome::Warn {
            details: String::from_str("no active orchestrator found"),
        },
        crate::verify::OrchestratorCheckResult::CommandFailed(err) => CheckOutcome::Warn {
            details: err.clone(),
        },
    }
}

/// Key actions the user can take.
#[derive(Debug, Clone, Copy, PartialEq, Eq, Structural)]
pub enum Action {
    Quit,
    Hint,
    Next,
    Prev,
    List,
    Rerun,
    Solution,
    Open,
    Continue,
    NoOp,
}

/// A key press, as the semantic layer sees it: a character with its
/// control-modifier flag, the two dismiss keys, or anything else.
#[derive(Debug, Clone, Copy, PartialEq, Eq, Structural)]
pub enum KeyPress {
    Char { c: char, ctrl: bool },
    Enter,
    Esc,
    Other,
}

/// The key-to-action table.
pub open spec fn spec_key_to_action(k: KeyPress) -> Action {
    match k {
        KeyPress::Char { c, ctrl } => {
            if ctrl && c == 'c' {
                Action::Quit
            } else if c == 'q' {
                Action::Quit
            } else if c == 'h' {
                Action::Hint
            } else if c == 'n' {
                Action::Next
            } else if c == 'p' {
                Action::Prev
            } else if c == 'l' {
                Action::List
            } else if c == 'r' {
                Action::Rerun
            } else if c == 's' {
                Action::Solution
            } else if c == 'o' {
                Action::Open
            } else {
                Action::NoOp
            }
        },
        KeyPress::Enter => Action::Continue,
        KeyPress::Esc => Action::Continue,
        KeyPress::Other => Action::NoOp,
    }
}

/// Converts a key press to an action, following the key table.
pub fn key_to_action(key: KeyPress) -> (r: Action)
    ensures
        r == spec_key_to_action(key),
{
    match key {
        KeyPress::Char { c, ctrl } => {
            if ctrl && c == 'c' {
                Action::Quit
            } else if c == 'q' {
                Action::Quit
            } else if c == 'h' {
                Action::Hint
            } else if c == 'n' {
                Action::Next
            } else if c == 'p' {
                Action::Prev
            } else if c == 'l' {
                Action::List
            } else if c == 'r' {
                Action::Rerun
            } else if c == 's' {
                Action::Solution
            } else if c == 'o' {
                Action::Open
            } else {
                Action::NoOp
            }
        },
        KeyPress::Enter => Action::Continue,
        KeyPress::Esc => Action::Continue,
        KeyPress::Other => Action::NoOp,
    }
}

/// A modal's text: a title and a body.
#[derive(Debug, Clone)]
pub struct ModalView {
    pub title: String,
    pub body: String,
}

/// The welcome modal for a pack's welcome message.
pub fn render_welcome(message: &str) -> (r: ModalView)
    ensures
        r.title@ == "Welcome to Zenlings!"@,
        r.body@ == message@,
{
    ModalView { title: String::from_str("Welcome to Zenlings!"), body: String::from_str(message) }
}

/// How many cells of the progress bar are filled: the completed share
/// of the bar's width, rounded down.
pub fn progress_bar_filled(completed: usize, total: usize, bar_width: usize) -> (r: usize)
    requires
        completed * bar_width <= usize::MAX,
    ensures
        total > 0 ==> r == (completed * bar_width) / (total as int),
        total == 0 ==> r == 0,
        completed <= total ==> r <= bar_width,
{
    if total == 0 {
        0
    } else {
        proof {
            if completed <= total {
                vstd::arithmetic::mul::lemma_mul_inequality(
                    completed as int,
                    total as int,
                    bar_width as int,
                );
                vstd::arithmetic::div_mod::lemma_div_is_ordered(
                    completed as int * bar_width as int,
                    total as int * bar_width as int,
                    total as int,
                );
                vstd::arithmetic::mul::lemma_mul_is_commutative(total as int, bar_width as int);
                vstd::arithmetic::div_mod::lemma_div_multiples_vanish(
                    bar_width as int,
                    total as int,
                );
            }
        }
        (completed * bar_width) / total
    }
}

/// Where the visible tail of the output ring starts, given the rows
/// available: the last `max_rows` lines are shown.
pub fn tail_start(len: usize, max_rows: usize) -> (r: usize)
    ensures
        len > max_rows ==> r == len - max_rows,
        len <= max_rows ==> r == 0,
{
    if len > max_rows {
        len - max_rows
    } else {
        0
    }
}

/// The line as displayed in a width-limited row: unchanged when it
/// fits, otherwise cut to the first `max_chars` characters.
pub fn truncate_chars(line: &str, max_chars: usize) -> (r: String)
    ensures
        line@.len() <= max_chars ==> r@ == line@,
        line@.len() > max_chars ==> r@ == line@.take(max_chars as int),
{
    let n = line.unicode_len();
    if n <= max_chars {
        String::from_str(line)
    } else {
        let v = crate::text::chars_of(line);
        let mut out: Vec<char> = Vec::new();
        let mut i: usize = 0;
        while i < max_chars
            invariant
                max_chars <= v@.len(),
                v@ == line@,
                i <= max_chars,
                out@ == line@.take(i as int),
            decreases max_chars - i,
        {
            out.push(v[i]);
            proof {
                assert(out@ =~= line@.take(i as int + 1));
            }
            i += 1;
        }
        crate::text::string_of(&out)
    }
}

/// One line of the list view: a caret on the current exercise, a
/// completion glyph, the one-based number (width two), and the
/// display path.
pub fn list_entry_line(
    index: usize,
    is_current: bool,
    is_completed: bool,
    display_path: &str,
) -> (r: String)
    requires
        index < usize::MAX,
    ensures
        r@ == (if is_current {
            "\u{2192} "@
        } else {
            "  "@
        }) + (if is_completed {
            "\u{2705}"@
        } else {
            "\u{2b1c}"@
        }) + " "@ + (if index + 1 < 10 {
            " "@ + spec_dec((index + 1) as nat)
        } else {
            spec_dec((index + 1) as nat)
        }) + ". "@ + display_path@,
{
    let mut r = if is_current {
        String::from_str("\u{2192} ")
    } else {
        String::from_str("  ")
    };
    if is_completed {
        r.append("\u{2705}");
    } else {
        r.append("\u{2b1c}");
    }
    r.append(" ");
    if index + 1 < 10 {
        r.append(" ");
    }
    let num = dec_string((index as u64) + 1);
    r.append(num.as_str());
    r.append(". ");
    r.append(display_path);
    r
}

} // verus!
