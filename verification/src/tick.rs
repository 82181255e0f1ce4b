//! The application loop's state machine.
//!
//! The loop itself — channels, rendering, the keyboard poll — runs
//! outside the library.  Each tick it hands the messages it drained,
//! the clock, and the chosen action to these functions, which are the
//! sole mutators of the loop state.  Every transition says exactly
//! what changed; requests to the outside (a run to send, a file to
//! write, a view to paint) come back as values.

use vstd::prelude::*;
use crate::app_state::AppState;
use crate::codec::{sp_progress, progress_view};
use crate::exercise::Exercise;
use crate::hints::record_hint_used;
use crate::progress::{spec_mark, spec_completed_contains, spec_hint_count};
use crate::text::str_eq;
use crate::verify::{OutputLine, VerifyResult};
use crate::watch::{Debouncer, WatchEvent};

verus! {

/// The most recent output lines kept for display.
pub const OUTPUT_RING_CAP: usize = 100;

/// Message to the verification worker.
pub enum VerifyRequest {
    /// Run one verification.
    Run(Exercise),
    /// Terminate the worker.
    Stop,
}

/// Message from the verification worker.
pub enum VerifyMessage {
    /// A streamed output line.
    Output(OutputLine),
    /// The one result terminating a run.
    Result(VerifyResult),
}

/// The loop's whole mutable state: the application state plus the
/// output ring and the deferred-trigger flag.  The ghost field counts
/// runs sent whose results have not yet been applied.
pub struct LoopState {
    pub app: AppState,
    /// Bounded ring of recent output lines, oldest first.
    pub output_ring: Vec<String>,
    /// Whether a file change is waiting for the debouncer.
    pub pending_verify: bool,
    /// Runs sent minus results applied.
    pub outstanding: Ghost<int>,
}

/// The loop invariant: the application state is well formed, the ring
/// never exceeds its cap, and `verifying` holds exactly when one sent
/// run's result has not yet been applied.
pub open spec fn loop_wf(s: LoopState) -> bool {
    &&& s.app.wf()
    &&& s.output_ring@.len() <= OUTPUT_RING_CAP
    &&& s.outstanding@ == (if s.app.verifying {
        1int
    } else {
        0int
    })
}

/// `verifying` is true iff exactly one run has been sent whose result
/// has not yet been applied.
pub proof fn lemma_verifying_iff_outstanding(s: LoopState)
    requires
        loop_wf(s),
    ensures
        s.app.verifying <==> s.outstanding@ == 1,
{
}

/// The output ring never exceeds its cap.
pub proof fn lemma_ring_capped(s: LoopState)
    requires
        loop_wf(s),
    ensures
        s.output_ring@.len() <= OUTPUT_RING_CAP,
{
}

impl LoopState {
    /// A fresh loop around a freshly loaded application state.
    pub fn new(app: AppState) -> (s: LoopState)
        requires
            app.wf(),
            !app.verifying,
        ensures
            loop_wf(s),
            s.app == app,
            s.output_ring@.len() == 0,
            !s.pending_verify,
    {
        LoopState { app, output_ring: Vec::new(), pending_verify: false, outstanding: Ghost(0) }
    }

    /// The current exercise's name.
    pub open spec fn spec_current_name(&self) -> Seq<char> {
        self.app.exercises@[self.app.current_index as int].name@
    }

    /// The current exercise's editable path.
    pub open spec fn spec_current_path(&self) -> Seq<char> {
        self.app.exercises@[self.app.current_index as int].path@
    }
}

/// Pushes a line into the output ring, evicting the oldest line once
/// the ring is full.
pub fn push_output(s: &mut LoopState, line: String)
    requires
        loop_wf(*old(s)),
    ensures
        loop_wf(*final(s)),
        old(s).output_ring@.len() < OUTPUT_RING_CAP ==> final(s).output_ring@ == old(
            s,
        ).output_ring@.push(line),
        old(s).output_ring@.len() >= OUTPUT_RING_CAP ==> final(s).output_ring@ == old(
            s,
        ).output_ring@.push(line).drop_first(),
        final(s).output_ring@.len() <= OUTPUT_RING_CAP,
        final(s).app == old(s).app,
        final(s).pending_verify == old(s).pending_verify,
        final(s).outstanding == old(s).outstanding,
{
    s.output_ring.push(line);
    if s.output_ring.len() > OUTPUT_RING_CAP {
        s.output_ring.remove(0);
        proof {
            assert(s.output_ring@ =~= old(s).output_ring@.push(line).drop_first());
        }
    }
}

/// Applies one worker message.
///
/// Output lines go into the ring; the end-of-run marker changes
/// nothing (completion is carried by the result).  A result is applied
/// only when its exercise name matches the current exercise: a passing
/// one marks the exercise completed and asks for a save, any matching
/// one is stored and clears `verifying`.  A stale result — one whose
/// name no longer matches — changes nothing at all.
///
/// When a save is requested, the returned text is the stamped record's
/// rendering, and parsing it gives that record back.
pub fn handle_verify_message(s: &mut LoopState, msg: VerifyMessage, now_secs: u64) -> (save:
    Option<String>)
    requires
        loop_wf(*old(s)),
    ensures
        loop_wf(*final(s)),
        final(s).app.exercises == old(s).app.exercises,
        final(s).app.current_index == old(s).app.current_index,
        final(s).pending_verify == old(s).pending_verify,
        match msg {
            VerifyMessage::Output(line) => {
                &&& final(s).app == old(s).app
                &&& save is None
                &&& (match line {
                    OutputLine::Stdout(l) | OutputLine::Stderr(l) => {
                        &&& (old(s).output_ring@.len() < OUTPUT_RING_CAP ==> final(s).output_ring@
                            == old(s).output_ring@.push(l))
                        &&& (old(s).output_ring@.len() >= OUTPUT_RING_CAP ==> final(s).output_ring@
                            == old(s).output_ring@.push(l).drop_first())
                    },
                    OutputLine::Done(_) => *final(s) == *old(s),
                })
            },
            VerifyMessage::Result(r) => {
                if r.exercise_name@ == old(s).spec_current_name() {
                    &&& final(s).output_ring == old(s).output_ring
                    &&& final(s).app.last_verify == Some(r)
                    &&& !final(s).app.verifying
                    &&& final(s).outstanding@ == 0
                    &&& (if r.outcome is Passed {
                        &&& final(s).app.progress.completed.deep_view() == spec_mark(
                            old(s).app.progress.completed.deep_view(),
                            r.exercise_name@,
                        )
                        &&& spec_completed_contains(
                            final(s).app.progress.completed.deep_view(),
                            r.exercise_name@,
                        )
                        &&& (save matches Some(content) && sp_progress(content@) == Some(
                            progress_view(final(s).app.progress),
                        ))
                    } else {
                        &&& final(s).app.progress == old(s).app.progress
                        &&& save is None
                    })
                } else {
                    &&& *final(s) == *old(s)
                    &&& save is None
                }
            },
        },
{
    match msg {
        VerifyMessage::Output(line) => {
            match line {
                OutputLine::Stdout(l) => {
                    push_output(s, l);
                    None
                },
                OutputLine::Stderr(l) => {
                    push_output(s, l);
                    None
                },
                OutputLine::Done(_) => None,
            }
        },
        VerifyMessage::Result(r) => {
            let matches_current = str_eq(
                r.exercise_name.as_str(),
                s.app.exercises[s.app.current_index].name.as_str(),
            );
            if matches_current {
                let mut save: Option<String> = None;
                if r.passed() {
                    s.app.mark_completed(r.exercise_name.as_str());
                    let content = s.app.save_progress(now_secs);
                    proof {
                        crate::codec::lemma_progress_round_trip(
                            s.app.progress.version,
                            s.app.progress.completed.deep_view(),
                            crate::codec::opt_view(s.app.progress.current),
                            crate::codec::hints_view(s.app.progress.hints_used@),
                            crate::codec::opt_view(s.app.progress.started_at),
                            crate::codec::opt_view(s.app.progress.last_activity),
                        );
                    }
                    save = Some(content);
                }
                s.app.last_verify = Some(r);
                s.app.verifying = false;
                proof {
                    s.outstanding@ = 0int;
                }
                save
            } else {
                None
            }
        },
    }
}

/// Applies one watcher event: a change to the current exercise's own
/// file defers the trigger and marks a verification as pending; any
/// other event changes nothing.
pub fn handle_watch_event(
    s: &mut LoopState,
    debouncer: &mut Debouncer,
    event: &WatchEvent,
    now_ms: u64,
)
    requires
        loop_wf(*old(s)),
    ensures
        loop_wf(*final(s)),
        match event {
            WatchEvent::FileChanged(p) => {
                if p@ == old(s).spec_current_path() {
                    &&& final(s).pending_verify
                    &&& final(s).app == old(s).app
                    &&& final(s).output_ring == old(s).output_ring
                    &&& final(s).outstanding == old(s).outstanding
                    &&& final(debouncer).last_event() == Some(now_ms)
                    &&& final(debouncer).delta() == old(debouncer).delta()
                } else {
                    *final(s) == *old(s) && *final(debouncer) == *old(debouncer)
                }
            },
            WatchEvent::Error(_) => *final(s) == *old(s) && *final(debouncer) == *old(debouncer),
        },
{
    match event {
        WatchEvent::FileChanged(p) => {
            if str_eq(p.as_str(), s.app.exercises[s.app.current_index].path.as_str()) {
                debouncer.observe(now_ms);
                s.pending_verify = true;
            }
        },
        WatchEvent::Error(_) => {},
    }
}

/// Whether the deferred trigger fires now: a verification is pending,
/// the quiet period has elapsed, and no run is outstanding.
pub open spec fn spec_trigger_fires(s: LoopState, debouncer: Debouncer, now_ms: u64) -> bool {
    s.pending_verify && debouncer.spec_ready(now_ms) && !s.app.verifying
}

/// Fires the deferred trigger when it is due: marks a run outstanding,
/// clears the last result and the ring, resets the debouncer, and
/// returns the run request to send.  When the trigger is not due,
/// nothing changes and nothing is sent.
pub fn try_trigger(s: &mut LoopState, debouncer: &mut Debouncer, now_ms: u64) -> (run: Option<
    Exercise,
>)
    requires
        loop_wf(*old(s)),
    ensures
        loop_wf(*final(s)),
        spec_trigger_fires(*old(s), *old(debouncer), now_ms) ==> {
            &&& run == Some(old(s).app.exercises@[old(s).app.current_index as int])
            &&& final(s).app.verifying
            &&& final(s).outstanding@ == 1
            &&& final(s).app.last_verify is None
            &&& final(s).output_ring@.len() == 0
            &&& !final(s).pending_verify
            &&& final(debouncer).last_event() is None
            &&& final(debouncer).delta() == old(debouncer).delta()
            &&& final(s).app.current_index == old(s).app.current_index
            &&& final(s).app.exercises == old(s).app.exercises
            &&& final(s).app.progress == old(s).app.progress
        },
        !spec_trigger_fires(*old(s), *old(debouncer), now_ms) ==> {
            &&& run is None
            &&& *final(s) == *old(s)
            &&& *final(debouncer) == *old(debouncer)
        },
{
    if s.pending_verify && debouncer.ready_to_trigger(now_ms) && !s.app.verifying {
        s.app.verifying = true;
        s.app.last_verify = None;
        s.output_ring.clear();
        let exercise = s.app.exercises[s.app.current_index].clone();
        s.pending_verify = false;
        debouncer.reset();
        proof {
            s.outstanding@ = 1int;
        }
        Some(exercise)
    } else {
        None
    }
}

/// Once a trigger has fired, `pending_verify` is clear, and a clear
/// flag keeps every later trigger from firing: a burst of file events
/// within one quiet period yields exactly one run, until a new event
/// marks a verification pending again.
pub proof fn lemma_burst_single_run(s: LoopState, debouncer: Debouncer, now_ms: u64)
    requires
        !s.pending_verify,
    ensures
        !spec_trigger_fires(s, debouncer, now_ms),
{
}

/// What the loop asks of the outside after applying an action.
pub enum ActionEffect {
    /// Leave the session.
    Quit,
    /// Write this text to the progress file, atomically.
    Save(String),
    /// Show this hint, then write this text to the progress file.
    HintModal { text: String, save: String },
    /// Tell the learner there is no hint for this exercise.
    NoHintModal,
    /// Show the list view and wait for dismissal.
    ShowList,
    /// Show the solution file of this path in a modal.
    ShowSolution(String),
    /// Open this path in the platform's editor.
    OpenEditor(String),
    /// Send this run request to the worker.
    SendRun(Exercise),
    /// Nothing to do.
    Idle,
}

/// Applies one keyboard action to the loop state and says what the
/// outside must now do.
///
/// Next and Prev move the pointer (clamped), clear the ring and the
/// last result, and ask for a save.  Hint counts the request and asks
/// for a save alongside the modal when the exercise has a hint.
/// Rerun behaves like a fired trigger, but only when no run is
/// outstanding.  List, Solution and Open only ask for their views;
/// Quit only asks to leave; Continue and a no-op change nothing.
#[verifier::rlimit(30)]
pub fn apply_action(s: &mut LoopState, action: crate::term::Action, now_secs: u64) -> (effect:
    ActionEffect)
    requires
        loop_wf(*old(s)),
    ensures
        loop_wf(*final(s)),
        final(s).app.exercises == old(s).app.exercises,
        match action {
            crate::term::Action::Quit => *final(s) == *old(s) && effect is Quit,
            crate::term::Action::Hint => {
                &&& final(s).app.current_index == old(s).app.current_index
                &&& final(s).app.verifying == old(s).app.verifying
                &&& final(s).output_ring == old(s).output_ring
                &&& final(s).pending_verify == old(s).pending_verify
                &&& (match old(s).app.exercises@[old(s).app.current_index as int].hint {
                    Some(h) => {
                        &&& (effect matches ActionEffect::HintModal { text, save } && text@ == h@
                            && sp_progress(save@) == Some(progress_view(final(s).app.progress)))
                        &&& spec_hint_count(
                            final(s).app.progress.hints_used@,
                            old(s).spec_current_name(),
                        ) == (if spec_hint_count(
                            old(s).app.progress.hints_used@,
                            old(s).spec_current_name(),
                        ) < u32::MAX {
                            spec_hint_count(
                                old(s).app.progress.hints_used@,
                                old(s).spec_current_name(),
                            ) + 1
                        } else {
                            u32::MAX as int
                        })
                    },
                    None => *final(s) == *old(s) && effect is NoHintModal,
                })
            },
            crate::term::Action::Next => {
                &&& final(s).app.current_index as int == (if (old(s).app.current_index as int) < old(
                    s,
                ).app.exercises@.len() - 1 {
                    old(s).app.current_index + 1
                } else {
                    old(s).app.current_index as int
                })
                &&& final(s).app.last_verify is None
                &&& final(s).output_ring@.len() == 0
                &&& final(s).app.verifying == old(s).app.verifying
                &&& final(s).pending_verify == old(s).pending_verify
                &&& final(s).app.progress.completed == old(s).app.progress.completed
                &&& final(s).app.progress.hints_used == old(s).app.progress.hints_used
                &&& (effect matches ActionEffect::Save(content) && sp_progress(content@) == Some(
                    progress_view(final(s).app.progress),
                ))
            },
            crate::term::Action::Prev => {
                &&& final(s).app.current_index as int == (if old(s).app.current_index > 0 {
                    old(s).app.current_index - 1
                } else {
                    0int
                })
                &&& final(s).app.last_verify is None
                &&& final(s).output_ring@.len() == 0
                &&& final(s).app.verifying == old(s).app.verifying
                &&& final(s).pending_verify == old(s).pending_verify
                &&& final(s).app.progress.completed == old(s).app.progress.completed
                &&& final(s).app.progress.hints_used == old(s).app.progress.hints_used
                &&& (effect matches ActionEffect::Save(content) && sp_progress(content@) == Some(
                    progress_view(final(s).app.progress),
                ))
            },
            crate::term::Action::List => *final(s) == *old(s) && effect is ShowList,
            crate::term::Action::Rerun => {
                if old(s).app.verifying {
                    *final(s) == *old(s) && effect is Idle
                } else {
                    &&& (effect matches ActionEffect::SendRun(e) && e == old(
                        s,
                    ).app.exercises@[old(s).app.current_index as int])
                    &&& final(s).app.verifying
                    &&& final(s).outstanding@ == 1
                    &&& final(s).app.last_verify is None
                    &&& final(s).output_ring@.len() == 0
                    &&& final(s).pending_verify == old(s).pending_verify
                    &&& final(s).app.current_index == old(s).app.current_index
                    &&& final(s).app.progress == old(s).app.progress
                }
            },
            crate::term::Action::Solution => *final(s) == *old(s) && (effect matches
                ActionEffect::ShowSolution(p) && p@ == old(s).app.exercises@[old(
                s,
            ).app.current_index as int].solution_path@),
            crate::term::Action::Open => *final(s) == *old(s) && (effect matches
                ActionEffect::OpenEditor(p) && p@ == old(s).spec_current_path()),
            crate::term::Action::Continue => *final(s) == *old(s) && effect is Idle,
            crate::term::Action::NoOp => *final(s) == *old(s) && effect is Idle,
        },
{
    match action {
        crate::term::Action::Quit => ActionEffect::Quit,
        crate::term::Action::Hint => {
            let exercise_name = s.app.exercises[s.app.current_index].name.clone();
            let hint = match &s.app.exercises[s.app.current_index].hint {
                Some(h) => Some(h.clone()),
                None => None,
            };
            match hint {
                Some(hint_text) => {
                    record_hint_used(&mut s.app.progress, exercise_name.as_str());
                    let content = s.app.save_progress(now_secs);
                    proof {
                        crate::codec::lemma_progress_round_trip(
                            s.app.progress.version,
                            s.app.progress.completed.deep_view(),
                            crate::codec::opt_view(s.app.progress.current),
                            crate::codec::hints_view(s.app.progress.hints_used@),
                            crate::codec::opt_view(s.app.progress.started_at),
                            crate::codec::opt_view(s.app.progress.last_activity),
                        );
                    }
                    ActionEffect::HintModal { text: hint_text, save: content }
                },
                None => ActionEffect::NoHintModal,
            }
        },
        crate::term::Action::Next => {
            s.app.next();
            let content = s.app.save_progress(now_secs);
            proof {
                crate::codec::lemma_progress_round_trip(
                    s.app.progress.version,
                    s.app.progress.completed.deep_view(),
                    crate::codec::opt_view(s.app.progress.current),
                    crate::codec::hints_view(s.app.progress.hints_used@),
                    crate::codec::opt_view(s.app.progress.started_at),
                    crate::codec::opt_view(s.app.progress.last_activity),
                );
            }
            s.output_ring.clear();
            s.app.last_verify = None;
            ActionEffect::Save(content)
        },
        crate::term::Action::Prev => {
            s.app.prev();
            let content = s.app.save_progress(now_secs);
            proof {
                crate::codec::lemma_progress_round_trip(
                    s.app.progress.version,
                    s.app.progress.completed.deep_view(),
                    crate::codec::opt_view(s.app.progress.current),
                    crate::codec::hints_view(s.app.progress.hints_used@),
                    crate::codec::opt_view(s.app.progress.started_at),
                    crate::codec::opt_view(s.app.progress.last_activity),
                );
            }
            s.output_ring.clear();
            s.app.last_verify = None;
            ActionEffect::Save(content)
        },
        crate::term::Action::List => ActionEffect::ShowList,
        crate::term::Action::Rerun => {
            if !s.app.verifying {
                s.app.verifying = true;
                s.app.last_verify = None;
                s.output_ring.clear();
                let exercise = s.app.exercises[s.app.current_index].clone();
                proof {
                    s.outstanding@ = 1int;
                }
                ActionEffect::SendRun(exercise)
            } else {
                ActionEffect::Idle
            }
        },
        crate::term::Action::Solution => {
            let path = s.app.exercises[s.app.current_index].solution_path.clone();
            ActionEffect::ShowSolution(path)
        },
        crate::term::Action::Open => {
            let path = s.app.exercises[s.app.current_index].path.clone();
            ActionEffect::OpenEditor(path)
        },
        crate::term::Action::Continue => ActionEffect::Idle,
        crate::term::Action::NoOp => ActionEffect::Idle,
    }
}

} // verus!
