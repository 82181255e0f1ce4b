//! An interactive, terminal-hosted tutor for a pack of ordered exercises.
//!
//! This crate is the verified core: the exercise catalog, the progress
//! record with its on-disk codec, the debouncer, the verification result
//! construction, and the event-loop state machine.  All I/O (terminal,
//! file system, subprocesses, the file watcher) lives in the surrounding
//! binary, which feeds plain values into these functions.

pub mod app_state;
pub mod codec;
pub mod exercise;
pub mod hints;
pub mod progress;
pub mod term;
pub mod text;
pub mod tick;
pub mod verify;
pub mod watch;
