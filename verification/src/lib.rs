//! Supervisor for a locally spawned game-server process.
//!
//! The library models the supervisor as a pure state machine: every
//! decision (start, stop, stats, log-line classification, orphan
//! matching) is a verified function from plain values to plain values.
//! The surrounding application performs the actual OS work (spawning,
//! killing, reading streams, scanning the process table) and feeds the
//! observations back into these functions.

pub mod config;
pub mod laws;
pub mod monitor;
pub mod players;
pub mod properties;
pub mod scanner;
pub mod supervisor;
pub mod text;
pub mod worlds;

use vstd::prelude::*;

verus! {

/// The lifecycle of the managed server process.
#[derive(Clone, Copy, Debug, PartialEq, Eq, Structural)]
pub enum ServerStatus {
    Offline,
    Starting,
    Running,
    Stopping,
}

} // verus!
