//! The log monitor: classification of the managed process's output
//! lines, and the shared-state updates each line causes.
//!
//! The monitor itself holds only the local "started" flag; everything
//! externally visible lives in the shared supervisor state.  The
//! caller runs the blocking read loop, hands each line in here, and
//! forwards the returned effects to its event sink; every line is
//! also forwarded verbatim as a log-line event, independent of its
//! classification.

use vstd::prelude::*;
use vstd::string::StringSliceAdditionalSpecFns;
use crate::ServerStatus;
use crate::supervisor::{SupervisorState, wf};
use crate::text::{contains_seq, contains_subslice};

verus! {

/// Startup-completion marker: the server-ready banner.
pub open spec fn done_marker() -> Seq<u8> {
    "Done".spec_bytes()
}

/// Startup-completion marker: the interactive-help banner.
pub open spec fn help_marker() -> Seq<u8> {
    "For help, type \"help\"".spec_bytes()
}

/// Marker of a player joining.
pub open spec fn join_marker() -> Seq<u8> {
    "joined the game".spec_bytes()
}

/// Marker of a player leaving.
pub open spec fn leave_marker() -> Seq<u8> {
    "left the game".spec_bytes()
}

/// The line announces that startup completed.
pub open spec fn is_startup_line(l: Seq<u8>) -> bool {
    contains_seq(l, done_marker()) || contains_seq(l, help_marker())
}

/// The line announces a player joining.
pub open spec fn is_join_line(l: Seq<u8>) -> bool {
    contains_seq(l, join_marker())
}

/// The line announces a player leaving.  Join takes precedence: a
/// line carrying both markers counts as a join.
pub open spec fn is_leave_line(l: Seq<u8>) -> bool {
    contains_seq(l, leave_marker())
}

/// The monitor's "started" flag after a line: set once a startup
/// line has been seen, and never cleared.
pub open spec fn started_after(started: bool, l: Seq<u8>) -> bool {
    started || is_startup_line(l)
}

/// The player count after a line: a join increments (saturating at
/// the counter's ceiling), otherwise a leave decrements but never
/// below zero, otherwise the count is unchanged.
pub open spec fn count_after_line(pc: i32, l: Seq<u8>) -> i32 {
    if is_join_line(l) {
        if pc < i32::MAX {
            (pc + 1) as i32
        } else {
            pc
        }
    } else if is_leave_line(l) {
        if pc > 0 {
            (pc - 1) as i32
        } else {
            pc
        }
    } else {
        pc
    }
}

/// The shared state after the monitor observed a line: the first
/// startup line moves Starting to Running; joins and leaves move the
/// player count; nothing else changes.
pub open spec fn line_next(s: SupervisorState, started: bool, l: Seq<u8>) -> SupervisorState {
    SupervisorState {
        status: if !started && is_startup_line(l) {
            ServerStatus::Running
        } else {
            s.status
        },
        player_count: count_after_line(s.player_count, l),
        ..s
    }
}

/// The shared state after the output stream ended: the process is
/// gone, so the status is Offline whatever it was.
pub open spec fn stream_end_next(s: SupervisorState) -> SupervisorState {
    SupervisorState { status: ServerStatus::Offline, ..s }
}

/// The notifications one observed line asks the caller to emit,
/// beyond the verbatim log-line event.
#[derive(Debug, Clone, Copy, PartialEq, Eq)]
pub struct LineEffects {
    /// A status change to announce, if the line caused one.
    pub status_update: Option<ServerStatus>,
    /// The new player count to announce, if the line was a join or a
    /// leave.
    pub player_update: Option<i32>,
}

/// The monitor bound to one process's output stream.
pub struct LogMonitor {
    /// Whether the startup-completion marker has been seen already;
    /// remembered so that later lines carrying the same marker cause
    /// no further transition.
    pub started: bool,
}

impl LogMonitor {
    /// A monitor for a freshly spawned process.
    pub fn new() -> (r: Self)
        ensures
            !r.started,
    {
        LogMonitor { started: false }
    }

    /// Observe one output line: classify it and update the shared
    /// state.  Returns the notifications to emit.
    pub fn observe_line(&mut self, sup: &mut SupervisorState, line: &[u8]) -> (fx: LineEffects)
        ensures
            wf(*old(sup)) ==> wf(*final(sup)),
            final(self).started == started_after(old(self).started, line@),
            *final(sup) == line_next(*old(sup), old(self).started, line@),
            fx.status_update == (if !old(self).started && is_startup_line(line@) {
                Some(ServerStatus::Running)
            } else {
                None::<ServerStatus>
            }),
            fx.player_update == (if is_join_line(line@) || is_leave_line(line@) {
                Some(final(sup).player_count)
            } else {
                None::<i32>
            }),
    {
        let mut status_update: Option<ServerStatus> = None;
        if !self.started && (contains_subslice(line, "Done".as_bytes()) || contains_subslice(
            line,
            "For help, type \"help\"".as_bytes(),
        )) {
            self.started = true;
            sup.status = ServerStatus::Running;
            status_update = Some(ServerStatus::Running);
        }
        let mut player_update: Option<i32> = None;
        if contains_subslice(line, "joined the game".as_bytes()) {
            if sup.player_count < i32::MAX {
                sup.player_count = sup.player_count + 1;
            }
            player_update = Some(sup.player_count);
        } else if contains_subslice(line, "left the game".as_bytes()) {
            if sup.player_count > 0 {
                sup.player_count = sup.player_count - 1;
            }
            player_update = Some(sup.player_count);
        }
        LineEffects { status_update, player_update }
    }

    /// Observe the end of the output stream: the single authoritative
    /// place where a self-terminating or crashed process is detected.
    /// The caller should announce the returned status.
    pub fn observe_end(&self, sup: &mut SupervisorState) -> (r: ServerStatus)
        ensures
            *final(sup) == stream_end_next(*old(sup)),
            r == ServerStatus::Offline,
    {
        sup.status = ServerStatus::Offline;
        ServerStatus::Offline
    }
}

} // verus!
