//! The supervisor state machine.
//!
//! All decisions the supervisor takes — whether a start is allowed,
//! what to do on stop, which process a stats query should sample —
//! are pure functions of the state and of the observations the caller
//! feeds in (the orphan-scan result, whether the owned process has
//! exited).  The caller performs the OS work the returned plans and
//! actions describe, and reports the outcome back.

use vstd::prelude::*;
use vstd::string::StringExecFns;
use crate::ServerStatus;
use crate::config::{LaunchPlan, ServerConfig, launch_plan, plan_for};

verus! {

/// Typed failures surfaced to the caller.
#[derive(Debug, Clone, PartialEq, Eq)]
pub enum ServerError {
    /// An operation needed the configuration and none was set.
    ConfigurationMissing,
    /// A start was requested while an owned handle exists.
    AlreadyRunning,
    /// A start was requested while a matching process already runs;
    /// carries that process's id.
    ProcessAlreadyRunning(u32),
    /// The operating system failed to spawn the process.
    LaunchFailed(String),
    /// A stream read or write failed.
    Io(String),
    /// A command was sent while no owned process exists.
    NoOwnedProcess,
}

/// What a stop has to do next: kill the owned process, or scan the
/// process table for an orphan matching the configured path.
#[derive(Debug, Clone, PartialEq, Eq)]
pub enum StopAction {
    KillOwned(u32),
    ScanOrphan(String),
}

/// An instantaneous snapshot answering a stats query.
#[derive(Debug, Clone, Copy, PartialEq, Eq, Structural)]
pub struct ServerStats {
    /// CPU utilization of the sampled process, in hundredths of a
    /// percent.
    pub cpu_centi: u64,
    /// Memory usage of the sampled process, in bytes.
    pub memory: u64,
    /// The lifecycle status reported with the snapshot.
    pub status: ServerStatus,
    /// The player count at the time of the query.
    pub player_count: i32,
}

/// The supervisor's entire mutable state: the configuration, the
/// owned process handle (as its id), the lifecycle status, and the
/// shared player counter.
pub struct SupervisorState {
    /// Launch descriptor, set by the caller before the first start.
    pub config: Option<ServerConfig>,
    /// Id of the process this supervisor spawned, while one is owned.
    pub owned_pid: Option<u32>,
    /// Current lifecycle status.
    pub status: ServerStatus,
    /// Number of players currently joined; never negative.
    pub player_count: i32,
}

/// The state invariant: the player counter never goes below zero.
pub open spec fn wf(s: SupervisorState) -> bool {
    s.player_count >= 0
}

/// Whether a start may proceed, and the error when it may not:
/// the configuration must be present, no matching process may already
/// run, and no handle may already be owned — in that order.
pub open spec fn start_verdict(s: SupervisorState, orphan: Option<u32>) -> Result<
    (),
    ServerError,
> {
    if s.config is None {
        Err(ServerError::ConfigurationMissing)
    } else {
        match orphan {
            Some(pid) => Err(ServerError::ProcessAlreadyRunning(pid)),
            None => if s.owned_pid is Some {
                Err(ServerError::AlreadyRunning)
            } else {
                Ok(())
            },
        }
    }
}

/// State after a start request: Starting when the start proceeds,
/// unchanged when it was refused.
pub open spec fn start_next(s: SupervisorState, orphan: Option<u32>) -> SupervisorState {
    if start_verdict(s, orphan) is Ok {
        SupervisorState { status: ServerStatus::Starting, ..s }
    } else {
        s
    }
}

/// State after the spawn succeeded: the new process is owned; the
/// status stays Starting until the log monitor sees the ready banner.
pub open spec fn spawn_ok_next(s: SupervisorState, pid: u32) -> SupervisorState {
    SupervisorState { owned_pid: Some(pid), ..s }
}

/// State after the spawn failed: back to Offline, nothing owned.
pub open spec fn spawn_failed_next(s: SupervisorState) -> SupervisorState {
    SupervisorState { status: ServerStatus::Offline, ..s }
}

/// State after a stop began: Stopping, and the owned handle (if any)
/// has been surrendered to the caller for the kill.  The one failing
/// case — no handle and no configuration to scan with — ends at
/// Offline at once, so a stop never strands the status at Stopping.
pub open spec fn stop_begin_next(s: SupervisorState) -> SupervisorState {
    if s.owned_pid is None && s.config is None {
        SupervisorState { status: ServerStatus::Offline, owned_pid: None, ..s }
    } else {
        SupervisorState { status: ServerStatus::Stopping, owned_pid: None, ..s }
    }
}

/// State after a stop finished: Offline.
pub open spec fn stop_finish_next(s: SupervisorState) -> SupervisorState {
    SupervisorState { status: ServerStatus::Offline, ..s }
}

/// The result a stop reports on the orphan path: something was
/// stopped only when a matching process was found and its termination
/// was confirmed within the bounded retry window — a process that was
/// found but still exists when the retry budget runs out was not
/// stopped.
pub fn orphan_stop_result(found: bool, confirmed: bool) -> (r: bool)
    ensures
        r == (found && confirmed),
{
    found && confirmed
}

/// State after a stats query checked the owned process: the handle is
/// dropped exactly when the process was observed to have exited.
pub open spec fn stats_check_next(s: SupervisorState, owned_exited: bool) -> SupervisorState {
    if s.owned_pid is Some && owned_exited {
        SupervisorState { owned_pid: None, ..s }
    } else {
        s
    }
}

/// Snapshot for a live owned process: the sample, the status and the
/// count as they stand.
pub open spec fn stats_owned_snapshot(s: SupervisorState, cpu_centi: u64, memory: u64) -> ServerStats {
    ServerStats { cpu_centi, memory, status: s.status, player_count: s.player_count }
}

/// Snapshot for a live orphaned process: as for an owned one, except
/// that a stale Offline status is coerced to Running, since a live
/// matching process was found.
pub open spec fn stats_orphan_snapshot(s: SupervisorState, cpu_centi: u64, memory: u64) -> ServerStats {
    ServerStats {
        cpu_centi,
        memory,
        status: if s.status == ServerStatus::Offline {
            ServerStatus::Running
        } else {
            s.status
        },
        player_count: s.player_count,
    }
}

/// Snapshot when no process exists: zeroed samples, Offline, and the
/// last known player count.
pub open spec fn stats_empty_snapshot(s: SupervisorState) -> ServerStats {
    ServerStats {
        cpu_centi: 0,
        memory: 0,
        status: ServerStatus::Offline,
        player_count: s.player_count,
    }
}

impl SupervisorState {
    /// A fresh supervisor: Offline, unconfigured, owning nothing,
    /// with zero players.
    pub fn new() -> (r: Self)
        ensures
            r.config is None,
            r.owned_pid is None,
            r.status == ServerStatus::Offline,
            r.player_count == 0,
            wf(r),
    {
        SupervisorState {
            config: None,
            owned_pid: None,
            status: ServerStatus::Offline,
            player_count: 0,
        }
    }

    /// Replace the configuration.
    pub fn set_config(&mut self, c: ServerConfig)
        ensures
            final(self).config == Some(c),
            final(self).owned_pid == old(self).owned_pid,
            final(self).status == old(self).status,
            final(self).player_count == old(self).player_count,
    {
        self.config = Some(c);
    }

    /// The configured server root, for the caller's process-table
    /// scans; None while unconfigured.
    pub fn config_path(&self) -> (r: Option<String>)
        ensures
            match r {
                Some(p) => self.config is Some && p@ == self.config->0.path@,
                None => self.config is None,
            },
    {
        match &self.config {
            Some(c) => Some(c.path.clone()),
            None => None,
        }
    }

    /// Begin a start.  `orphan` is the caller's process-table scan
    /// result for the configured path.  On success the state moves to
    /// Starting and the returned plan describes the spawn; on refusal
    /// the state is unchanged and the error says why.
    pub fn start_begin(&mut self, orphan: Option<u32>) -> (r: Result<LaunchPlan, ServerError>)
        ensures
            *final(self) == start_next(*old(self), orphan),
            match r {
                Ok(plan) => start_verdict(*old(self), orphan) == Ok::<(), ServerError>(())
                    && old(self).config is Some && plan_for(plan, old(self).config->0),
                Err(e) => start_verdict(*old(self), orphan) == Err::<(), ServerError>(e),
            },
    {
        match &self.config {
            None => Err(ServerError::ConfigurationMissing),
            Some(c) => match orphan {
                Some(pid) => Err(ServerError::ProcessAlreadyRunning(pid)),
                None => {
                    if self.owned_pid.is_some() {
                        Err(ServerError::AlreadyRunning)
                    } else {
                        let plan = launch_plan(c);
                        self.status = ServerStatus::Starting;
                        Ok(plan)
                    }
                },
            },
        }
    }

    /// Record a successful spawn: the new process becomes the owned
    /// one; the status stays Starting.
    pub fn start_spawn_ok(&mut self, pid: u32)
        requires
            old(self).status == ServerStatus::Starting,
            old(self).owned_pid is None,
        ensures
            *final(self) == spawn_ok_next(*old(self), pid),
    {
        self.owned_pid = Some(pid);
    }

    /// Record a failed spawn: back to Offline, so a failed launch
    /// never leaves the supervisor stuck in Starting.
    pub fn start_spawn_failed(&mut self)
        requires
            old(self).status == ServerStatus::Starting,
        ensures
            *final(self) == spawn_failed_next(*old(self)),
    {
        self.status = ServerStatus::Offline;
    }

    /// Begin a stop.  The status becomes Stopping, and the result
    /// tells the caller what to do: kill the surrendered owned
    /// process, or scan for an orphan under the configured path.
    /// Only the orphan path with no configuration fails, and then the
    /// status falls back to Offline so the failure cannot strand the
    /// supervisor in Stopping.
    pub fn stop_begin(&mut self) -> (r: Result<StopAction, ServerError>)
        ensures
            *final(self) == stop_begin_next(*old(self)),
            match r {
                Ok(StopAction::KillOwned(p)) => old(self).owned_pid == Some(p),
                Ok(StopAction::ScanOrphan(path)) => old(self).owned_pid is None && old(
                    self,
                ).config is Some && path@ == old(self).config->0.path@,
                Err(e) => e == ServerError::ConfigurationMissing && old(self).owned_pid is None
                    && old(self).config is None,
            },
            old(self).owned_pid is Some ==> r matches Ok(StopAction::KillOwned(_)),
            old(self).owned_pid is None && old(self).config is Some ==> r matches Ok(
                StopAction::ScanOrphan(_),
            ),
            old(self).owned_pid is None && old(self).config is None ==> r is Err,
    {
        self.status = ServerStatus::Stopping;
        match self.owned_pid {
            Some(p) => {
                self.owned_pid = None;
                Ok(StopAction::KillOwned(p))
            },
            None => match &self.config {
                Some(c) => Ok(StopAction::ScanOrphan(c.path.clone())),
                None => {
                    self.status = ServerStatus::Offline;
                    Err(ServerError::ConfigurationMissing)
                },
            },
        }
    }

    /// Finish a stop: the status becomes Offline, and the caller's
    /// report of whether anything was actually stopped is passed
    /// through as the operation's result.  "Nothing to stop" is a
    /// successful no-op, not an error.
    pub fn stop_finish(&mut self, stopped: bool) -> (r: bool)
        ensures
            *final(self) == stop_finish_next(*old(self)),
            r == stopped,
    {
        self.status = ServerStatus::Offline;
        stopped
    }

    /// First step of a stats query: decide which process to sample.
    /// `owned_exited` is the caller's non-blocking exit check of the
    /// owned process (false when none is owned).  Returns the owned
    /// process id to sample, or None when the caller should fall
    /// through to orphan detection.
    pub fn stats_check_owned(&mut self, owned_exited: bool) -> (r: Option<u32>)
        ensures
            *final(self) == stats_check_next(*old(self), owned_exited),
            r == (if old(self).owned_pid is Some && !owned_exited {
                old(self).owned_pid
            } else {
                None::<u32>
            }),
    {
        match self.owned_pid {
            Some(p) => {
                if owned_exited {
                    self.owned_pid = None;
                    None
                } else {
                    Some(p)
                }
            },
            None => None,
        }
    }

    /// Snapshot from a sample of the live owned process.
    pub fn stats_from_owned(&self, cpu_centi: u64, memory: u64) -> (r: ServerStats)
        ensures
            r == stats_owned_snapshot(*self, cpu_centi, memory),
    {
        ServerStats { cpu_centi, memory, status: self.status, player_count: self.player_count }
    }

    /// Snapshot from a sample of a live orphaned process; a stale
    /// Offline status is reported as Running.
    pub fn stats_from_orphan(&self, cpu_centi: u64, memory: u64) -> (r: ServerStats)
        ensures
            r == stats_orphan_snapshot(*self, cpu_centi, memory),
    {
        ServerStats {
            cpu_centi,
            memory,
            status: if matches!(self.status, ServerStatus::Offline) {
                ServerStatus::Running
            } else {
                self.status
            },
            player_count: self.player_count,
        }
    }

    /// Snapshot when neither an owned nor an orphaned process exists.
    /// The player count keeps its last known value.
    pub fn stats_none(&self) -> (r: ServerStats)
        ensures
            r == stats_empty_snapshot(*self),
    {
        ServerStats {
            cpu_centi: 0,
            memory: 0,
            status: ServerStatus::Offline,
            player_count: self.player_count,
        }
    }

    /// The exact bytes to write to the owned process's input for a
    /// command: the text followed by a newline.  Unsupported while no
    /// process is owned, by design: no input stream exists for a
    /// process this session did not spawn.
    pub fn send_command_payload(&self, text: &str) -> (r: Result<String, ServerError>)
        ensures
            match r {
                Ok(s) => self.owned_pid is Some && s@ == text@ + "\n"@,
                Err(e) => self.owned_pid is None && e == ServerError::NoOwnedProcess,
            },
    {
        match self.owned_pid {
            Some(_) => Ok(String::from_str(text).concat("\n")),
            None => Err(ServerError::NoOwnedProcess),
        }
    }
}

} // verus!
