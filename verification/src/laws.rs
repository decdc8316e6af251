//! The library's stated laws: properties of the supervisor state
//! machine that hold for all inputs, proved over the same spec-level
//! models the executable functions are verified against.

use vstd::prelude::*;
use crate::ServerStatus;
use crate::monitor::{
    count_after_line, is_join_line, is_leave_line, is_startup_line, line_next, started_after,
    stream_end_next,
};
use crate::scanner::{ProcessRecord, first_orphan, lemma_first_orphan, record_matches};
use crate::supervisor::{
    ServerError, SupervisorState, spawn_failed_next, spawn_ok_next, start_next, start_verdict,
    stats_check_next, stats_empty_snapshot, stats_orphan_snapshot, stats_owned_snapshot,
    stop_begin_next, stop_finish_next, wf,
};

verus! {

/// The status changes the lifecycle design permits: stay put; leave
/// Offline only for Starting (a start); leave Starting for Running
/// (the ready banner); move to Stopping from anywhere (a stop is safe
/// from any reachable state); move to Offline from anywhere (a
/// finished stop, a failed spawn, or the process's stream ending).
pub open spec fn status_step_allowed(pre: ServerStatus, post: ServerStatus) -> bool {
    ||| post == pre
    ||| (pre == ServerStatus::Offline && post == ServerStatus::Starting)
    ||| (pre == ServerStatus::Starting && post == ServerStatus::Running)
    ||| post == ServerStatus::Stopping
    ||| post == ServerStatus::Offline
}

/// Every operation of the supervisor, and every line the monitor
/// observes, changes the status only along the permitted transitions
/// (and the status is one of the four values by its type).  The two
/// premises are the operating protocol: starts are issued from
/// Offline, and while the monitor has not yet seen the ready banner
/// the status is still Starting.
pub proof fn lemma_lifecycle_transitions(
    s: SupervisorState,
    orphan: Option<u32>,
    pid: u32,
    started: bool,
    line: Seq<u8>,
    exited: bool,
)
    ensures
        s.status == ServerStatus::Offline ==> status_step_allowed(
            s.status,
            start_next(s, orphan).status,
        ),
        status_step_allowed(s.status, spawn_ok_next(s, pid).status),
        status_step_allowed(s.status, spawn_failed_next(s).status),
        status_step_allowed(s.status, stop_begin_next(s).status),
        status_step_allowed(s.status, stop_finish_next(s).status),
        (started || s.status == ServerStatus::Starting) ==> status_step_allowed(
            s.status,
            line_next(s, started, line).status,
        ),
        status_step_allowed(s.status, stream_end_next(s).status),
        status_step_allowed(s.status, stats_check_next(s, exited).status),
{
}

/// start() called twice without an intervening stop: the second call
/// is refused — with AlreadyRunning when the process table shows no
/// pre-existing process — the state is left unchanged, and so no
/// second process is spawned.
pub proof fn lemma_start_twice_rejected(
    s: SupervisorState,
    orphan1: Option<u32>,
    pid: u32,
    orphan2: Option<u32>,
)
    requires
        start_verdict(s, orphan1) is Ok,
    ensures
        ({
            let s1 = spawn_ok_next(start_next(s, orphan1), pid);
            &&& start_verdict(s1, orphan2) is Err
            &&& (orphan2 is None ==> start_verdict(s1, orphan2) == Err::<(), ServerError>(
                ServerError::AlreadyRunning,
            ))
            &&& start_next(s1, orphan2) == s1
        }),
{
}

/// The player count after the monitor observed a whole sequence of
/// lines, in order.
pub open spec fn count_after_lines(pc: i32, lines: Seq<Seq<u8>>) -> i32
    decreases lines.len(),
{
    if lines.len() == 0 {
        pc
    } else {
        count_after_lines(count_after_line(pc, lines[0]), lines.drop_first())
    }
}

/// The player count never goes below zero, for every interleaving of
/// join and leave line events.
pub proof fn lemma_player_count_nonnegative(pc: i32, lines: Seq<Seq<u8>>)
    requires
        pc >= 0,
    ensures
        count_after_lines(pc, lines) >= 0,
    decreases lines.len(),
{
    if lines.len() > 0 {
        lemma_player_count_nonnegative(count_after_line(pc, lines[0]), lines.drop_first());
    }
}

/// A join line followed immediately by a stats query raises the
/// reported player count by exactly one; a subsequent leave line (one
/// that is not itself a join) brings it back to where it was.
pub proof fn lemma_join_then_leave_reported(
    s: SupervisorState,
    started: bool,
    l1: Seq<u8>,
    l2: Seq<u8>,
    cpu1: u64,
    mem1: u64,
    cpu2: u64,
    mem2: u64,
)
    requires
        wf(s),
        s.player_count < i32::MAX,
        is_join_line(l1),
        is_leave_line(l2),
        !is_join_line(l2),
    ensures
        ({
            let s1 = line_next(s, started, l1);
            let s2 = line_next(s1, started_after(started, l1), l2);
            &&& stats_owned_snapshot(s1, cpu1, mem1).player_count == s.player_count + 1
            &&& stats_owned_snapshot(s2, cpu2, mem2).player_count == s.player_count
        }),
{
}

/// A startup-completion line moves the status from Starting to
/// Running exactly once: the first one both transitions and latches
/// the monitor's flag, and once the flag is latched no later line
/// changes the status — whether or not the marker text appears in it
/// again.
pub proof fn lemma_startup_fires_once(s: SupervisorState, started: bool, l: Seq<u8>)
    ensures
        !started && is_startup_line(l) ==> line_next(s, started, l).status == ServerStatus::Running
            && started_after(started, l),
        started ==> line_next(s, started, l).status == s.status && started_after(started, l),
{
}

/// stop() on a supervisor with no owned handle and no matching
/// process in the table: the scan finds nothing (so the caller
/// reports false — nothing was stopped), and the supervisor ends
/// Offline with the rest of its state untouched.
pub proof fn lemma_stop_nothing_to_stop(
    s: SupervisorState,
    procs: Seq<ProcessRecord>,
    path: Seq<u8>,
)
    requires
        s.owned_pid is None,
        forall|i: int| 0 <= i < procs.len() ==> !record_matches(#[trigger] procs[i], path),
    ensures
        first_orphan(procs, path) is None,
        stop_finish_next(stop_begin_next(s)).status == ServerStatus::Offline,
        stop_finish_next(stop_begin_next(s)).owned_pid is None,
        stop_finish_next(stop_begin_next(s)).player_count == s.player_count,
        stop_finish_next(stop_begin_next(s)).config == s.config,
{
    lemma_first_orphan(procs, path);
    if first_orphan(procs, path) is Some {
        let pid = first_orphan(procs, path)->0;
        let i = choose|i: int|
            0 <= i < procs.len() && record_matches(#[trigger] procs[i], path) && procs[i].pid
                == pid && forall|k: int| 0 <= k < i ==> !record_matches(procs[k], path);
        assert(!record_matches(procs[i], path));
        assert(false);
    }
}

/// A stats query that finds a live orphaned process reports the
/// sampled values and coerces a stale Offline status to Running; one
/// that finds nothing reports a zeroed sample, Offline, and the last
/// known player count.
pub proof fn lemma_stats_orphan_coercion(s: SupervisorState, cpu: u64, mem: u64)
    ensures
        s.status == ServerStatus::Offline ==> stats_orphan_snapshot(s, cpu, mem).status
            == ServerStatus::Running,
        s.status != ServerStatus::Offline ==> stats_orphan_snapshot(s, cpu, mem).status == s.status,
        stats_orphan_snapshot(s, cpu, mem).cpu_centi == cpu,
        stats_orphan_snapshot(s, cpu, mem).memory == mem,
        stats_orphan_snapshot(s, cpu, mem).player_count == s.player_count,
        stats_empty_snapshot(s).status == ServerStatus::Offline,
        stats_empty_snapshot(s).cpu_centi == 0,
        stats_empty_snapshot(s).memory == 0,
        stats_empty_snapshot(s).player_count == s.player_count,
{
}

} // verus!
