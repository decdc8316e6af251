//! Orphan detection: given a snapshot of the process table, find the
//! first process that looks like the managed server.
//!
//! A candidate's executable name must contain "java" (ASCII
//! case-insensitively); it matches when its working directory equals
//! the target path exactly, or any of its command-line arguments
//! contains the target path as a substring.  The substring heuristic
//! trades precision for simplicity: two servers whose paths are in a
//! prefix relationship can be confused, an accepted limitation.

use vstd::prelude::*;
use vstd::string::StringSliceAdditionalSpecFns;
use crate::text::{bytes_eq, contains_seq, contains_subslice, lower_seq, to_ascii_lower};

verus! {

/// One process out of the table, reduced to what matching reads: its
/// id, executable name, working directory (when known), and
/// command-line arguments, all as raw bytes.
pub struct ProcessRecord {
    pub pid: u32,
    pub name: Vec<u8>,
    pub cwd: Option<Vec<u8>>,
    pub cmd: Vec<Vec<u8>>,
}

/// The executable name contains "java", ASCII case-insensitively.
pub open spec fn is_java_name(name: Seq<u8>) -> bool {
    contains_seq(lower_seq(name), "java".spec_bytes())
}

/// The working directory equals the target path exactly.
pub open spec fn cwd_matches(p: ProcessRecord, path: Seq<u8>) -> bool {
    match p.cwd {
        Some(c) => c@ == path,
        None => false,
    }
}

/// Some command-line argument contains the target path.
pub open spec fn cmd_matches(p: ProcessRecord, path: Seq<u8>) -> bool {
    exists|k: int| 0 <= k < p.cmd@.len() && contains_seq(#[trigger] p.cmd@[k]@, path)
}

/// The record is a candidate (a java process) referencing the target
/// path through its working directory or its arguments.
pub open spec fn record_matches(p: ProcessRecord, path: Seq<u8>) -> bool {
    is_java_name(p.name@) && (cwd_matches(p, path) || cmd_matches(p, path))
}

/// Id of the first matching record, or None when none matches.
pub open spec fn first_orphan(procs: Seq<ProcessRecord>, path: Seq<u8>) -> Option<u32>
    decreases procs.len(),
{
    if procs.len() == 0 {
        None
    } else if record_matches(procs[0], path) {
        Some(procs[0].pid)
    } else {
        first_orphan(procs.drop_first(), path)
    }
}

/// `first_orphan` returns the first match indeed: None means no
/// record matches, Some the earliest one.
pub proof fn lemma_first_orphan(procs: Seq<ProcessRecord>, path: Seq<u8>)
    ensures
        first_orphan(procs, path) is None ==> forall|i: int|
            0 <= i < procs.len() ==> !record_matches(#[trigger] procs[i], path),
        first_orphan(procs, path) matches Some(pid) ==> exists|i: int|
            0 <= i < procs.len() && record_matches(#[trigger] procs[i], path)
                && procs[i].pid == pid && forall|k: int|
                0 <= k < i ==> !record_matches(procs[k], path),
    decreases procs.len(),
{
    if procs.len() > 0 && !record_matches(procs[0], path) {
        let t = procs.drop_first();
        lemma_first_orphan(t, path);
        if first_orphan(procs, path) is None {
            assert forall|i: int| 0 <= i < procs.len() implies !record_matches(
                #[trigger] procs[i],
                path,
            ) by {
                if i > 0 {
                    assert(!record_matches(t[i - 1], path));
                    assert(t[i - 1] == procs[i]);
                }
            }
        } else {
            let pid = first_orphan(procs, path)->0;
            let j = choose|j: int|
                0 <= j < t.len() && record_matches(#[trigger] t[j], path) && t[j].pid == pid
                    && forall|k: int| 0 <= k < j ==> !record_matches(t[k], path);
            assert(t[j] == procs[j + 1]);
            assert(record_matches(procs[j + 1], path) && procs[j + 1].pid == pid);
            assert forall|k: int| 0 <= k < j + 1 implies !record_matches(procs[k], path) by {
                if k > 0 {
                    assert(!record_matches(t[k - 1], path));
                    assert(t[k - 1] == procs[k]);
                }
            }
        }
    }
}

/// Whether one record matches the target path.
fn record_is_match(p: &ProcessRecord, path: &[u8]) -> (r: bool)
    ensures
        r == record_matches(*p, path@),
{
    let lowered = to_ascii_lower(p.name.as_slice());
    if !contains_subslice(lowered.as_slice(), "java".as_bytes()) {
        return false;
    }
    match &p.cwd {
        Some(c) => {
            if bytes_eq(c.as_slice(), path) {
                return true;
            }
        },
        None => {},
    }
    let n = p.cmd.len();
    let mut k: usize = 0;
    while k < n
        invariant
            n == p.cmd@.len(),
            k <= n,
            is_java_name(p.name@),
            !cwd_matches(*p, path@),
            forall|j: int| 0 <= j < k ==> !contains_seq(#[trigger] p.cmd@[j]@, path@),
        decreases n - k,
    {
        if contains_subslice(p.cmd[k].as_slice(), path) {
            return true;
        }
        k += 1;
    }
    false
}

/// Scan a process-table snapshot for the managed server: the first
/// java process whose working directory or arguments reference the
/// target path.  Exact with respect to `first_orphan`; see
/// `lemma_first_orphan` for what that means position by position.
pub fn find_orphaned_java_process(procs: &Vec<ProcessRecord>, server_path: &[u8]) -> (r: Option<
    u32,
>)
    ensures
        r == first_orphan(procs@, server_path@),
{
    proof {
        lemma_first_orphan(procs@, server_path@);
    }
    let n = procs.len();
    let mut i: usize = 0;
    while i < n
        invariant
            n == procs@.len(),
            i <= n,
            forall|k: int| 0 <= k < i ==> !record_matches(#[trigger] procs@[k], server_path@),
        decreases n - i,
    {
        if record_is_match(&procs[i], server_path) {
            proof {
                lemma_first_orphan(procs@, server_path@);
                match first_orphan(procs@, server_path@) {
                    None => {
                        assert(!record_matches(procs@[i as int], server_path@));
                    },
                    Some(pid) => {
                        let j = choose|j: int|
                            0 <= j < procs@.len() && record_matches(
                                #[trigger] procs@[j],
                                server_path@,
                            ) && procs@[j].pid == pid && forall|k: int|
                                0 <= k < j ==> !record_matches(procs@[k], server_path@);
                        if j < i {
                            assert(!record_matches(procs@[j], server_path@));
                        }
                        if j > i {
                            assert(!record_matches(procs@[i as int], server_path@));
                        }
                    },
                }
            }
            return Some(procs[i].pid);
        }
        i += 1;
    }
    proof {
        lemma_first_orphan(procs@, server_path@);
        if first_orphan(procs@, server_path@) is Some {
            let pid = first_orphan(procs@, server_path@)->0;
            let j = choose|j: int|
                0 <= j < procs@.len() && record_matches(#[trigger] procs@[j], server_path@)
                    && procs@[j].pid == pid && forall|k: int|
                    0 <= k < j ==> !record_matches(procs@[k], server_path@);
            assert(!record_matches(procs@[j], server_path@));
        }
    }
    None
}

} // verus!
