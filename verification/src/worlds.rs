//! World listing and backup support: the size arithmetic and the
//! archive naming.  Directory walking, metadata and the archive
//! writing itself are the caller's file-system work.

use vstd::prelude::*;
use vstd::string::StringExecFns;

verus! {

/// One world directory, as listed to the caller.
pub struct WorldInfo {
    /// Directory name.
    pub name: String,
    /// Total size of the files under it, in bytes.
    pub size_bytes: u64,
    /// Human-readable modification time, as the caller formatted it.
    pub last_modified: String,
}

/// Sum of a sequence of sizes, as an unbounded integer.
pub open spec fn sum_of(s: Seq<u64>) -> int
    decreases s.len(),
{
    if s.len() == 0 {
        0
    } else {
        sum_of(s.drop_last()) + s.last()
    }
}

/// A sum of sizes is never negative.
pub proof fn lemma_sum_nonneg(s: Seq<u64>)
    ensures
        sum_of(s) >= 0,
    decreases s.len(),
{
    if s.len() > 0 {
        lemma_sum_nonneg(s.drop_last());
    }
}

/// Total size of a set of files: the exact sum, saturating at the
/// counter's ceiling.
pub fn total_size(sizes: &Vec<u64>) -> (r: u64)
    ensures
        r == if sum_of(sizes@) <= u64::MAX as int {
            sum_of(sizes@)
        } else {
            u64::MAX as int
        },
{
    let n = sizes.len();
    let mut acc: u64 = 0;
    let mut i: usize = 0;
    while i < n
        invariant
            n == sizes@.len(),
            i <= n,
            acc == if sum_of(sizes@.take(i as int)) <= u64::MAX as int {
                sum_of(sizes@.take(i as int))
            } else {
                u64::MAX as int
            },
        decreases n - i,
    {
        proof {
            assert(sizes@.take(i + 1).drop_last() =~= sizes@.take(i as int));
            assert(sizes@.take(i + 1).last() == sizes@[i as int]);
            lemma_sum_nonneg(sizes@.take(i as int));
        }
        let x = sizes[i];
        if u64::MAX - acc < x {
            acc = u64::MAX;
        } else {
            acc = acc + x;
        }
        i += 1;
    }
    proof {
        assert(sizes@.take(n as int) =~= sizes@);
    }
    acc
}

/// The archive file name for a backup: the world's name and a
/// timestamp, joined by an underscore, with a zip extension.
pub fn backup_file_name(world_name: &str, timestamp: &str) -> (r: String)
    ensures
        r@ == world_name@ + "_"@ + timestamp@ + ".zip"@,
{
    let mut s = String::from_str(world_name);
    s.append("_");
    s.append(timestamp);
    s.append(".zip");
    s
}

} // verus!
