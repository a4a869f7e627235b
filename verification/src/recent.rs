//! The window of recent positions a greedy walk remembers: the last 96
//! hashes it met.

use vstd::prelude::*;

verus! {

/// The last 96 of some hashes.
pub open spec fn keep_recent(hs: Seq<u64>) -> Seq<u64> {
    if hs.len() > 96 {
        hs.skip(hs.len() - 96)
    } else {
        hs
    }
}

/// Keeping the last 96 hashes after one more: push it, and drop the oldest
/// once there are more than 96.
pub proof fn lemma_keep_recent_push(hs: Seq<u64>, h: u64)
    ensures
        keep_recent(hs.push(h)) == (if keep_recent(hs).push(h).len() > 96 {
            keep_recent(hs).push(h).subrange(1, keep_recent(hs).push(h).len() as int)
        } else {
            keep_recent(hs).push(h)
        }),
{
    let r = keep_recent(hs).push(h);
    if hs.len() > 96 {
        assert(keep_recent(hs.push(h)) =~= r.subrange(1, r.len() as int));
    } else if hs.len() == 96 {
        assert(keep_recent(hs.push(h)) =~= r.subrange(1, r.len() as int));
    } else {
        assert(keep_recent(hs.push(h)) =~= r);
    }
}

} // verus!
