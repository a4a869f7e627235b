//! Reading the shared cancellation flag of a long computation, and what a
//! computation's record of its readings says.

use vstd::prelude::*;
use std::sync::atomic::{AtomicBool, Ordering};

verus! {

/// Whether another thread asked the computation to stop. Nothing is known
/// of the answer: the flag may change at any moment.
pub fn cancel_requested(flag: &AtomicBool) -> bool {
    flag.load(Ordering::Relaxed)
}

/// Every reading came back clear.
pub open spec fn all_clear(reads: Seq<bool>) -> bool {
    forall|i: int| 0 <= i < reads.len() ==> !#[trigger] reads[i]
}

/// The readings came back clear, but for the last one, which may be raised.
pub open spec fn clear_before_last(reads: Seq<bool>) -> bool {
    forall|i: int| 0 <= i < reads.len() - 1 ==> !#[trigger] reads[i]
}

/// The last reading came back raised.
pub open spec fn last_raised(reads: Seq<bool>) -> bool {
    reads.len() > 0 && reads.last()
}

/// One more reading after clear ones.
pub proof fn lemma_read_after_clear(reads: Seq<bool>, b: bool)
    requires
        all_clear(reads),
    ensures
        clear_before_last(reads.push(b)),
        last_raised(reads.push(b)) == b,
        !b ==> all_clear(reads.push(b)),
{
    assert forall|i: int| 0 <= i < reads.push(b).len() - 1 implies !#[trigger] reads.push(b)[i] by {
        assert(reads.push(b)[i] == reads[i]);
    }
    if !b {
        assert forall|i: int| 0 <= i < reads.push(b).len() implies !#[trigger] reads.push(b)[i] by {
            if i < reads.len() {
                assert(reads.push(b)[i] == reads[i]);
            }
        }
    }
}

/// Clear readings have no raised last one.
pub proof fn lemma_all_clear(reads: Seq<bool>)
    requires
        all_clear(reads),
    ensures
        clear_before_last(reads),
        !last_raised(reads),
{
    if reads.len() > 0 {
        assert(!reads[reads.len() - 1]);
    }
}

/// Readings that ended clear were all clear.
pub proof fn lemma_clear_to_end(reads: Seq<bool>)
    requires
        clear_before_last(reads),
        !last_raised(reads),
    ensures
        all_clear(reads),
{
    assert forall|i: int| 0 <= i < reads.len() implies !#[trigger] reads[i] by {
        if i == reads.len() - 1 {
            assert(reads.last() == reads[i]);
        }
    }
}

/// Clear readings followed by more: they end as the later ones do.
pub proof fn lemma_reads_concat(a: Seq<bool>, b: Seq<bool>)
    requires
        all_clear(a),
        clear_before_last(b),
    ensures
        clear_before_last(a + b),
        last_raised(a + b) == last_raised(b),
        all_clear(b) ==> all_clear(a + b),
{
    let c = a + b;
    assert forall|i: int| 0 <= i < c.len() - 1 implies !#[trigger] c[i] by {
        if i < a.len() {
            assert(c[i] == a[i]);
        } else {
            assert(c[i] == b[i - a.len()]);
        }
    }
    if b.len() > 0 {
        assert(c.last() == b.last());
    } else {
        assert(c =~= a);
        lemma_all_clear(a);
    }
    if all_clear(b) {
        assert forall|i: int| 0 <= i < c.len() implies !#[trigger] c[i] by {
            if i < a.len() {
                assert(c[i] == a[i]);
            } else {
                assert(c[i] == b[i - a.len()]);
            }
        }
    }
}

} // verus!
