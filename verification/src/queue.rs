//! FIFO of pending read requests.  Each entry records the bit count of a
//! queued read; retrieval must match entries one-to-one, in issue order.

use vstd::prelude::*;

verus! {

/// Most read requests that may be outstanding at once before the queue
/// reports itself full and the caller must drain it.
pub const QUEUE_CAPACITY: usize = 64;

/// FIFO of the bit counts of reads that have been issued but not yet
/// retrieved.
pub struct ReadQueue {
    entries: Vec<usize>,
}

impl ReadQueue {
    /// The queued bit counts, oldest first.
    pub closed spec fn pending(&self) -> Seq<usize> {
        self.entries@
    }

    /// An empty queue.
    pub fn new() -> (r: Self)
        ensures
            r.pending() == Seq::<usize>::empty(),
    {
        ReadQueue { entries: Vec::new() }
    }

    /// Number of outstanding entries.
    pub fn len(&self) -> (r: usize)
        ensures
            r == self.pending().len(),
    {
        self.entries.len()
    }

    /// Record one more pending read of `bits` bits; refused (returning
    /// false, with the queue unchanged) exactly when the queue already
    /// holds `QUEUE_CAPACITY` entries.
    pub fn try_push(&mut self, bits: usize) -> (r: bool)
        ensures
            r == (old(self).pending().len() < QUEUE_CAPACITY),
            r ==> final(self).pending() == old(self).pending().push(bits),
            !r ==> final(self).pending() == old(self).pending(),
    {
        if self.entries.len() < QUEUE_CAPACITY {
            self.entries.push(bits);
            true
        } else {
            false
        }
    }

    /// Remove and return the oldest pending bit count.
    pub fn pop_front(&mut self) -> (r: usize)
        requires
            old(self).pending().len() > 0,
        ensures
            r == old(self).pending()[0],
            final(self).pending() == old(self).pending().drop_first(),
    {
        let r = self.entries.remove(0);
        proof {
            assert(final(self).pending() =~= old(self).pending().drop_first());
        }
        r
    }
}

} // verus!
