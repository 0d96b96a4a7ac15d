//! The guard that a pop operation holds while it sleeps for the front item.

use crate::queue::DelayedQueue;
use vstd::prelude::*;

verus! {

/// The claim of one pop operation on the item it sleeps for.
///
/// The guard does not own the item and does not keep it in the queue. It
/// names the item by the id that the operation wrote into the item's
/// reservation cell; while the front item still carries that id, the claim
/// stands and the guard can withdraw it.
pub struct ReserveWaker {
    owner: u64,
}

impl ReserveWaker {
    /// The id of the operation that made the claim.
    pub closed spec fn owner(self) -> u64 {
        self.owner
    }

    /// The guard for a claim that operation `owner` has just made.
    pub(crate) fn new(owner: u64) -> (guard: ReserveWaker)
        ensures
            guard.owner() == owner,
    {
        ReserveWaker { owner }
    }

    /// Gives the claim up.
    ///
    /// If the claimed item is still in the queue, its reservation cell goes
    /// back to `0`; if it has left, nothing is written. In both cases the
    /// caller then wakes one task that waits for a reservation to end.
    pub fn release<T>(self, queue: &mut DelayedQueue<T>)
        ensures
            final(queue)@ == old(queue)@.released_by(self.owner()),
            old(queue)@.wf() ==> final(queue)@.wf(),
    {
        let held: bool = match queue.front() {
            Some(front) => front.reserved == self.owner,
            None => false,
        };
        if held {
            queue.reserve_front(0);
        }
    }
}

} // verus!
