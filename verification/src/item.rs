//! One queued payload with its due instant and its reservation cell.

use vstd::prelude::*;

verus! {

/// An item of the queue.
///
/// `reserved` is `0` while nobody claims the item. Otherwise it is the id of
/// the pop operation that sleeps until `pop_time` in order to take the item.
#[derive(Debug)]
pub struct DelayItem<T> {
    /// The payload handed to the consumer.
    pub item: T,
    /// The first instant at which the item may leave the queue.
    pub pop_time: u64,
    /// The id of the operation that has claimed the item, or `0`.
    pub reserved: u64,
}

impl<T> DelayItem<T> {
    /// The item may leave the queue at `now`.
    pub open spec fn is_due(self, now: u64) -> bool {
        self.pop_time <= now
    }

    /// No operation other than `id` has claimed the item.
    pub open spec fn open_to(self, id: u64) -> bool {
        self.reserved == 0 || self.reserved == id
    }

    /// The same item with `id` in its reservation cell.
    pub open spec fn with_reserved(self, id: u64) -> Self {
        DelayItem { item: self.item, pop_time: self.pop_time, reserved: id }
    }

    /// A fresh, unclaimed item.
    pub fn new(item: T, pop_time: u64) -> (it: Self)
        ensures
            it == (DelayItem { item, pop_time, reserved: 0 }),
    {
        DelayItem { item, pop_time, reserved: 0 }
    }
}

} // verus!
