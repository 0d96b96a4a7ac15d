//! The bounded store: a FIFO sequence of delayed items, its capacity and the
//! counter that names pop operations.

use crate::future::{DelayedPopFuture, PopOp};
use crate::item::DelayItem;
use std::collections::VecDeque;
use vstd::prelude::*;

verus! {

/// What the caller of [`DelayedQueue::push`] does next.
#[derive(Debug, PartialEq, Eq)]
pub enum PushStep<T> {
    /// The item is in the queue. Give the lock up and wake one task that
    /// waits for the queue's occupancy to change.
    Pushed,
    /// The queue is full and the item comes back. Give the lock up and wait
    /// until the queue's occupancy changes, then push again.
    WaitOccupancy(T),
}

/// What a [`DelayedQueue`] holds, as a mathematical value.
pub struct QueueState<T> {
    /// The most items the queue takes.
    pub max_size: usize,
    /// The items in insertion order, the oldest first.
    pub items: Seq<DelayItem<T>>,
    /// The id that the next pop operation gets.
    pub counter: u64,
}

impl<T> QueueState<T> {
    /// The state of a queue that was just made.
    pub open spec fn empty(max_size: usize) -> Self {
        QueueState { max_size, items: Seq::empty(), counter: 1 }
    }

    /// The queue never holds more than its capacity, only the front item is
    /// ever claimed, and `0`, which marks an unclaimed item, is no operation's id.
    pub open spec fn wf(self) -> bool {
        &&& self.items.len() <= self.max_size
        &&& self.counter >= 1
        &&& forall|i: int| 0 < i < self.items.len() ==> (#[trigger] self.items[i]).reserved == 0
    }

    /// No further item fits.
    pub open spec fn is_full(self) -> bool {
        self.items.len() >= self.max_size
    }

    /// The queue after an unclaimed item was appended.
    pub open spec fn appended(self, item: T, pop_time: u64) -> Self {
        QueueState {
            items: self.items.push(DelayItem { item, pop_time, reserved: 0 }),
            ..self
        }
    }

    /// A push of `item` at the instant `now` with the delay `delay`: the queue
    /// as the push leaves it, and the answer to the caller. A full queue
    /// stays as it is and gives the item back; otherwise the item is
    /// appended, unclaimed and due at `now + delay`.
    pub open spec fn push(self, item: T, now: u64, delay: u64) -> (Self, PushStep<T>)
        recommends
            now + delay <= u64::MAX,
    {
        if self.is_full() {
            (self, PushStep::WaitOccupancy(item))
        } else {
            (self.appended(item, (now + delay) as u64), PushStep::Pushed)
        }
    }

    /// The queue after one id was handed out.
    pub open spec fn issued(self) -> Self {
        QueueState { counter: (self.counter + 1) as u64, ..self }
    }

    /// The queue with `id` written into the front item's reservation cell.
    pub open spec fn front_reserved(self, id: u64) -> Self
        recommends
            self.items.len() > 0,
    {
        QueueState { items: self.items.update(0, self.items[0].with_reserved(id)), ..self }
    }

    /// The queue after its front item left.
    pub open spec fn without_front(self) -> Self
        recommends
            self.items.len() > 0,
    {
        QueueState { items: self.items.drop_first(), ..self }
    }

    /// The front item is there and carries the claim of `id`.
    pub open spec fn front_held_by(self, id: u64) -> bool {
        self.items.len() > 0 && self.items[0].reserved == id
    }

    /// The queue after the guard of operation `id` let go: the front item is
    /// unclaimed again if it still carried that operation's claim, and
    /// nothing changes otherwise.
    pub open spec fn released_by(self, id: u64) -> Self {
        if self.front_held_by(id) {
            self.front_reserved(0)
        } else {
            self
        }
    }
}

/// A bounded queue of delayed items.
pub struct DelayedQueue<T> {
    max_size: usize,
    queue: VecDeque<DelayItem<T>>,
    counter: u64,
}

impl<T> View for DelayedQueue<T> {
    type V = QueueState<T>;

    closed spec fn view(&self) -> QueueState<T> {
        QueueState { max_size: self.max_size, items: self.queue@, counter: self.counter }
    }
}

impl<T> DelayedQueue<T> {
    /// Creates an empty queue that takes at most `size` items, with room for
    /// all of them set aside at once. The first pop operation gets the id `1`.
    pub fn new(size: usize) -> (q: DelayedQueue<T>)
        ensures
            q@ == QueueState::<T>::empty(size),
            q@.wf(),
    {
        DelayedQueue { max_size: size, queue: VecDeque::with_capacity(size), counter: 1 }
    }

    /// Appends `item`, due `delay` after `now`, unless the queue is full.
    ///
    /// Call it with the queue's lock held. On a full queue nothing changes
    /// and the item comes back; the push that follows the wait is made with
    /// the same `now`, so that the time spent waiting counts towards the
    /// delay.
    pub fn push(&mut self, item: T, now: u64, delay: u64) -> (step: PushStep<T>)
        requires
            now + delay <= u64::MAX,
        ensures
            (final(self)@, step) == old(self)@.push(item, now, delay),
            old(self)@.wf() ==> final(self)@.wf(),
    {
        if self.queue.len() >= self.max_size {
            return PushStep::WaitOccupancy(item);
        }
        let pop_time: u64 = now + delay;
        self.queue.push_back(DelayItem::new(item, pop_time));
        PushStep::Pushed
    }

    /// Starts a pop operation: hands out the next id and advances the counter.
    ///
    /// Nothing is taken from the queue yet; the operation is driven by
    /// [`DelayedPopFuture::poll`].
    pub fn pop(&mut self) -> (fut: DelayedPopFuture)
        requires
            old(self)@.counter < u64::MAX,
        ensures
            fut@ == PopOp::fresh(old(self)@.counter),
            final(self)@ == old(self)@.issued(),
            old(self)@.wf() ==> final(self)@.wf(),
    {
        let id: u64 = self.counter;
        self.counter = id + 1;
        DelayedPopFuture::new(id)
    }

    /// The number of items in the queue.
    pub fn len(&self) -> (n: usize)
        ensures
            n == self@.items.len(),
    {
        self.queue.len()
    }

    /// The most items the queue takes.
    pub fn capacity(&self) -> (n: usize)
        ensures
            n == self@.max_size,
    {
        self.max_size
    }

    /// Whether the queue holds no item.
    pub fn is_empty(&self) -> (b: bool)
        ensures
            b == (self@.items.len() == 0),
    {
        self.queue.len() == 0
    }

    /// Whether a push would have to wait.
    pub fn is_full(&self) -> (b: bool)
        ensures
            b == self@.is_full(),
    {
        self.queue.len() >= self.max_size
    }

    /// The id that the next pop operation gets.
    pub fn next_id(&self) -> (id: u64)
        ensures
            id == self@.counter,
    {
        self.counter
    }

    /// The front item, if there is one.
    pub fn front(&self) -> (front: Option<&DelayItem<T>>)
        ensures
            self@.items.len() == 0 ==> front is None,
            self@.items.len() > 0 ==> front == Some(&self@.items[0]),
    {
        if self.queue.len() == 0 {
            None
        } else {
            Some(&self.queue[0])
        }
    }

    /// Writes `id` into the front item's reservation cell.
    pub(crate) fn reserve_front(&mut self, id: u64)
        requires
            old(self)@.items.len() > 0,
        ensures
            final(self)@ == old(self)@.front_reserved(id),
    {
        let front = self.queue.pop_front();
        match front {
            Some(it) => {
                let DelayItem { item, pop_time, reserved: _ } = it;
                self.queue.push_front(DelayItem { item, pop_time, reserved: id });
                assert(self.queue@ =~= old(self).queue@.update(
                    0,
                    old(self).queue@[0].with_reserved(id),
                ));
            },
            None => {},
        }
    }

    /// Removes the front item and hands out its payload.
    pub(crate) fn take_front(&mut self) -> (item: T)
        requires
            old(self)@.items.len() > 0,
        ensures
            item == old(self)@.items[0].item,
            final(self)@ == old(self)@.without_front(),
    {
        let front = self.queue.pop_front();
        assert(self.queue@ =~= old(self).queue@.drop_first());
        front.unwrap().item
    }
}

} // verus!
