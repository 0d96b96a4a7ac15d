//! The pop operation: a state machine that is stepped under the queue's lock.

use crate::queue::{DelayedQueue, QueueState};
use crate::reserve::ReserveWaker;
use vstd::prelude::*;

verus! {

/// Where a pop operation stands.
#[derive(Clone, Copy, Debug, PartialEq, Eq)]
pub enum PopState {
    /// Not stepped yet.
    Init,
    /// Found the queue empty and waits for an item.
    WaitOccupancy,
    /// Found the front item claimed by another operation and waits for that
    /// claim to end.
    WaitReservationRelease,
    /// Has claimed the front item and sleeps until it is due.
    WaitDue,
    /// Has taken an item.
    Done,
}

/// What the caller of [`DelayedPopFuture::poll`] does next.
#[derive(Debug, PartialEq, Eq)]
pub enum PopStep<T> {
    /// Give the lock up and wait until the queue's occupancy changes, then
    /// poll again.
    WaitOccupancy,
    /// Give the lock up and wait until some reservation ends, then poll again.
    WaitReservation,
    /// Give the lock up, sleep until the given instant, then poll again.
    WaitDue(u64),
    /// The front item has left the queue and this is its payload. Give the
    /// lock up and wake one task that waits for the queue's occupancy to
    /// change.
    Ready(T),
    /// The operation took its item in an earlier step; nothing was done.
    Finished,
}

/// A pop operation as a mathematical value.
pub struct PopOp {
    /// The operation's id; no two operations of one queue share it.
    pub id: u64,
    /// The state that the last step left.
    pub state: PopState,
    /// The id under which the operation's guard watches a claimed item, if
    /// the operation has a guard.
    pub guard: Option<u64>,
}

impl PopOp {
    /// An operation that was just issued.
    pub open spec fn fresh(id: u64) -> PopOp {
        PopOp { id, state: PopState::Init, guard: None }
    }

    /// The operation has taken its item.
    pub open spec fn is_done(self) -> bool {
        self.state is Done
    }

    /// One step of the operation at the instant `now`: the operation and the
    /// queue as the step leaves them, and the answer to the caller.
    ///
    /// A finished operation stays as it is. On an empty queue the operation
    /// waits for an item. Where another operation holds the front item, it
    /// waits for that claim to end. Where the front item is not yet due, it
    /// claims the item, takes a guard and sleeps until the due instant. In
    /// what is left the front item is unclaimed or its own, and due: the item
    /// leaves the queue.
    pub open spec fn step<T>(self, q: QueueState<T>, now: u64) -> (PopOp, QueueState<T>, PopStep<T>) {
        if self.is_done() {
            (self, q, PopStep::Finished)
        } else if q.items.len() == 0 {
            (PopOp { state: PopState::WaitOccupancy, ..self }, q, PopStep::WaitOccupancy)
        } else if !q.items[0].open_to(self.id) {
            (PopOp { state: PopState::WaitReservationRelease, ..self }, q, PopStep::WaitReservation)
        } else if !q.items[0].is_due(now) {
            (
                PopOp { state: PopState::WaitDue, guard: Some(self.id), ..self },
                q.front_reserved(self.id),
                PopStep::WaitDue(q.items[0].pop_time),
            )
        } else {
            (PopOp { state: PopState::Done, ..self }, q.without_front(), PopStep::Ready(q.items[0].item))
        }
    }

    /// The queue after the operation ended, finished or abandoned, and
    /// whether a task that waits for a reservation to end is woken: the
    /// guard, if there is one, gives its claim up, and its going is always
    /// announced.
    pub open spec fn end<T>(self, q: QueueState<T>) -> (QueueState<T>, bool) {
        match self.guard {
            Some(owner) => (q.released_by(owner), true),
            None => (q, false),
        }
    }
}

/// A pop operation on a [`DelayedQueue`].
///
/// It is made by [`DelayedQueue::pop`], stepped by [`DelayedPopFuture::poll`]
/// and ended by [`DelayedPopFuture::release`], whether it has taken its item
/// or is abandoned before.
pub struct DelayedPopFuture {
    future_id: u64,
    state: PopState,
    reserve_waker: Option<ReserveWaker>,
}

impl View for DelayedPopFuture {
    type V = PopOp;

    closed spec fn view(&self) -> PopOp {
        PopOp {
            id: self.future_id,
            state: self.state,
            guard: match self.reserve_waker {
                Some(guard) => Some(guard.owner()),
                None => None,
            },
        }
    }
}

impl DelayedPopFuture {
    /// A fresh operation with the given id.
    pub(crate) fn new(id: u64) -> (fut: DelayedPopFuture)
        ensures
            fut@ == PopOp::fresh(id),
    {
        DelayedPopFuture { future_id: id, state: PopState::Init, reserve_waker: None }
    }

    /// The operation's id.
    pub fn id(&self) -> (id: u64)
        ensures
            id == self@.id,
    {
        self.future_id
    }

    /// The state that the last step left.
    pub fn state(&self) -> (state: PopState)
        ensures
            state == self@.state,
    {
        self.state
    }

    /// Whether the operation has taken its item.
    pub fn is_done(&self) -> (b: bool)
        ensures
            b == self@.is_done(),
    {
        match self.state {
            PopState::Done => true,
            _ => false,
        }
    }

    /// Whether the operation has a guard, which its release will announce.
    pub fn has_guard(&self) -> (b: bool)
        ensures
            b == (self@.guard is Some),
    {
        self.reserve_waker.is_some()
    }

    /// Steps the operation once, at the instant `now`, with the queue's lock
    /// held. The answer says what the caller does before the next step.
    pub fn poll<T>(&mut self, queue: &mut DelayedQueue<T>, now: u64) -> (step: PopStep<T>)
        ensures
            (final(self)@, final(queue)@, step) == old(self)@.step(old(queue)@, now),
            old(queue)@.wf() ==> final(queue)@.wf(),
    {
        if let PopState::Done = self.state {
            return PopStep::Finished;
        }
        let (reserved, pop_time): (u64, u64) = match queue.front() {
            Some(front) => (front.reserved, front.pop_time),
            None => {
                self.state = PopState::WaitOccupancy;
                return PopStep::WaitOccupancy;
            },
        };
        if reserved > 0 && reserved != self.future_id {
            self.state = PopState::WaitReservationRelease;
            PopStep::WaitReservation
        } else if pop_time > now {
            queue.reserve_front(self.future_id);
            self.reserve_waker = Some(ReserveWaker::new(self.future_id));
            self.state = PopState::WaitDue;
            PopStep::WaitDue(pop_time)
        } else {
            let item = queue.take_front();
            self.state = PopState::Done;
            PopStep::Ready(item)
        }
    }

    /// Ends the operation and gives up the claim it may hold.
    ///
    /// Call it with the queue's lock held when the operation is dropped,
    /// after it has taken its item or before. If the answer is `true`, wake
    /// one task that waits for a reservation to end.
    pub fn release<T>(self, queue: &mut DelayedQueue<T>) -> (wake: bool)
        ensures
            (final(queue)@, wake) == self@.end(old(queue)@),
            old(queue)@.wf() ==> final(queue)@.wf(),
    {
        match self.reserve_waker {
            Some(guard) => {
                guard.release(queue);
                true
            },
            None => false,
        }
    }
}

} // verus!
