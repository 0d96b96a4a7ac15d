//! A bounded FIFO queue whose items may leave only after a per-item delay,
//! written as a state machine with machine-checked contracts.
//!
//! The crate holds the decisions of the queue and none of its waiting. A
//! caller that shares one [`DelayedQueue`] between tasks keeps it behind a
//! lock, takes the lock for each call made here, and carries out what the
//! call hands back:
//!
//! - [`DelayedQueue::push`] answers with a [`PushStep`]: the item is in the
//!   queue, or the queue is full and the caller waits for room and pushes
//!   again;
//! - [`DelayedQueue::pop`] issues a [`DelayedPopFuture`], and each
//!   [`DelayedPopFuture::poll`] answers with a [`PopStep`]: wait for an item,
//!   wait for another operation to give up its claim on the front item, sleep
//!   until the front item is due, or take the payload;
//! - [`DelayedPopFuture::release`] ends an operation, finished or abandoned,
//!   and gives back whatever claim it still holds.
//!
//! Instants and delays are `u64` counts of one unit of time (nanoseconds, say)
//! from an origin that the caller picks.
//!
//! The module [`protocol`] states, over every interleaving of these calls,
//! what the queue guarantees: delivery in insertion order, each item handed
//! out at most once and never before it is due, and no claim that outlives
//! the operation that made it.

pub mod future;
pub mod item;
pub mod protocol;
pub mod queue;
pub mod reserve;

pub use crate::future::{DelayedPopFuture, PopOp, PopState, PopStep};
pub use crate::item::DelayItem;
pub use crate::queue::{DelayedQueue, PushStep, QueueState};
pub use crate::reserve::ReserveWaker;
