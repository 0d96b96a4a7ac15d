//! The queue among its users: every interleaving of pushes, new pop
//! operations, steps and releases, and what holds of all of them.
//!
//! A [`World`] is one queue, the pop operations that are alive, and a ledger
//! of what was accepted and what was handed out. An [`Event`] is one call of
//! the library made under the queue's lock; [`World::next`] applies it with
//! the very functions that the contracts of the calls are stated with.

use crate::future::{PopOp, PopStep};
use crate::queue::{PushStep, QueueState};
use vstd::prelude::*;

verus! {

/// An item that a push put into the queue.
pub struct Accepted<T> {
    /// The payload.
    pub item: T,
    /// The instant of the push.
    pub now: u64,
    /// The delay asked for.
    pub delay: u64,
}

/// An item that a pop operation took out of the queue.
pub struct Delivered<T> {
    /// The payload.
    pub item: T,
    /// The instant of the step that took it.
    pub at: u64,
    /// The id of the operation that took it.
    pub by: u64,
}

/// One call made under the queue's lock.
pub enum Event<T> {
    /// `push(item, now, delay)`.
    Push { item: T, now: u64, delay: u64 },
    /// `pop()`: a new operation comes to life.
    Pop,
    /// `poll` of the operation `id` at the instant `now`.
    Poll { id: u64, now: u64 },
    /// `release` of the operation `id`: it is dropped, finished or not.
    Release { id: u64 },
}

/// A queue, its live operations and the ledger of its traffic.
pub struct World<T> {
    /// The queue.
    pub queue: QueueState<T>,
    /// The operations that were issued and not yet released, by id.
    pub ops: Map<u64, PopOp>,
    /// Every item accepted so far, in the order of acceptance.
    pub accepted: Seq<Accepted<T>>,
    /// Every item handed out so far, in the order of delivery.
    pub delivered: Seq<Delivered<T>>,
}

impl<T> World<T> {
    /// A new queue of the given capacity, with no operation alive.
    pub open spec fn init(max_size: usize) -> Self {
        World {
            queue: QueueState::empty(max_size),
            ops: Map::empty(),
            accepted: Seq::empty(),
            delivered: Seq::empty(),
        }
    }

    /// The event is a step that takes an item out of the queue.
    pub open spec fn delivers(self, e: Event<T>) -> bool {
        &&& e matches Event::Poll { id, now }
        &&& self.ops.contains_key(id)
        &&& self.ops[id].step(self.queue, now).2 is Ready
    }

    /// The world after one event.
    ///
    /// A call that its contract rules out (a push whose due instant does not
    /// fit, a pop when the ids are used up, a step or release of an operation
    /// that is not alive) leaves the world as it is.
    pub open spec fn next(self, e: Event<T>) -> Self {
        match e {
            Event::Push { item, now, delay } => {
                if now + delay > u64::MAX {
                    self
                } else {
                    let (queue, step) = self.queue.push(item, now, delay);
                    World {
                        queue,
                        accepted: match step {
                            PushStep::Pushed => self.accepted.push(Accepted { item, now, delay }),
                            PushStep::WaitOccupancy(_) => self.accepted,
                        },
                        ..self
                    }
                }
            },
            Event::Pop => {
                if self.queue.counter == u64::MAX {
                    self
                } else {
                    World {
                        queue: self.queue.issued(),
                        ops: self.ops.insert(self.queue.counter, PopOp::fresh(self.queue.counter)),
                        ..self
                    }
                }
            },
            Event::Poll { id, now } => {
                if !self.ops.contains_key(id) {
                    self
                } else {
                    let (op, queue, step) = self.ops[id].step(self.queue, now);
                    World {
                        queue,
                        ops: self.ops.insert(id, op),
                        delivered: match step {
                            PopStep::Ready(item) => self.delivered.push(
                                Delivered { item, at: now, by: id },
                            ),
                            _ => self.delivered,
                        },
                        ..self
                    }
                }
            },
            Event::Release { id } => {
                if !self.ops.contains_key(id) {
                    self
                } else {
                    World {
                        queue: self.ops[id].end(self.queue).0,
                        ops: self.ops.remove(id),
                        ..self
                    }
                }
            },
        }
    }

    /// The world after a sequence of events.
    pub open spec fn run(self, events: Seq<Event<T>>) -> Self
        decreases events.len(),
    {
        if events.len() == 0 {
            self
        } else {
            self.run(events.drop_last()).next(events.last())
        }
    }

    /// Every live operation carries its own id, an id that was issued and is
    /// not `0`, and its guard, if it has one, watches under that id.
    pub open spec fn ops_sound(self) -> bool {
        forall|id: u64| #[trigger]
            self.ops.contains_key(id) ==> {
                &&& self.ops[id].id == id
                &&& 1 <= id < self.queue.counter
                &&& self.ops[id].guard is Some ==> self.ops[id].guard == Some(id)
            }
    }

    /// A claim and its holder go together: the claim on the front item is
    /// that of a live, unfinished operation with a guard, and an unfinished
    /// operation with a guard holds the front item.
    pub open spec fn claims_sound(self) -> bool {
        &&& self.queue.items.len() > 0 && self.queue.items[0].reserved != 0 ==> {
            let holder = self.queue.items[0].reserved;
            &&& self.ops.contains_key(holder)
            &&& self.ops[holder].guard is Some
            &&& !self.ops[holder].is_done()
        }
        &&& forall|id: u64| #[trigger]
            self.ops.contains_key(id) && self.ops[id].guard is Some && !self.ops[id].is_done()
                ==> self.queue.front_held_by(id)
    }

    /// The ledger agrees with the queue: what was accepted is, in order, what
    /// was handed out followed by what still waits, and nothing was handed
    /// out before its delay had passed.
    pub open spec fn ledger_sound(self) -> bool {
        &&& self.accepted.len() == self.delivered.len() + self.queue.items.len()
        &&& forall|k: int|
            0 <= k < self.delivered.len() ==> {
                &&& (#[trigger] self.delivered[k]).item == self.accepted[k].item
                &&& self.delivered[k].at >= self.accepted[k].now + self.accepted[k].delay
            }
        &&& forall|j: int|
            0 <= j < self.queue.items.len() ==> {
                &&& (#[trigger] self.queue.items[j]).item == self.accepted[
                    self.delivered.len() + j
                ].item
                &&& self.queue.items[j].pop_time == self.accepted[self.delivered.len() + j].now
                    + self.accepted[self.delivered.len() + j].delay
            }
    }

    /// Every item was handed out to an operation of its own: the takers
    /// carry ids that were issued, a taker that is still alive is finished,
    /// and no operation took two items.
    pub open spec fn takers_sound(self) -> bool {
        &&& forall|k: int|
            0 <= k < self.delivered.len() ==> {
                &&& (#[trigger] self.delivered[k]).by < self.queue.counter
                &&& self.ops.contains_key(self.delivered[k].by) ==> self.ops[self.delivered[k].by].is_done()
            }
        &&& forall|k: int, l: int|
            0 <= k < l < self.delivered.len() ==> (#[trigger] self.delivered[k]).by != (
            #[trigger] self.delivered[l]).by
    }

    /// What holds of every world that the events can lead to.
    pub open spec fn inv(self) -> bool {
        &&& self.queue.wf()
        &&& self.ops_sound()
        &&& self.claims_sound()
        &&& self.ledger_sound()
        &&& self.takers_sound()
    }
}

/// A new world is sound.
pub proof fn init_is_sound<T>(max_size: usize)
    ensures
        World::<T>::init(max_size).inv(),
{
}

/// No event leads out of the sound worlds.
pub proof fn next_is_sound<T>(w: World<T>, e: Event<T>)
    requires
        w.inv(),
    ensures
        w.next(e).inv(),
{
    let v = w.next(e);
    assert(v.queue.wf());
    assert(v.ops_sound());
    assert(v.claims_sound());
    assert(v.ledger_sound());
    assert(v.takers_sound());
}

/// No sequence of events leads out of the sound worlds.
pub proof fn run_is_sound<T>(w: World<T>, events: Seq<Event<T>>)
    requires
        w.inv(),
    ensures
        w.run(events).inv(),
    decreases events.len(),
{
    if events.len() > 0 {
        run_is_sound(w, events.drop_last());
        next_is_sound(w.run(events.drop_last()), events.last());
    }
}

/// The queue's invariants hold at all times: whatever was called on a new
/// queue, in whatever order, it holds no more items than its capacity, only
/// its front item is claimed, at most by one operation, and that operation
/// is alive, unfinished and has a guard.
pub proof fn invariants_hold<T>(max_size: usize, events: Seq<Event<T>>)
    ensures
        ({
            let w = World::<T>::init(max_size).run(events);
            &&& w.inv()
            &&& w.queue.max_size == max_size
            &&& w.queue.items.len() <= max_size
            &&& forall|j: int|
                0 <= j < w.queue.items.len() && (#[trigger] w.queue.items[j]).reserved != 0 ==> {
                    let holder = w.queue.items[j].reserved;
                    &&& j == 0
                    &&& w.ops.contains_key(holder)
                    &&& w.ops[holder].guard == Some(holder)
                    &&& !w.ops[holder].is_done()
                }
        }),
{
    let w0 = World::<T>::init(max_size);
    init_is_sound::<T>(max_size);
    run_is_sound(w0, events);
    capacity_is_fixed(w0, events);
}

/// The capacity never changes.
pub proof fn capacity_is_fixed<T>(w: World<T>, events: Seq<Event<T>>)
    ensures
        w.run(events).queue.max_size == w.queue.max_size,
    decreases events.len(),
{
    if events.len() > 0 {
        capacity_is_fixed(w, events.drop_last());
    }
}

/// Delivery is first in, first out: whatever was called on a new queue, the
/// k-th payload handed out is the k-th payload accepted. Delays decide when
/// the front item leaves, never which item leaves next.
pub proof fn fifo_delivery<T>(max_size: usize, events: Seq<Event<T>>)
    ensures
        ({
            let w = World::<T>::init(max_size).run(events);
            &&& w.delivered.len() <= w.accepted.len()
            &&& forall|k: int|
                0 <= k < w.delivered.len() ==> (#[trigger] w.delivered[k]).item
                    == w.accepted[k].item
        }),
{
    invariants_hold(max_size, events);
}

/// Nothing is lost and nothing is handed out twice: at any time the payloads
/// accepted so far are exactly the payloads handed out so far followed by
/// those of the items that still wait in the queue.
pub proof fn exactly_once_delivery<T>(max_size: usize, events: Seq<Event<T>>)
    ensures
        ({
            let w = World::<T>::init(max_size).run(events);
            w.accepted.map_values(|a: Accepted<T>| a.item) == w.delivered.map_values(
                |d: Delivered<T>| d.item,
            ) + w.queue.items.map_values(|i: crate::item::DelayItem<T>| i.item)
        }),
{
    invariants_hold(max_size, events);
    let w = World::<T>::init(max_size).run(events);
    let accepted = w.accepted.map_values(|a: Accepted<T>| a.item);
    let delivered = w.delivered.map_values(|d: Delivered<T>| d.item);
    let waiting = w.queue.items.map_values(|i: crate::item::DelayItem<T>| i.item);
    assert(accepted.len() == (delivered + waiting).len());
    assert forall|k: int| 0 <= k < accepted.len() implies accepted[k] == (delivered + waiting)[k] by {
        if k < delivered.len() {
            assert(w.delivered[k].item == w.accepted[k].item);
        } else {
            let j = k - delivered.len();
            assert(w.queue.items[j].item == w.accepted[w.delivered.len() + j].item);
        }
    }
    assert(accepted =~= delivered + waiting);
}

/// One item for each operation: no operation is handed two items, and an
/// operation that was handed an item is finished for as long as it lives.
/// With [`exactly_once_delivery`], each item that left the queue went to
/// one completed operation and to no other.
pub proof fn one_item_per_operation<T>(max_size: usize, events: Seq<Event<T>>)
    ensures
        ({
            let w = World::<T>::init(max_size).run(events);
            &&& forall|k: int, l: int|
                0 <= k < l < w.delivered.len() ==> (#[trigger] w.delivered[k]).by != (
                #[trigger] w.delivered[l]).by
            &&& forall|k: int|
                0 <= k < w.delivered.len() && w.ops.contains_key((#[trigger] w.delivered[k]).by)
                    ==> w.ops[w.delivered[k].by].is_done()
        }),
{
    invariants_hold(max_size, events);
}

/// No item leaves early: an item pushed at the instant `now` with the delay
/// `delay` is handed out by a step made at `now + delay` or later.
pub proof fn delay_lower_bound<T>(max_size: usize, events: Seq<Event<T>>)
    ensures
        ({
            let w = World::<T>::init(max_size).run(events);
            forall|k: int|
                0 <= k < w.delivered.len() ==> (#[trigger] w.delivered[k]).at >= w.accepted[k].now
                    + w.accepted[k].delay
        }),
{
    invariants_hold(max_size, events);
}

/// One event on a full queue: nothing is accepted, and the queue stays full
/// unless the event is a step that takes an item out.
pub proof fn full_queue_refuses<T>(w: World<T>, e: Event<T>)
    requires
        w.queue.is_full(),
    ensures
        w.next(e).accepted == w.accepted,
        w.next(e).delivered.len() >= w.delivered.len(),
        w.next(e).delivered.len() == w.delivered.len() ==> w.next(e).queue.is_full(),
        w.next(e).delivered.len() > w.delivered.len() ==> w.delivers(e),
{
}

/// Backpressure: from the moment the queue is full, no push is accepted
/// until a pop operation has taken an item out. Whatever is called
/// meanwhile, the queue stays full and every push gets its item back.
pub proof fn backpressure<T>(w: World<T>, events: Seq<Event<T>>)
    requires
        w.queue.is_full(),
    ensures
        w.run(events).delivered.len() >= w.delivered.len(),
        w.run(events).delivered.len() == w.delivered.len() ==> {
            &&& w.run(events).accepted == w.accepted
            &&& w.run(events).queue.is_full()
        },
    decreases events.len(),
{
    if events.len() > 0 {
        let before = w.run(events.drop_last());
        backpressure(w, events.drop_last());
        deliveries_only_grow(before, events.last());
        if before.delivered.len() == w.delivered.len() {
            full_queue_refuses(before, events.last());
        }
    }
}

/// What was handed out stays handed out.
pub proof fn deliveries_only_grow<T>(w: World<T>, e: Event<T>)
    ensures
        w.next(e).delivered.len() >= w.delivered.len(),
{
}

/// An item leaves only from the front and only when it is due: if an event
/// hands an item out, the event is a step of a live operation, the item was
/// the front item, it was due at the instant of the step, no other operation
/// had claimed it, and the items behind it move up unchanged.
pub proof fn only_due_front_leaves<T>(w: World<T>, e: Event<T>)
    requires
        w.inv(),
        w.next(e).delivered.len() > w.delivered.len(),
    ensures
        w.delivers(e),
        w.queue.items.len() > 0,
        w.queue.items[0].is_due(e->Poll_now),
        w.queue.items[0].open_to(e->Poll_id),
        w.next(e).delivered == w.delivered.push(
            Delivered { item: w.queue.items[0].item, at: e->Poll_now, by: e->Poll_id },
        ),
        w.next(e).queue.items == w.queue.items.drop_first(),
{
}

/// No operation is sent to wait in vain. When a step of a live operation
/// answers that the caller waits, what it waits for is yet to come: the
/// queue is empty; or the front item is claimed by another operation, which
/// is alive and has a guard, so that its release will ask for a wake-up; or
/// the front item is not due before the instant given, and is from now on
/// claimed by the operation itself.
pub proof fn no_wait_in_vain<T>(w: World<T>, id: u64, now: u64)
    requires
        w.inv(),
        w.ops.contains_key(id),
    ensures
        ({
            let v = w.next(Event::Poll { id, now });
            let step = w.ops[id].step(w.queue, now).2;
            &&& step is WaitOccupancy ==> w.queue.items.len() == 0
            &&& step is WaitReservation ==> {
                let holder = w.queue.items[0].reserved;
                &&& w.queue.items.len() > 0
                &&& holder != id
                &&& v.ops.contains_key(holder)
                &&& !v.ops[holder].is_done()
                &&& v.ops[holder].end(v.queue).1
            }
            &&& step matches PopStep::WaitDue(until) ==> {
                &&& now < until
                &&& v.queue.items.len() > 0
                &&& until == v.queue.items[0].pop_time
                &&& v.queue.front_held_by(id)
                &&& v.ops[id].guard == Some(id)
            }
        }),
{
}

/// A claim ends only through the operation that made it, and its end is
/// announced. If the front item carries the claim of `holder` and after an
/// event it does not, then the event is the release of `holder`, which asks
/// for a wake-up, or a step of `holder` that takes the item; in that case
/// `holder` is still alive with its guard, so that its release, when it
/// comes, asks for the wake-up.
pub proof fn claim_ends_only_by_its_holder<T>(w: World<T>, e: Event<T>, holder: u64)
    requires
        w.inv(),
        holder != 0,
        w.queue.front_held_by(holder),
        !w.next(e).queue.front_held_by(holder),
    ensures
        w.ops.contains_key(holder),
        e == (Event::<T>::Release { id: holder }) || (w.delivers(e) && e->Poll_id == holder),
        e == (Event::<T>::Release { id: holder }) ==> w.ops[holder].end(w.queue).1,
        e != (Event::<T>::Release { id: holder }) ==> {
            let v = w.next(e);
            &&& v.ops.contains_key(holder)
            &&& v.ops[holder].is_done()
            &&& v.ops[holder].end(v.queue) == (v.queue, true)
        },
{
}

/// At most one operation sleeps for an item at any time: of two different
/// live operations that have not taken an item, at most one has a guard.
pub proof fn one_sleeper_at_a_time<T>(max_size: usize, events: Seq<Event<T>>, a: u64, b: u64)
    requires
        a != b,
    ensures
        ({
            let w = World::<T>::init(max_size).run(events);
            w.ops.contains_key(a) && w.ops.contains_key(b) && !w.ops[a].is_done()
                && !w.ops[b].is_done() ==> w.ops[a].guard is None || w.ops[b].guard is None
        }),
{
    invariants_hold(max_size, events);
}

/// Releasing an operation, finished or abandoned, takes nothing out of the
/// queue and puts nothing in: the same items wait in the same order, and the
/// ledger is untouched. The only thing that may change is the claim on the
/// front item, which is withdrawn if it was the operation's own.
pub proof fn release_keeps_items<T>(w: World<T>, id: u64)
    requires
        w.inv(),
    ensures
        ({
            let v = w.next(Event::Release { id });
            &&& v.accepted == w.accepted
            &&& v.delivered == w.delivered
            &&& v.queue.max_size == w.queue.max_size
            &&& v.queue.counter == w.queue.counter
            &&& v.queue.items.len() == w.queue.items.len()
            &&& forall|j: int|
                0 <= j < w.queue.items.len() ==> {
                    &&& (#[trigger] v.queue.items[j]).item == w.queue.items[j].item
                    &&& v.queue.items[j].pop_time == w.queue.items[j].pop_time
                    &&& v.queue.items[j].reserved == if w.queue.items[j].reserved == id {
                        0
                    } else {
                        w.queue.items[j].reserved
                    }
                }
        }),
{
}

/// No claim outlives its operation: once an operation is released, no item
/// carries its id, so the front item is open to the others again.
pub proof fn release_frees_claim<T>(w: World<T>, id: u64)
    requires
        w.inv(),
        w.ops.contains_key(id),
    ensures
        ({
            let v = w.next(Event::Release { id });
            &&& !v.ops.contains_key(id)
            &&& forall|j: int|
                0 <= j < v.queue.items.len() ==> (#[trigger] v.queue.items[j]).reserved != id
        }),
{
}

/// The queue cannot get stuck on a due item. Let the front item be due at
/// `now` and let `id` be any live operation that has not taken an item.
/// If the item is unclaimed or claimed by `id`, a step of `id` takes it. If
/// another operation holds the claim, that operation is alive and a step of
/// it takes the item; and should it be abandoned instead, a step of `id`
/// takes the item after the release.
pub proof fn due_front_can_leave<T>(w: World<T>, id: u64, now: u64)
    requires
        w.inv(),
        w.ops.contains_key(id),
        !w.ops[id].is_done(),
        w.queue.items.len() > 0,
        w.queue.items[0].is_due(now),
    ensures
        ({
            let front = w.queue.items[0];
            let taker = if front.reserved == 0 {
                id
            } else {
                front.reserved
            };
            let v = w.next(Event::Release { id: front.reserved });
            &&& w.ops.contains_key(taker)
            &&& w.ops[taker].step(w.queue, now).2 == PopStep::Ready(front.item)
            &&& w.next(Event::Poll { id: taker, now }).queue.items == w.queue.items.drop_first()
            &&& !front.open_to(id) ==> v.ops.contains_key(id) && v.ops[id].step(v.queue, now).2
                == PopStep::Ready(front.item)
        }),
{
}

/// One step at the instant `now` for each of the given operations, in order.
pub open spec fn polls<T>(ids: Seq<u64>, now: u64) -> Seq<Event<T>> {
    Seq::new(ids.len(), |k: int| Event::Poll { id: ids[k], now })
}

/// Live operations complete once the items before theirs are due. Take any
/// number of distinct live operations that have not taken an item, no more
/// than there are items, let the items they stand for be due at `now`, and
/// let the front item be unclaimed or claimed by the first of them. If each
/// is stepped once, in order, the k-th of them takes the k-th item: all of
/// them finish, whatever was abandoned before.
pub proof fn polled_operations_complete<T>(w: World<T>, ids: Seq<u64>, now: u64)
    requires
        w.inv(),
        ids.no_duplicates(),
        ids.len() <= w.queue.items.len(),
        forall|k: int|
            0 <= k < ids.len() ==> {
                &&& w.ops.contains_key(#[trigger] ids[k])
                &&& !w.ops[ids[k]].is_done()
                &&& w.queue.items[k].is_due(now)
            },
        ids.len() > 0 ==> w.queue.items[0].open_to(ids[0]),
    ensures
        ({
            let v = w.run(polls(ids, now));
            &&& v.inv()
            &&& v.queue.items == w.queue.items.skip(ids.len() as int)
            &&& v.accepted == w.accepted
            &&& v.delivered == w.delivered + Seq::new(
                ids.len(),
                |k: int| Delivered { item: w.queue.items[k].item, at: now, by: ids[k] },
            )
            &&& v.ops.dom() == w.ops.dom()
            &&& forall|id: u64|
                w.ops.contains_key(id) ==> #[trigger] v.ops[id] == if ids.contains(id) {
                    PopOp { state: crate::future::PopState::Done, ..w.ops[id] }
                } else {
                    w.ops[id]
                }
        }),
    decreases ids.len(),
{
    let n = ids.len() as int;
    let v = w.run(polls(ids, now));
    let taken = Seq::new(
        ids.len(),
        |k: int| Delivered { item: w.queue.items[k].item, at: now, by: ids[k] },
    );
    if n == 0 {
        assert(v.queue.items =~= w.queue.items.skip(0));
        assert(v.delivered =~= w.delivered + taken);
        assert(v.ops.dom() =~= w.ops.dom());
    } else {
        let head = ids.drop_last();
        let last = ids[n - 1];
        let u = w.run(polls::<T>(head, now));
        assert(polls::<T>(ids, now).drop_last() =~= polls::<T>(head, now));
        assert(polls::<T>(ids, now).last() == (Event::<T>::Poll { id: last, now }));
        assert(v == u.next(Event::Poll { id: last, now }));
        assert forall|k: int| 0 <= k < head.len() implies {
            &&& w.ops.contains_key(#[trigger] head[k])
            &&& !w.ops[head[k]].is_done()
            &&& w.queue.items[k].is_due(now)
        } by {
            assert(head[k] == ids[k]);
        }
        if head.len() > 0 {
            assert(head[0] == ids[0]);
        }
        polled_operations_complete(w, head, now);
        let before = Seq::new(
            head.len(),
            |k: int| Delivered { item: w.queue.items[k].item, at: now, by: head[k] },
        );
        assert(!head.contains(last)) by {
            if head.contains(last) {
                let k = choose|k: int| 0 <= k < head.len() && head[k] == last;
                assert(ids[k] == ids[n - 1]);
            }
        }
        assert(u.ops.contains_key(last));
        assert(u.ops[last] == w.ops[last]);
        assert(u.queue.items[0] == w.queue.items[n - 1]);
        assert(u.queue.items[0].open_to(last)) by {
            if n - 1 > 0 {
                assert(w.queue.items[n - 1].reserved == 0);
            }
        }
        assert(u.ops[last].step(u.queue, now).2 == PopStep::Ready(w.queue.items[n - 1].item));
        assert(v.queue.items =~= w.queue.items.skip(n));
        assert(v.delivered =~= w.delivered + taken) by {
            assert(u.delivered == w.delivered + before);
            assert(v.delivered == u.delivered.push(
                Delivered { item: w.queue.items[n - 1].item, at: now, by: last },
            ));
        }
        assert(v.ops.dom() =~= w.ops.dom());
        next_is_sound(u, Event::Poll { id: last, now });
        assert forall|id: u64| w.ops.contains_key(id) implies #[trigger] v.ops[id] == if ids.contains(
            id,
        ) {
            PopOp { state: crate::future::PopState::Done, ..w.ops[id] }
        } else {
            w.ops[id]
        } by {
            if id == last {
                assert(ids.contains(id));
            } else if head.contains(id) {
                let k = choose|k: int| 0 <= k < head.len() && head[k] == id;
                assert(ids[k] == id);
                assert(ids.contains(id));
            } else {
                if ids.contains(id) {
                    let k = choose|k: int| 0 <= k < ids.len() && ids[k] == id;
                    assert(head[k] == id);
                }
            }
        }
    }
}

} // verus!
