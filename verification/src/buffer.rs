//! The bounded, lossy in-memory event buffer between producers and the
//! batcher.
//!
//! The store is crossbeam's `ArrayQueue`, reached only through trusted
//! wrappers whose contracts speak about the queue's contents as a sequence.
//! `push` fails instead of blocking when the buffer is at capacity: dropping
//! under overload is the backpressure mechanism. Draining preserves FIFO
//! order and is the only way events leave in bulk.

use vstd::prelude::*;

use crossbeam::queue::ArrayQueue;

use crate::events::{event_v_wf, events_v_wf, Event, EventV};

verus! {

#[verifier::external_type_specification]
#[verifier::external_body]
#[verifier::reject_recursive_types(T)]
pub struct ExArrayQueue<T>(ArrayQueue<T>);

/// The events currently queued, oldest first.
pub uninterp spec fn queue_contents(q: ArrayQueue<Event>) -> Seq<Event>;

/// The fixed capacity the queue was created with.
pub uninterp spec fn queue_capacity(q: ArrayQueue<Event>) -> nat;

/// Relies on ArrayQueue::new: an empty queue with the given capacity; the
/// call panics on capacity zero, so that is excluded here.
#[verifier::external_body]
fn aq_new(capacity: usize) -> (q: ArrayQueue<Event>)
    requires
        capacity >= 1,
    ensures
        queue_contents(q) == Seq::<Event>::empty(),
        queue_capacity(q) == capacity,
{
    ArrayQueue::new(capacity)
}

/// Relies on ArrayQueue::push: enqueues at the tail, or hands the value
/// back when the queue is full.
#[verifier::external_body]
fn aq_push(q: &mut ArrayQueue<Event>, e: Event) -> (r: Result<(), Event>)
    ensures
        queue_capacity(*final(q)) == queue_capacity(*old(q)),
        queue_contents(*old(q)).len() < queue_capacity(*old(q)) ==> r is Ok && queue_contents(
            *final(q),
        ) == queue_contents(*old(q)).push(e),
        queue_contents(*old(q)).len() >= queue_capacity(*old(q)) ==> r is Err && queue_contents(
            *final(q),
        ) == queue_contents(*old(q)),
{
    q.push(e)
}

/// Relies on ArrayQueue::pop: dequeues the oldest element, if any.
#[verifier::external_body]
fn aq_pop(q: &mut ArrayQueue<Event>) -> (r: Option<Event>)
    ensures
        queue_capacity(*final(q)) == queue_capacity(*old(q)),
        queue_contents(*old(q)).len() == 0 ==> r is None && queue_contents(*final(q))
            == queue_contents(*old(q)),
        queue_contents(*old(q)).len() > 0 ==> r == Some(queue_contents(*old(q))[0])
            && queue_contents(*final(q)) == queue_contents(*old(q)).drop_first(),
{
    q.pop()
}

/// Relies on ArrayQueue::len: the number of queued elements.
#[verifier::external_body]
fn aq_len(q: &ArrayQueue<Event>) -> (r: usize)
    ensures
        r == queue_contents(*q).len(),
{
    q.len()
}

/// Relies on ArrayQueue::is_empty.
#[verifier::external_body]
fn aq_is_empty(q: &ArrayQueue<Event>) -> (r: bool)
    ensures
        r == (queue_contents(*q).len() == 0),
{
    q.is_empty()
}

/// Relies on ArrayQueue::is_full.
#[verifier::external_body]
fn aq_is_full(q: &ArrayQueue<Event>) -> (r: bool)
    ensures
        r == (queue_contents(*q).len() >= queue_capacity(*q)),
{
    q.is_full()
}

/// Relies on ArrayQueue::capacity.
#[verifier::external_body]
fn aq_capacity(q: &ArrayQueue<Event>) -> (r: usize)
    ensures
        r == queue_capacity(*q),
{
    q.capacity()
}

/// Overflow when pushing into a full buffer.
#[derive(Debug, Clone, Copy, PartialEq, Eq, Structural)]
pub struct BufferOverflow;

/// Bounded, lossy FIFO event queue.
pub struct RingBuffer {
    queue: ArrayQueue<Event>,
}

impl RingBuffer {
    /// The queued events, oldest first.
    pub closed spec fn view_contents(&self) -> Seq<Event> {
        queue_contents(self.queue)
    }

    /// The queued events as spec-level values, oldest first.
    pub open spec fn contents(&self) -> Seq<EventV> {
        self.view_contents().map_values(|e: Event| e.deep_view())
    }

    pub closed spec fn capacity_spec(&self) -> nat {
        queue_capacity(self.queue)
    }

    /// The buffer's invariant: never over capacity, and every queued event
    /// is well formed. Established by `new` and kept by every operation, it
    /// is what makes "push fails exactly at capacity" the overflow law.
    pub open spec fn inv(&self) -> bool {
        &&& self.contents().len() <= self.capacity_spec()
        &&& events_v_wf(self.contents())
    }

    pub fn new(capacity: usize) -> (r: RingBuffer)
        requires
            capacity >= 1,
        ensures
            r.contents() == Seq::<EventV>::empty(),
            r.capacity_spec() == capacity,
            r.inv(),
    {
        let r = RingBuffer { queue: aq_new(capacity) };
        proof {
            assert(r.contents() =~= Seq::<EventV>::empty());
        }
        r
    }

    /// Enqueues one event; fails with overflow exactly when the buffer is
    /// at capacity, in which case the event is dropped.
    pub fn push(&mut self, event: Event) -> (r: Result<(), BufferOverflow>)
        requires
            event_v_wf(event.deep_view()),
        ensures
            old(self).inv() ==> final(self).inv(),
            final(self).capacity_spec() == old(self).capacity_spec(),
            old(self).contents().len() < old(self).capacity_spec() ==> r is Ok
                && final(self).contents() == old(self).contents().push(event.deep_view()),
            old(self).contents().len() >= old(self).capacity_spec() ==> r is Err
                && final(self).contents() == old(self).contents(),
    {
        let ghost pre = queue_contents(self.queue);
        match aq_push(&mut self.queue, event) {
            Ok(()) => {
                proof {
                    assert(self.contents() =~= old(self).contents().push(event.deep_view()));
                }
                Ok(())
            },
            Err(_) => Err(BufferOverflow),
        }
    }

    /// Dequeues the oldest event, if any.
    pub fn pop(&mut self) -> (r: Option<Event>)
        ensures
            old(self).inv() ==> final(self).inv(),
            final(self).capacity_spec() == old(self).capacity_spec(),
            old(self).contents().len() == 0 ==> r is None
                && final(self).contents() == old(self).contents(),
            old(self).contents().len() > 0 ==> {
                &&& r matches Some(e) && e.deep_view() == old(self).contents()[0]
                &&& final(self).contents() == old(self).contents().drop_first()
            },
    {
        let r = aq_pop(&mut self.queue);
        proof {
            if queue_contents(old(self).queue).len() > 0 {
                assert(self.contents() =~= old(self).contents().drop_first());
                assert(old(self).contents()[0] == queue_contents(old(self).queue)[0].deep_view());
            } else {
                assert(self.contents() =~= old(self).contents());
            }
        }
        r
    }


    /// Pops up to `max_count` events, oldest first; the buffer keeps
    /// exactly the remainder, so its length shrinks by
    /// `min(max_count, len)`.
    pub fn drain(&mut self, max_count: usize) -> (r: Vec<Event>)
        ensures
            old(self).inv() ==> final(self).inv(),
            final(self).capacity_spec() == old(self).capacity_spec(),
            r.deep_view() == old(self).contents().take(
                vstd::math::min(max_count as int, old(self).contents().len() as int),
            ),
            final(self).contents() == old(self).contents().skip(
                vstd::math::min(max_count as int, old(self).contents().len() as int),
            ),
            r.deep_view().len() == vstd::math::min(
                max_count as int,
                old(self).contents().len() as int,
            ),
    {
        let ghost q0 = queue_contents(old(self).queue);
        let mut events: Vec<Event> = Vec::new();
        let mut k: usize = 0;
        while k < max_count
            invariant
                q0 == queue_contents(old(self).queue),
                k <= max_count,
                queue_capacity(self.queue) == queue_capacity(old(self).queue),
                events@.len() <= k,
                events@.len() <= q0.len(),
                events@ == q0.take(events@.len() as int),
                queue_contents(self.queue) == q0.skip(events@.len() as int),
                events@.len() == k || queue_contents(self.queue).len() == 0,
            decreases max_count - k,
        {
            let ghost done = events@.len() as int;
            match aq_pop(&mut self.queue) {
                Some(e) => {
                    events.push(e);
                    proof {
                        assert(q0.skip(done).len() > 0);
                        assert(done < q0.len());
                        assert(q0.skip(done)[0] == q0[done]);
                        assert(events@ =~= q0.take(done + 1));
                        assert(q0.skip(done).drop_first() =~= q0.skip(done + 1));
                    }
                },
                None => {
                    proof {
                        let n = events@.len() as int;
                        assert(q0.skip(n).len() == 0);
                        assert(n == q0.len());
                        let m = vstd::math::min(max_count as int, q0.len() as int);
                        assert(n == m);
                        assert(events.deep_view() =~= old(self).contents().take(m)) by {
                            assert(forall|i: int|
                                0 <= i < m ==> #[trigger] events@[i] == q0.take(n)[i] && q0.take(
                                    n,
                                )[i] == q0[i]);
                        }
                        assert(self.contents() =~= old(self).contents().skip(m));
                    }
                    return events;
                },
            }
            k = k + 1;
        }
        proof {
            let n = events@.len() as int;
            let m = vstd::math::min(max_count as int, q0.len() as int);
            assert(n == k || q0.skip(n).len() == 0);
            assert(n == m);
            assert(events.deep_view() =~= old(self).contents().take(m)) by {
                assert(forall|i: int|
                    0 <= i < m ==> #[trigger] events@[i] == q0.take(n)[i] && q0.take(n)[i]
                        == q0[i]);
            }
            assert(self.contents() =~= old(self).contents().skip(m));
        }
        events
    }

    /// The number of queued events.
    pub fn len(&self) -> (r: usize)
        ensures
            r == self.contents().len(),
    {
        aq_len(&self.queue)
    }

    pub fn is_empty(&self) -> (r: bool)
        ensures
            r == (self.contents().len() == 0),
    {
        aq_is_empty(&self.queue)
    }

    pub fn is_full(&self) -> (r: bool)
        ensures
            r == (self.contents().len() >= self.capacity_spec()),
    {
        aq_is_full(&self.queue)
    }

    pub fn capacity(&self) -> (r: usize)
        ensures
            r == self.capacity_spec(),
    {
        aq_capacity(&self.queue)
    }
}

} // verus!
