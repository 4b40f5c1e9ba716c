//! The bounded per-category ingestion queue: a FIFO of fixed capacity that
//! decouples the synchronous notification callback from asynchronous
//! publishing.
//!
//! A full queue never drops or corrupts data: the producer is told to wait
//! (backpressure propagates to the caller), and after the queue is closed the
//! consumer can still drain what was already accepted, then sees the closed
//! condition.

use vstd::prelude::*;

use std::collections::VecDeque;

verus! {

/// The abstract state of a channel: its queued items in arrival order, its
/// fixed capacity, and whether it has been closed.
#[verifier::ext_equal]
pub struct ChannelView<T> {
    pub contents: Seq<T>,
    pub capacity: nat,
    pub closed: bool,
}

/// What an enqueue attempt did. `Full` and `Closed` hand the rejected event
/// back to the caller: nothing is ever silently dropped.
pub enum EnqueueResult<T> {
    /// The event was appended to the queue.
    Accepted,
    /// The queue is at capacity; the caller must wait for the consumer to
    /// make room and try again.
    Full(T),
    /// The queue was closed; no further events are accepted.
    Closed(T),
}

/// What a dequeue attempt found.
pub enum DequeueResult<T> {
    /// The oldest queued event.
    Item(T),
    /// Nothing queued, but the channel is still open: the consumer would
    /// wait.
    Empty,
    /// Nothing queued and the channel is closed: the normal drain-complete
    /// signal during shutdown.
    Disconnected,
}

/// The enqueue transition: on an open, non-full channel the event is
/// appended; otherwise the channel is unchanged and the outcome says why.
pub open spec fn spec_enqueue<T>(c: ChannelView<T>, v: T) -> (ChannelView<T>, EnqueueResult<T>) {
    if c.closed {
        (c, EnqueueResult::Closed(v))
    } else if c.contents.len() >= c.capacity {
        (c, EnqueueResult::Full(v))
    } else {
        (ChannelView { contents: c.contents.push(v), ..c }, EnqueueResult::Accepted)
    }
}

/// The dequeue transition: the oldest item leaves first; an empty closed
/// channel reports disconnection, an empty open one would make the consumer
/// wait.
pub open spec fn spec_dequeue<T>(c: ChannelView<T>) -> (ChannelView<T>, DequeueResult<T>) {
    if c.contents.len() > 0 {
        (ChannelView { contents: c.contents.skip(1), ..c }, DequeueResult::Item(c.contents[0]))
    } else if c.closed {
        (c, DequeueResult::Disconnected)
    } else {
        (c, DequeueResult::Empty)
    }
}

/// Closing only sets the flag: items already accepted stay for draining.
pub open spec fn spec_close<T>(c: ChannelView<T>) -> ChannelView<T> {
    ChannelView { closed: true, ..c }
}

/// A bounded FIFO queue, one per event category.
pub struct IngestionChannel<T> {
    items: VecDeque<T>,
    capacity: usize,
    closed: bool,
}

impl<T> View for IngestionChannel<T> {
    type V = ChannelView<T>;

    closed spec fn view(&self) -> ChannelView<T> {
        ChannelView {
            contents: self.items@,
            capacity: self.capacity as nat,
            closed: self.closed,
        }
    }
}

impl<T> IngestionChannel<T> {
    /// An open, empty channel of the given capacity.
    pub fn new(capacity: usize) -> (c: Self)
        ensures
            c@.contents == Seq::<T>::empty(),
            c@.capacity == capacity,
            !c@.closed,
    {
        IngestionChannel { items: VecDeque::new(), capacity, closed: false }
    }

    pub fn len(&self) -> (n: usize)
        ensures
            n == self@.contents.len(),
    {
        self.items.len()
    }

    pub fn capacity(&self) -> (n: usize)
        ensures
            n == self@.capacity,
    {
        self.capacity
    }

    pub fn is_closed(&self) -> (b: bool)
        ensures
            b == self@.closed,
    {
        self.closed
    }

    /// Offer an event to the queue. On a full queue the event comes back as
    /// `Full` and the queue is unchanged: the caller is expected to wait and
    /// retry, so backpressure reaches the producer instead of data being
    /// dropped. After `close`, events come back as `Closed`.
    pub fn enqueue(&mut self, v: T) -> (r: EnqueueResult<T>)
        ensures
            (final(self)@, r) == spec_enqueue(old(self)@, v),
    {
        if self.closed {
            EnqueueResult::Closed(v)
        } else if self.items.len() >= self.capacity {
            EnqueueResult::Full(v)
        } else {
            self.items.push_back(v);
            proof {
                assert(self@ =~= spec_enqueue(old(self)@, v).0);
            }
            EnqueueResult::Accepted
        }
    }

    /// Take the oldest queued event. Items accepted before a close are still
    /// handed out; only an empty closed channel reports `Disconnected`.
    pub fn dequeue(&mut self) -> (r: DequeueResult<T>)
        ensures
            (final(self)@, r) == spec_dequeue(old(self)@),
    {
        match self.items.pop_front() {
            Some(v) => {
                proof {
                    assert(self@ =~= spec_dequeue(old(self)@).0);
                }
                DequeueResult::Item(v)
            },
            None => {
                if self.closed {
                    DequeueResult::Disconnected
                } else {
                    DequeueResult::Empty
                }
            },
        }
    }

    /// Stop accepting new events; queued events remain for draining.
    pub fn close(&mut self)
        ensures
            final(self)@ == spec_close(old(self)@),
    {
        self.closed = true;
        proof {
            assert(self@ =~= spec_close(old(self)@));
        }
    }
}

/// Backpressure: on a full open channel the next enqueue neither drops data
/// nor errors; the event is handed back to wait. As soon as the consumer
/// dequeues once, the same event is accepted, behind everything already
/// queued.
pub proof fn lemma_backpressure<T>(c: ChannelView<T>, v: T)
    requires
        !c.closed,
        c.contents.len() == c.capacity,
        c.capacity > 0,
    ensures
        spec_enqueue(c, v) == (c, EnqueueResult::Full(v)),
        ({
            let after_dequeue = spec_dequeue(c).0;
            let (c2, r2) = spec_enqueue(after_dequeue, v);
            r2 == EnqueueResult::<T>::Accepted && c2.contents == c.contents.skip(1).push(v)
        }),
{
}

/// FIFO order: events leave the queue in arrival order; in particular two
/// successive dequeues yield the two oldest items in order.
pub proof fn lemma_fifo_order<T>(c: ChannelView<T>)
    requires
        c.contents.len() >= 2,
    ensures
        ({
            let (c1, r1) = spec_dequeue(c);
            let (c2, r2) = spec_dequeue(c1);
            r1 == DequeueResult::Item(c.contents[0]) && r2 == DequeueResult::Item(c.contents[1])
        }),
{
    let (c1, r1) = spec_dequeue(c);
    assert(c1.contents[0] == c.contents[1]);
}

/// Draining after close: closing loses nothing; every item accepted before
/// the close is still dequeued, in order, and only then does the consumer
/// see the closed signal.
pub proof fn lemma_drain_after_close<T>(c: ChannelView<T>)
    ensures
        spec_close(c).contents == c.contents,
        ({
            let (c2, r2) = spec_dequeue(spec_close(c));
            c.contents.len() > 0 ==> r2 == DequeueResult::Item(c.contents[0])
        }),
        ({
            let (c2, r2) = spec_dequeue(spec_close(c));
            c.contents.len() == 0 ==> r2 == DequeueResult::<T>::Disconnected
        }),
{
}

} // verus!
