//! What the worker tells its consumer, and the bounded queues that carry it.
//!
//! A queue that is full drops what is offered to it and counts the drop. The worker
//! never waits for the consumer and never fails because of it.

use vstd::prelude::*;

verus! {

/// The health of the worker, as the consumer sees it.
#[derive(Clone, Debug, PartialEq, Eq)]
pub enum ThreadStatus {
    Healthy(String),
    Error(String),
}

/// A status over plain text.
pub enum StatusText {
    Healthy(Seq<char>),
    Error(Seq<char>),
}

impl View for ThreadStatus {
    type V = StatusText;

    open spec fn view(&self) -> StatusText {
        match self {
            ThreadStatus::Healthy(text) => StatusText::Healthy(text@),
            ThreadStatus::Error(text) => StatusText::Error(text@),
        }
    }
}

/// A bounded queue as a value: what waits in it, how much it holds at most, and how
/// many offers it has turned down.
pub struct Queue<T> {
    pub waiting: Seq<T>,
    pub limit: nat,
    pub dropped: nat,
}

impl<T> Queue<T> {
    pub open spec fn is_full(self) -> bool {
        self.waiting.len() >= self.limit
    }

    /// What waits does not exceed the limit.
    pub open spec fn bounded(self) -> bool {
        self.waiting.len() <= self.limit
    }

    /// The queue after `item` was offered: appended if there is room, else dropped
    /// and counted. The count stops at the largest `u64`.
    pub open spec fn offer(self, item: T) -> Queue<T> {
        if self.is_full() {
            Queue {
                dropped: if self.dropped < u64::MAX {
                    self.dropped + 1
                } else {
                    self.dropped
                },
                ..self
            }
        } else {
            Queue { waiting: self.waiting.push(item), ..self }
        }
    }

    /// The queue after its head was taken.
    pub open spec fn advance(self) -> Queue<T> {
        if self.waiting.len() == 0 {
            self
        } else {
            Queue { waiting: self.waiting.drop_first(), ..self }
        }
    }
}

/// An offer never takes a queue over its limit, and never loses what already waits.
pub proof fn lemma_offer_is_safe<T>(queue: Queue<T>, item: T)
    requires
        queue.bounded(),
    ensures
        queue.offer(item).bounded(),
        queue.offer(item).limit == queue.limit,
        queue.waiting.is_prefix_of(queue.offer(item).waiting),
        queue.offer(item).dropped >= queue.dropped,
{
}

/// A queue without room takes nothing: the offer is dropped and counted, and the
/// queue is otherwise as before.
pub proof fn lemma_full_queue_drops<T>(queue: Queue<T>, item: T)
    requires
        queue.bounded(),
        queue.is_full(),
        queue.dropped < u64::MAX,
    ensures
        queue.offer(item).waiting == queue.waiting,
        queue.offer(item).dropped == queue.dropped + 1,
{
}

/// A bounded first-in first-out queue towards the consumer.
pub struct Outbox<T> {
    items: Vec<T>,
    capacity: usize,
    dropped: u64,
}

impl<T: View> View for Outbox<T> {
    type V = Queue<T::V>;

    closed spec fn view(&self) -> Queue<T::V> {
        Queue {
            waiting: self.items@.map_values(|item: T| item@),
            limit: self.capacity as nat,
            dropped: self.dropped as nat,
        }
    }
}

impl<T: View> Outbox<T> {
    /// An empty queue that holds at most `capacity` items. With capacity zero every
    /// offer is dropped.
    pub fn new(capacity: usize) -> (outbox: Outbox<T>)
        ensures
            outbox@ == (Queue::<T::V> {
                waiting: Seq::empty(),
                limit: capacity as nat,
                dropped: 0,
            }),
            outbox@.bounded(),
    {
        let outbox = Outbox { items: Vec::new(), capacity, dropped: 0 };
        assert(outbox@.waiting =~= Seq::<T::V>::empty());
        outbox
    }

    /// Offers an item. Returns whether it was taken.
    pub fn push(&mut self, item: T) -> (taken: bool)
        ensures
            final(self)@ == old(self)@.offer(item@),
            taken == !old(self)@.is_full(),
            old(self)@.bounded() ==> final(self)@.bounded(),
    {
        if self.items.len() < self.capacity {
            self.items.push(item);
            assert(final(self)@.waiting =~= old(self)@.waiting.push(item@));
            true
        } else {
            if self.dropped < u64::MAX {
                self.dropped = self.dropped + 1;
            }
            false
        }
    }

    /// The item that has waited longest.
    pub fn front(&self) -> (head: Option<&T>)
        ensures
            match head {
                Some(item) => self@.waiting.len() > 0 && item@ == self@.waiting[0],
                None => self@.waiting.len() == 0,
            },
    {
        if self.items.len() > 0 {
            Some(&self.items[0])
        } else {
            None
        }
    }

    /// Takes the item that has waited longest out of the queue.
    pub fn pop(&mut self) -> (head: Option<T>)
        ensures
            final(self)@ == old(self)@.advance(),
            old(self)@.bounded() ==> final(self)@.bounded(),
            match head {
                Some(item) => old(self)@.waiting.len() > 0 && item@ == old(self)@.waiting[0],
                None => old(self)@.waiting.len() == 0,
            },
    {
        if self.items.len() > 0 {
            let item = self.items.remove(0);
            assert(final(self)@.waiting =~= old(self)@.waiting.drop_first());
            Some(item)
        } else {
            None
        }
    }

    pub fn len(&self) -> (n: usize)
        ensures
            n == self@.waiting.len(),
    {
        self.items.len()
    }

    pub fn capacity(&self) -> (n: usize)
        ensures
            n == self@.limit,
    {
        self.capacity
    }

    /// How many offers were dropped because the queue was full.
    pub fn dropped(&self) -> (n: u64)
        ensures
            n == self@.dropped,
    {
        self.dropped
    }
}

} // verus!
