//! Bounded FIFO queues that bridge the generation worker and the responders.
use vstd::prelude::*;

verus! {

/// Why an item could not be enqueued. The item is handed back unchanged.
pub enum PushError<T> {
    /// The queue holds as many items as its capacity: the producer must wait.
    Full(T),
    /// The queue was closed for good: nobody will ever take the item.
    Closed(T),
}

/// What an attempt to dequeue yields.
pub enum Popped<T> {
    /// The oldest item of the queue.
    Item(T),
    /// Nothing is queued yet: the consumer must wait.
    Empty,
    /// Nothing is queued and nothing ever will be.
    Closed,
}

/// A first-in first-out queue that never holds more than `capacity` items.
///
/// A full queue refuses a push instead of growing, which is how a fast
/// producer is held to the pace of its consumer.
pub struct BoundedQueue<T> {
    items: Vec<T>,
    capacity: usize,
    closed: bool,
}

impl<T> View for BoundedQueue<T> {
    type V = Seq<T>;

    /// The queued items, oldest first.
    closed spec fn view(&self) -> Seq<T> {
        self.items@
    }
}

impl<T> BoundedQueue<T> {
    /// The most items the queue may hold.
    pub closed spec fn cap(&self) -> nat {
        self.capacity as nat
    }

    /// Whether the queue was closed.
    pub closed spec fn is_shut(&self) -> bool {
        self.closed
    }

    pub open spec fn wf(&self) -> bool {
        self@.len() <= self.cap()
    }

    pub fn new(capacity: usize) -> (r: Self)
        ensures
            r.wf(),
            r@ == Seq::<T>::empty(),
            r.cap() == capacity,
            !r.is_shut(),
    {
        BoundedQueue { items: Vec::new(), capacity, closed: false }
    }

    pub fn capacity(&self) -> (r: usize)
        ensures
            r == self.cap(),
    {
        self.capacity
    }

    pub fn len(&self) -> (r: usize)
        ensures
            r == self@.len(),
    {
        self.items.len()
    }

    pub fn is_empty(&self) -> (r: bool)
        ensures
            r == (self@.len() == 0),
    {
        self.items.len() == 0
    }

    pub fn is_full(&self) -> (r: bool)
        ensures
            r == (self@.len() >= self.cap()),
    {
        self.items.len() >= self.capacity
    }

    pub fn is_closed(&self) -> (r: bool)
        ensures
            r == self.is_shut(),
    {
        self.closed
    }

    /// Appends `item` at the back, unless the queue is closed or full.
    pub fn try_push(&mut self, item: T) -> (r: Result<(), PushError<T>>)
        requires
            old(self).wf(),
        ensures
            final(self).wf(),
            final(self).cap() == old(self).cap(),
            final(self).is_shut() == old(self).is_shut(),
            old(self).is_shut() ==> r == Err::<(), PushError<T>>(PushError::Closed(item))
                && final(self)@ == old(self)@,
            !old(self).is_shut() && old(self)@.len() >= old(self).cap() ==> r == Err::<
                (),
                PushError<T>,
            >(PushError::Full(item)) && final(self)@ == old(self)@,
            !old(self).is_shut() && old(self)@.len() < old(self).cap() ==> r is Ok
                && final(self)@ == old(self)@.push(item),
    {
        if self.closed {
            Err(PushError::Closed(item))
        } else if self.items.len() >= self.capacity {
            Err(PushError::Full(item))
        } else {
            self.items.push(item);
            Ok(())
        }
    }

    /// Takes the oldest item. Items queued before the queue was closed are
    /// still handed out; only an empty closed queue reports `Closed`.
    pub fn try_pop(&mut self) -> (r: Popped<T>)
        requires
            old(self).wf(),
        ensures
            final(self).wf(),
            final(self).cap() == old(self).cap(),
            final(self).is_shut() == old(self).is_shut(),
            old(self)@.len() > 0 ==> r == Popped::Item(old(self)@[0]) && final(self)@
                == old(self)@.drop_first(),
            old(self)@.len() == 0 ==> final(self)@ == old(self)@ && (if old(self).is_shut() {
                r is Closed
            } else {
                r is Empty
            }),
    {
        if self.items.len() > 0 {
            let item = self.items.remove(0);
            Popped::Item(item)
        } else if self.closed {
            Popped::Closed
        } else {
            Popped::Empty
        }
    }

    /// Closes the queue for good: later pushes are refused.
    pub fn close(&mut self)
        requires
            old(self).wf(),
        ensures
            final(self).wf(),
            final(self)@ == old(self)@,
            final(self).cap() == old(self).cap(),
            final(self).is_shut(),
    {
        self.closed = true;
    }
}

} // verus!
