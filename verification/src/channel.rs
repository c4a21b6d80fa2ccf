//! The buffers between the threads of a server, as plain data: a mailbox
//! that holds one message, in which a newer message replaces an older one,
//! and a bounded queue.
//!
//! Neither blocks or wakes anybody. A sender that finds the queue full has to
//! wait and try again: that is the backpressure of the pipeline.

use vstd::prelude::*;
use std::collections::VecDeque;

verus! {

/// A place for one message. Posting replaces what is waiting: the last
/// message wins.
pub struct Mailbox<T> {
    waiting: Option<T>,
}

impl<T> View for Mailbox<T> {
    type V = Option<T>;

    closed spec fn view(&self) -> Option<T> {
        self.waiting
    }
}

impl<T> Mailbox<T> {
    /// An empty mailbox.
    pub fn new() -> (r: Mailbox<T>)
        ensures
            r@ == None::<T>,
    {
        Mailbox { waiting: None }
    }

    /// Leaves `message` in the mailbox and hands back the message it
    /// replaces, if one was waiting.
    pub fn post(&mut self, message: T) -> (replaced: Option<T>)
        ensures
            final(self)@ == Some(message),
            replaced == old(self)@,
    {
        let mut slot = Some(message);
        core::mem::swap(&mut self.waiting, &mut slot);
        slot
    }

    /// Takes the waiting message out, if there is one.
    pub fn take(&mut self) -> (r: Option<T>)
        ensures
            r == old(self)@,
            final(self)@ == None::<T>,
    {
        let mut slot = None;
        core::mem::swap(&mut self.waiting, &mut slot);
        slot
    }

    /// Whether a message is waiting.
    pub fn is_waiting(&self) -> (r: bool)
        ensures
            r == self@.is_some(),
    {
        self.waiting.is_some()
    }
}

/// A first-in, first-out queue that holds no more than a fixed number of
/// items.
pub struct BoundedQueue<T> {
    items: VecDeque<T>,
    capacity: usize,
}

impl<T> BoundedQueue<T> {
    #[verifier::type_invariant]
    spec fn within_capacity(self) -> bool {
        self.items@.len() <= self.capacity
    }

    /// The items in the queue, oldest first.
    pub closed spec fn items_spec(&self) -> Seq<T> {
        self.items@
    }

    /// The largest number of items the queue holds.
    pub closed spec fn capacity_spec(&self) -> usize {
        self.capacity
    }

    /// An empty queue for up to `capacity` items.
    pub fn new(capacity: usize) -> (r: BoundedQueue<T>)
        ensures
            r.items_spec() == Seq::<T>::empty(),
            r.capacity_spec() == capacity,
    {
        BoundedQueue { items: VecDeque::new(), capacity }
    }

    /// The number of items in the queue, which never exceeds the capacity.
    pub fn len(&self) -> (r: usize)
        ensures
            r == self.items_spec().len(),
            r <= self.capacity_spec(),
    {
        proof {
            use_type_invariant(self);
        }
        self.items.len()
    }

    /// The largest number of items the queue holds.
    pub fn capacity(&self) -> (r: usize)
        ensures
            r == self.capacity_spec(),
    {
        self.capacity
    }

    /// Whether the queue is full.
    pub fn is_full(&self) -> (r: bool)
        ensures
            r == (self.items_spec().len() == self.capacity_spec()),
    {
        proof {
            use_type_invariant(self);
        }
        self.items.len() >= self.capacity
    }

    /// Puts `item` at the end of the queue, or hands it back if the queue is
    /// full.
    pub fn try_push(&mut self, item: T) -> (r: Result<(), T>)
        ensures
            final(self).capacity_spec() == old(self).capacity_spec(),
            match r {
                Ok(()) => old(self).items_spec().len() < old(self).capacity_spec()
                    && final(self).items_spec() == old(self).items_spec().push(item),
                Err(back) => back == item && old(self).items_spec().len() == old(self).capacity_spec()
                    && final(self).items_spec() == old(self).items_spec(),
            },
    {
        proof {
            use_type_invariant(&*self);
        }
        if self.items.len() >= self.capacity {
            return Err(item);
        }
        let mut items = VecDeque::new();
        core::mem::swap(&mut self.items, &mut items);
        items.push_back(item);
        self.items = items;
        Ok(())
    }

    /// Takes the oldest item out of the queue.
    pub fn pop(&mut self) -> (r: Option<T>)
        ensures
            final(self).capacity_spec() == old(self).capacity_spec(),
            match r {
                Some(item) => old(self).items_spec().len() > 0 && item == old(self).items_spec()[0]
                    && final(self).items_spec() == old(self).items_spec().skip(1),
                None => old(self).items_spec().len() == 0 && final(self).items_spec()
                    == old(self).items_spec(),
            },
    {
        proof {
            use_type_invariant(&*self);
        }
        let mut items = VecDeque::new();
        core::mem::swap(&mut self.items, &mut items);
        let r = items.pop_front();
        assert(r.is_some() ==> items@ =~= old(self).items_spec().skip(1));
        self.items = items;
        r
    }
}

} // verus!
