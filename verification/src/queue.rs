//! A queue that holds a limited number of items.
//!
//! What happens to an item that finds the queue full is the sender's
//! choice: `try_push` turns the new item away, `push_evicting` makes room by
//! letting go of the oldest.

use vstd::prelude::*;

verus! {

/// A first-in, first-out queue of at most `capacity` items.
#[derive(Debug)]
pub struct BoundedQueue<T> {
    capacity: usize,
    items: Vec<T>,
}

impl<T> View for BoundedQueue<T> {
    type V = Seq<T>;

    closed spec fn view(&self) -> Seq<T> {
        self.items@
    }
}

impl<T> BoundedQueue<T> {
    #[verifier::type_invariant]
    spec fn within_capacity(self) -> bool {
        self.items@.len() <= self.capacity
    }

    /// The greatest number of items that the queue holds.
    pub closed spec fn limit(self) -> nat {
        self.capacity as nat
    }

    /// An empty queue for at most `capacity` items.
    pub fn new(capacity: usize) -> (queue: BoundedQueue<T>)
        ensures
            queue@ == Seq::<T>::empty(),
            queue.limit() == capacity,
    {
        BoundedQueue { capacity, items: Vec::new() }
    }

    /// Number of items in the queue; never more than the limit.
    pub fn len(&self) -> (n: usize)
        ensures
            n == self@.len(),
            n <= self.limit(),
    {
        proof {
            use_type_invariant(self);
        }
        self.items.len()
    }

    /// Tells whether the queue has no room left.
    pub fn is_full(&self) -> (full: bool)
        ensures
            full == (self@.len() >= self.limit()),
    {
        self.items.len() >= self.capacity
    }

    /// Adds `item` at the end if there is room. A full queue stays as it
    /// is and gives the item back.
    pub fn try_push(&mut self, item: T) -> (rejected: Option<T>)
        ensures
            final(self).limit() == old(self).limit(),
            old(self)@.len() < old(self).limit() ==> rejected is None && final(self)@ == old(
                self,
            )@.push(item),
            old(self)@.len() >= old(self).limit() ==> rejected == Some(item) && final(self)@
                == old(self)@,
    {
        if self.items.len() >= self.capacity {
            return Some(item);
        }
        let capacity = self.capacity;
        let mut held = BoundedQueue { capacity, items: Vec::new() };
        core::mem::swap(self, &mut held);
        let mut items = held.items;
        items.push(item);
        *self = BoundedQueue { capacity, items };
        None
    }

    /// Adds `item` at the end. A full queue lets go of its oldest item to
    /// make room, and hands it back; a queue with no room at all hands the
    /// new item back.
    pub fn push_evicting(&mut self, item: T) -> (evicted: Option<T>)
        ensures
            final(self).limit() == old(self).limit(),
            old(self)@.len() < old(self).limit() ==> evicted is None && final(self)@ == old(
                self,
            )@.push(item),
            old(self)@.len() >= old(self).limit() && old(self).limit() > 0 ==> evicted == Some(
                old(self)@[0],
            ) && final(self)@ == old(self)@.skip(1).push(item),
            old(self).limit() == 0 ==> evicted == Some(item) && final(self)@ == old(self)@,
    {
        proof {
            use_type_invariant(&*self);
        }
        let capacity = self.capacity;
        if capacity == 0 {
            return Some(item);
        }
        let mut held = BoundedQueue { capacity, items: Vec::new() };
        core::mem::swap(self, &mut held);
        let mut items = held.items;
        let evicted = if items.len() >= capacity {
            let oldest = items.remove(0);
            Some(oldest)
        } else {
            None
        };
        items.push(item);
        *self = BoundedQueue { capacity, items };
        evicted
    }

    /// Takes the oldest item out.
    pub fn pop(&mut self) -> (item: Option<T>)
        ensures
            final(self).limit() == old(self).limit(),
            old(self)@.len() == 0 ==> item is None && final(self)@ == old(self)@,
            old(self)@.len() > 0 ==> item == Some(old(self)@[0]) && final(self)@ == old(
                self,
            )@.skip(1),
    {
        proof {
            use_type_invariant(&*self);
        }
        if self.items.len() == 0 {
            return None;
        }
        let capacity = self.capacity;
        let mut held = BoundedQueue { capacity, items: Vec::new() };
        core::mem::swap(self, &mut held);
        let mut items = held.items;
        let oldest = items.remove(0);
        *self = BoundedQueue { capacity, items };
        Some(oldest)
    }
}

} // verus!
