//! The fixed-capacity FIFO buffer and its check-and-mutate operations.
//!
//! `BoundedQueue` is the state that a blocking queue guards with a lock: an
//! ordered buffer whose length never exceeds a capacity fixed at
//! construction. `try_put` and `try_take` are the atomic check-then-act steps
//! of the insert and remove sides; a caller that wants blocking behaviour
//! runs them under mutual exclusion and, on rejection, waits for a wake
//! signal and retries.

use vstd::prelude::*;

use crate::model;

verus! {

/// A FIFO buffer holding at most `capacity` elements, where `capacity >= 1`
/// is fixed at construction.
pub struct BoundedQueue<T> {
    buf: Vec<T>,
    capacity: usize,
}

impl<T> View for BoundedQueue<T> {
    type V = Seq<T>;

    closed spec fn view(&self) -> Seq<T> {
        self.buf@
    }
}

impl<T> BoundedQueue<T> {
    /// The capacity bound chosen at construction.
    pub closed spec fn capacity_spec(&self) -> nat {
        self.capacity as nat
    }

    /// Well-formedness: the capacity is positive and the buffer never holds
    /// more than `capacity` elements.
    pub open spec fn wf(&self) -> bool {
        &&& self.capacity_spec() >= 1
        &&& self@.len() <= self.capacity_spec()
    }

    /// Creates an empty queue with the given positive capacity.
    pub fn new(capacity: usize) -> (q: Self)
        requires
            capacity >= 1,
        ensures
            q.wf(),
            q@ == Seq::<T>::empty(),
            q.capacity_spec() == capacity,
    {
        BoundedQueue { buf: Vec::new(), capacity }
    }

    /// The single atomic step of the insert side: appends `item` at the tail
    /// when the buffer has room and returns `Ok`; otherwise leaves the buffer
    /// untouched and hands `item` back in `Err`, so the caller can wait for a
    /// wake signal and retry with it.
    pub fn try_put(&mut self, item: T) -> (r: Result<(), T>)
        requires
            old(self).wf(),
        ensures
            final(self).wf(),
            final(self).capacity_spec() == old(self).capacity_spec(),
            final(self)@ == model::put_step(old(self)@, old(self).capacity_spec(), item),
            model::put_accepted(old(self)@, old(self).capacity_spec()) ==> r == Ok::<(), T>(()),
            !model::put_accepted(old(self)@, old(self).capacity_spec()) ==> r == Err::<(), T>(
                item,
            ),
    {
        if self.buf.len() < self.capacity {
            self.buf.push(item);
            Ok(())
        } else {
            Err(item)
        }
    }

    /// The single atomic step of the remove side: removes and returns the
    /// head when the buffer is non-empty; otherwise returns `None` and leaves
    /// the buffer untouched, so the caller can wait for a wake signal and
    /// retry.
    pub fn try_take(&mut self) -> (r: Option<T>)
        requires
            old(self).wf(),
        ensures
            final(self).wf(),
            final(self).capacity_spec() == old(self).capacity_spec(),
            final(self)@ == model::take_step(old(self)@),
            r == model::take_value(old(self)@),
    {
        if self.buf.len() > 0 {
            Some(self.buf.remove(0))
        } else {
            None
        }
    }

    /// The number of elements currently buffered.
    pub fn len(&self) -> (n: usize)
        ensures
            n == self@.len(),
    {
        self.buf.len()
    }

    /// The capacity bound chosen at construction.
    pub fn capacity(&self) -> (c: usize)
        ensures
            c == self.capacity_spec(),
    {
        self.capacity
    }

    /// Whether the buffer holds no element, so a remove would have to wait.
    pub fn is_empty(&self) -> (b: bool)
        ensures
            b == (self@.len() == 0),
    {
        self.buf.len() == 0
    }

    /// Whether the buffer is at capacity, so an insert would have to wait.
    pub fn is_full(&self) -> (b: bool)
        ensures
            b == (self@.len() == self.capacity_spec()),
    {
        self.buf.len() == self.capacity
    }
}

} // verus!
