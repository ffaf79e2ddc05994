use std::sync::Arc;

use parking_lot::RwLock;
use vstd::prelude::*;

pub mod buffer;
pub mod model;
mod shared;

use crate::model::{clones_of, fill_level_of, push_all, push_model};
use crate::shared::{new_lock, with_read, with_write};

verus! {

/// How full a ring is: nothing held, some slots held, or every slot held.
#[derive(Debug, Clone, Copy, PartialEq, Eq, Structural)]
pub enum FillLevel {
    Empty,
    Partial,
    Full,
}

/// A handle on a ring shared between threads. Clones of the handle reach the
/// same ring. Reads share the lock; `push`, `push_slice` and `clear` hold it
/// alone for their whole duration, so a batch is never seen half applied.
///
/// The capacity is kept in the handle and is exact. The other contracts say
/// what one call of the ring's own operation gives on a well-formed ring: the
/// lock admits no invariant here that would name which ring that was, so two
/// calls, or two handles, are not related by them.
#[verifier::reject_recursive_types(T)]
pub struct Buffer<T> {
    buffer: Arc<RwLock<buffer::Buffer<T>>>,
    capacity: usize,
}

impl<T> Buffer<T> {
    /// Number of slots of the shared ring, fixed when it was made.
    pub closed spec fn cap(&self) -> nat {
        self.capacity as nat
    }

    /// A handle on a new empty ring with `capacity` slots.
    pub fn new(capacity: usize) -> (r: Self)
        ensures
            r.cap() == capacity,
    {
        Self { buffer: Arc::new(new_lock(buffer::Buffer::new(capacity))), capacity }
    }

    /// Number of elements held.
    pub fn len(&self) -> (r: usize)
        ensures
            exists|b: buffer::Buffer<T>| r == b@.len() && r <= b.cap(),
    {
        with_read(
            &*self.buffer,
            |b: &buffer::Buffer<T>| -> (n: usize)
                ensures
                    b.cap() >= n && n == b@.len()
                {
                    b.len()
                },
        )
    }

    /// Whether no element is held.
    pub fn is_empty(&self) -> (r: bool)
        ensures
            exists|b: buffer::Buffer<T>| r == (b@.len() == 0),
    {
        with_read(
            &*self.buffer,
            |b: &buffer::Buffer<T>| -> (e: bool)
                ensures
                    e == (b@.len() == 0)
                {
                    b.is_empty()
                },
        )
    }

    /// Number of slots of the shared ring.
    pub fn capacity(&self) -> (r: usize)
        ensures
            r == self.cap(),
    {
        self.capacity
    }

    /// Whether the shared ring is empty, partly filled or full.
    pub fn fill_level(&self) -> (r: FillLevel)
        ensures
            exists|b: buffer::Buffer<T>| r == fill_level_of(b@.len(), b.cap()),
    {
        with_read(
            &*self.buffer,
            |b: &buffer::Buffer<T>| -> (l: FillLevel)
                ensures
                    l == fill_level_of(b@.len(), b.cap())
                {
                    b.fill_level()
                },
        )
    }

    /// Pushes `value` onto the shared ring under the exclusive lock.
    pub fn push(&self, value: T)
        ensures
            exists|b: &mut buffer::Buffer<T>|
                final(b).cap() == (*b).cap() && final(b)@ == push_model((*b).cap(), (*b)@, value),
    {
        with_write(
            &*self.buffer,
            |b: &mut buffer::Buffer<T>|
                ensures
                    final(b).cap() == old(b).cap() && final(b)@ == push_model(
                        old(b).cap(),
                        old(b)@,
                        value,
                    )
                {
                    b.push(value)
                },
        )
    }
}

impl<T: Clone> Buffer<T> {
    /// Pushes every element of `slice`, in order, under one hold of the
    /// exclusive lock.
    pub fn push_slice(&self, slice: &[T])
        ensures
            exists|b: &mut buffer::Buffer<T>, copies: Seq<T>|
                final(b).cap() == (*b).cap() && clones_of(slice@, copies) && final(b)@ == push_all(
                    (*b).cap(),
                    (*b)@,
                    copies,
                ),
    {
        with_write(
            &*self.buffer,
            |b: &mut buffer::Buffer<T>|
                ensures
                    final(b).cap() == old(b).cap() && exists|copies: Seq<T>|
                        clones_of(slice@, copies) && final(b)@ == push_all(
                            old(b).cap(),
                            old(b)@,
                            copies,
                        )
                {
                    b.push_slice(slice)
                },
        )
    }

    /// A clone of the most recently pushed element, if any.
    pub fn head(&self) -> (r: Option<T>)
        ensures
            exists|b: buffer::Buffer<T>|
                (r is None <==> b@.len() == 0) && (r is Some ==> cloned(b@.last(), r->Some_0)),
    {
        with_read(
            &*self.buffer,
            |b: &buffer::Buffer<T>| -> (h: Option<T>)
                ensures
                    (h is None <==> b@.len() == 0) && (h is Some ==> cloned(b@.last(), h->Some_0))
                {
                    b.head()
                },
        )
    }

    /// Clones of the held elements, oldest first.
    pub fn snapshot(&self) -> (r: Vec<T>)
        ensures
            exists|b: buffer::Buffer<T>| clones_of(b@, r@),
    {
        with_read(
            &*self.buffer,
            |b: &buffer::Buffer<T>| -> (v: Vec<T>)
                ensures
                    clones_of(b@, v@)
                {
                    b.snapshot()
                },
        )
    }

    /// Empties the shared ring under the exclusive lock.
    pub fn clear(&self)
        ensures
            exists|b: &mut buffer::Buffer<T>|
                final(b).cap() == (*b).cap() && final(b)@ == Seq::<T>::empty(),
    {
        with_write(
            &*self.buffer,
            |b: &mut buffer::Buffer<T>|
                ensures
                    final(b).cap() == old(b).cap() && final(b)@ == Seq::<T>::empty()
                {
                    b.clear()
                },
        )
    }
}

impl<T> Clone for Buffer<T> {
    /// Another handle on the same ring.
    fn clone(&self) -> (r: Self)
        ensures
            r.cap() == self.cap(),
    {
        Self { buffer: self.buffer.clone(), capacity: self.capacity }
    }
}

} // verus!
