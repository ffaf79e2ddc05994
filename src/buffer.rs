use vstd::prelude::*;

use crate::model::{clones_of, fill_level_of, push_all, push_model};
use crate::FillLevel;

verus! {

/// A single-threaded ring of `capacity` slots that keeps the most recently
/// pushed elements. Slots that were never written hold `None`.
pub struct Buffer<T> {
    buffer: Vec<Option<T>>,
    len: usize,
    pos: usize,
}

impl<T> Buffer<T> {
    /// Number of slots.
    pub closed spec fn cap(&self) -> nat {
        self.buffer@.len()
    }

    /// The slot that holds the element at logical position `i`, oldest first.
    spec fn slot_of(&self, i: int) -> int {
        if self.len < self.buffer.len() {
            i
        } else if self.pos + i < self.buffer.len() {
            self.pos + i
        } else {
            self.pos + i - self.buffer.len()
        }
    }

    #[verifier::type_invariant]
    spec fn well_formed(&self) -> bool {
        &&& self.len <= self.buffer.len()
        &&& self.buffer.len() == 0 ==> self.pos == 0
        &&& self.buffer.len() > 0 ==> self.pos < self.buffer.len()
        &&& self.len < self.buffer.len() ==> self.pos == self.len
        &&& forall|i: int|
            0 <= i < self.len ==> (#[trigger] self.buffer@[self.slot_of(i)]) is Some
    }
}

impl<T> View for Buffer<T> {
    type V = Seq<T>;

    /// The held elements, oldest first.
    closed spec fn view(&self) -> Seq<T> {
        Seq::new(self.len as nat, |i: int| self.buffer@[self.slot_of(i)]->Some_0)
    }
}

impl<T> Buffer<T> {
    /// An empty ring with `capacity` slots.
    pub fn new(capacity: usize) -> (r: Self)
        ensures
            r@ == Seq::<T>::empty(),
            r.cap() == capacity,
    {
        let mut vec: Vec<Option<T>> = Vec::with_capacity(capacity);
        let mut i: usize = 0;
        while i < capacity
            invariant
                i <= capacity,
                vec@.len() == i,
            decreases capacity - i,
        {
            vec.push(None);
            i = i + 1;
        }
        let r = Self { buffer: vec, len: 0, pos: 0 };
        assert(r@ =~= Seq::<T>::empty());
        r
    }

    /// Number of held elements.
    pub fn len(&self) -> (r: usize)
        ensures
            r == self@.len(),
            r <= self.cap(),
    {
        proof {
            use_type_invariant(self);
        }
        self.len
    }

    /// Whether no element is held.
    pub fn is_empty(&self) -> (r: bool)
        ensures
            r == (self@.len() == 0),
    {
        self.len() == 0
    }

    /// Number of slots, fixed when the ring was made.
    pub fn capacity(&self) -> (r: usize)
        ensures
            r == self.cap(),
    {
        self.buffer.len()
    }

    /// Moves the cursor past a slot that was just written.
    fn inc_pos(&mut self)
        requires
            old(self).buffer.len() > 0,
            old(self).buffer@[old(self).pos as int] is Some,
        ensures
            final(self).buffer == old(self).buffer,
            final(self).pos == if old(self).pos + 1 == old(self).buffer.len() {
                0
            } else {
                old(self).pos + 1
            },
            final(self).len == if old(self).len < old(self).buffer.len() {
                old(self).len + 1
            } else {
                old(self).len as int
            },
    {
        proof {
            use_type_invariant(&*self);
        }
        let Buffer { buffer, len, pos } = self.take();
        let capacity = buffer.len();
        let mut pos = pos + 1;
        if pos == capacity {
            pos = 0;
        }
        let mut len = len;
        if len < capacity {
            len = len + 1;
        }
        proof {
            let ghost next = Buffer { buffer, len, pos };
            let ghost prev = *old(self);
            assert forall|i: int| 0 <= i < len implies (#[trigger] buffer@[next.slot_of(i)]) is Some by {
                if prev.len < capacity {
                    assert(next.slot_of(i) == i);
                    if i < prev.len {
                        assert(prev.slot_of(i) == i);
                    }
                } else if i < capacity - 1 {
                    assert(prev.slot_of(i + 1) == next.slot_of(i));
                }
            }
        }
        *self = Buffer { buffer, len, pos };
    }

    /// Moves the value out, leaving a ring without slots in its place.
    fn take(&mut self) -> (r: Self)
        ensures
            r == *old(self),
            final(self).buffer@.len() == 0,
    {
        let mut cur = Buffer { buffer: Vec::new(), len: 0, pos: 0 };
        std::mem::swap(self, &mut cur);
        cur
    }

    /// Whether the ring is empty, partly filled or full.
    pub fn fill_level(&self) -> (r: FillLevel)
        ensures
            r == fill_level_of(self@.len(), self.cap()),
    {
        let capacity = self.capacity();
        let len = self.len();
        if len == 0 {
            FillLevel::Empty
        } else if len == capacity {
            FillLevel::Full
        } else {
            FillLevel::Partial
        }
    }

    /// Writes `value` into the slot under the cursor and advances the cursor;
    /// a full ring drops its oldest element, a ring without slots keeps nothing.
    pub fn push(&mut self, value: T)
        ensures
            final(self).cap() == old(self).cap(),
            final(self)@ == push_model(old(self).cap(), old(self)@, value),
    {
        proof {
            use_type_invariant(&*self);
        }
        if self.buffer.len() == 0 {
            return;
        }
        let ghost before = *self;
        let Buffer { buffer: mut slots, len, pos } = self.take();
        slots.set(pos, Some(value));
        proof {
            let ghost mid = Buffer { buffer: slots, len, pos };
            assert forall|i: int| 0 <= i < len implies (#[trigger] slots@[mid.slot_of(i)]) is Some by {
                assert(mid.slot_of(i) == before.slot_of(i));
                assert(before.buffer@[before.slot_of(i)] is Some);
            }
        }
        *self = Buffer { buffer: slots, len, pos };
        self.inc_pos();
        proof {
            let cap = before.buffer.len();
            let expected = push_model(cap as nat, before@, value);
            assert forall|i: int| 0 <= i < self.len implies #[trigger] self.buffer@[self.slot_of(
                i,
            )] is Some && self.buffer@[self.slot_of(i)]->Some_0 == expected[i] by {
                if before.len < cap {
                    if i < before.len {
                        assert(before.slot_of(i) == i);
                    }
                } else {
                    assert(before.slot_of(i + 1) == self.slot_of(i) || i == cap - 1);
                }
            }
            assert(self@ =~= expected);
        }
    }

    /// Pushes a clone of each element of `values`, in order.
    pub fn push_slice(&mut self, values: &[T])
        where
            T: Clone,
        ensures
            final(self).cap() == old(self).cap(),
            exists|copies: Seq<T>|
                clones_of(values@, copies) && final(self)@ == push_all(
                    old(self).cap(),
                    old(self)@,
                    copies,
                ),
    {
        let ghost cap = self.cap();
        let ghost start = self@;
        let ghost mut copies: Seq<T> = Seq::empty();
        let mut i: usize = 0;
        while i < values.len()
            invariant
                i <= values@.len(),
                self.cap() == cap,
                clones_of(values@.subrange(0, i as int), copies),
                self@ == push_all(cap, start, copies),
            decreases values@.len() - i,
        {
            let value = values[i].clone();
            self.push(value);
            proof {
                let next = copies.push(value);
                assert(next.drop_last() =~= copies);
                assert(values@.subrange(0, i + 1).drop_last() =~= values@.subrange(0, i as int));
                copies = next;
            }
            i = i + 1;
        }
        assert(values@.subrange(0, values@.len() as int) =~= values@);
    }

    /// Forgets every held element; the slots keep their old values until
    /// they are written again.
    pub fn clear(&mut self)
        ensures
            final(self).cap() == old(self).cap(),
            final(self)@ == Seq::<T>::empty(),
    {
        let Buffer { buffer, len: _, pos: _ } = self.take();
        *self = Buffer { buffer, len: 0, pos: 0 };
        assert(self@ =~= Seq::<T>::empty());
    }
}

impl<T: Clone> Buffer<T> {
    /// A clone of the most recently pushed element, if any.
    pub fn head(&self) -> (r: Option<T>)
        ensures
            r is None <==> self@.len() == 0,
            r is Some ==> cloned(self@.last(), r->Some_0),
    {
        proof {
            use_type_invariant(self);
        }
        match self.fill_level() {
            FillLevel::Empty => None,
            _ => {
                let index = if self.pos == 0 {
                    self.capacity() - 1
                } else {
                    self.pos - 1
                };
                proof {
                    assert(self.slot_of(self.len - 1) == index);
                    assert(self.buffer@[self.slot_of(self.len - 1)] is Some);
                }
                match &self.buffer[index] {
                    Some(v) => Some(v.clone()),
                    None => None,
                }
            },
        }
    }

    /// Clones of the held elements, oldest first.
    pub fn snapshot(&self) -> (r: Vec<T>)
        ensures
            clones_of(self@, r@),
    {
        proof {
            use_type_invariant(self);
        }
        let cap = self.buffer.len();
        proof {
            assert forall|j: int|
                0 <= j < (if self.len < cap {
                    self.len as int
                } else {
                    cap as int
                }) implies (#[trigger] self.buffer@[j]) is Some by {
                if self.len < cap {
                    assert(self.slot_of(j) == j);
                } else if j >= self.pos {
                    assert(self.slot_of(j - self.pos) == j);
                } else {
                    assert(self.slot_of(j + cap - self.pos) == j);
                }
            }
        }
        let mut out: Vec<T> = Vec::new();
        match self.fill_level() {
            FillLevel::Partial => {
                self.append_slots(&mut out, 0, self.pos);
            },
            FillLevel::Full => {
                self.append_slots(&mut out, self.pos, self.capacity());
                self.append_slots(&mut out, 0, self.pos);
            },
            FillLevel::Empty => {},
        }
        proof {
            assert forall|k: int| 0 <= k < self@.len() implies cloned(#[trigger] self@[k], out@[k]) by {
                if self.len < cap {
                    assert(self.slot_of(k) == k);
                    assert(cloned(self.buffer@[k]->Some_0, out@[0 + k - 0]));
                } else if k < cap - self.pos {
                    assert(self.slot_of(k) == self.pos + k);
                    assert(cloned(self.buffer@[self.pos + k]->Some_0, out@[0 + (self.pos + k) - self.pos]));
                } else {
                    let j = k - (cap - self.pos);
                    assert(self.slot_of(k) == j);
                    assert(cloned(self.buffer@[j]->Some_0, out@[(cap - self.pos) + j - 0]));
                }
            }
        }
        out
    }

    /// Appends clones of the elements in slots `from..to`, each of which holds one.
    fn append_slots(&self, out: &mut Vec<T>, from: usize, to: usize)
        requires
            from <= to <= self.buffer.len(),
            forall|j: int| from <= j < to ==> (#[trigger] self.buffer@[j]) is Some,
        ensures
            final(out)@.len() == old(out)@.len() + (to - from),
            forall|k: int| 0 <= k < old(out)@.len() ==> final(out)@[k] == old(out)@[k],
            forall|j: int|
                from <= j < to ==> cloned(
                    self.buffer@[j]->Some_0,
                    #[trigger] final(out)@[old(out)@.len() + j - from],
                ),
    {
        let ghost start = out@;
        let mut j: usize = from;
        while j < to
            invariant
                from <= j <= to <= self.buffer.len(),
                forall|j: int| from <= j < to ==> (#[trigger] self.buffer@[j]) is Some,
                out@.len() == start.len() + (j - from),
                forall|k: int| 0 <= k < start.len() ==> out@[k] == start[k],
                forall|m: int|
                    from <= m < j ==> cloned(
                        self.buffer@[m]->Some_0,
                        #[trigger] out@[start.len() + m - from],
                    ),
            decreases to - j,
        {
            if let Some(v) = &self.buffer[j] {
                out.push(v.clone());
            }
            j = j + 1;
        }
    }
}

} // verus!
