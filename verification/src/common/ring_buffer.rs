//! A first-in first-out queue kept in a fixed ring of slots.

use vstd::prelude::*;

verus! {

/// A queue over a ring of slots. One slot always stays free, so a ring of
/// `n` slots holds at most `n - 1` items.
pub struct RingBuffer<T: Copy> {
    ring: Vec<T>,
    head: usize,
    tail: usize,
}

impl<T: Copy> RingBuffer<T> {
    /// The ring holds at least one slot and both cursors point into it.
    pub closed spec fn wf(&self) -> bool {
        &&& self.ring.len() >= 1
        &&& self.head < self.ring.len()
        &&& self.tail < self.ring.len()
    }

    /// The number of items the queue can hold.
    pub closed spec fn capacity(&self) -> nat {
        (self.ring.len() - 1) as nat
    }

    spec fn count(&self) -> nat {
        if self.tail >= self.head {
            (self.tail - self.head) as nat
        } else {
            (self.tail + self.ring.len() - self.head) as nat
        }
    }

    spec fn slot(&self, i: int) -> int {
        if self.head + i < self.ring.len() {
            self.head + i
        } else {
            self.head + i - self.ring.len()
        }
    }

    /// Creates an empty queue over the given ring of slots.
    pub fn new(ring: Vec<T>) -> (r: Self)
        requires
            ring.len() >= 1,
        ensures
            r.wf(),
            r@ == Seq::<T>::empty(),
            r.capacity() == ring.len() - 1,
    {
        let r = RingBuffer { ring, head: 0, tail: 0 };
        assert(r@ =~= Seq::<T>::empty());
        r
    }

    /// Whether the queue holds any item.
    pub fn has_elements(&self) -> (r: bool)
        requires
            self.wf(),
        ensures
            r == (self@.len() > 0),
    {
        self.head != self.tail
    }

    /// Whether the queue holds as many items as it can.
    pub fn is_full(&self) -> (r: bool)
        requires
            self.wf(),
        ensures
            r == (self@.len() == self.capacity()),
    {
        let next = if self.tail + 1 == self.ring.len() {
            0
        } else {
            self.tail + 1
        };
        self.head == next
    }

    /// The number of items in the queue.
    pub fn len(&self) -> (r: usize)
        requires
            self.wf(),
        ensures
            r == self@.len(),
    {
        if self.tail >= self.head {
            self.tail - self.head
        } else {
            self.tail + (self.ring.len() - self.head)
        }
    }

    /// Appends `val` unless the queue is full; says whether it did.
    pub fn enqueue(&mut self, val: T) -> (r: bool)
        requires
            old(self).wf(),
        ensures
            final(self).wf(),
            final(self).capacity() == old(self).capacity(),
            r == (old(self)@.len() < old(self).capacity()),
            r ==> final(self)@ == old(self)@.push(val),
            !r ==> final(self)@ == old(self)@,
    {
        let next = if self.tail + 1 == self.ring.len() {
            0
        } else {
            self.tail + 1
        };
        if next == self.head {
            false
        } else {
            let ghost before = self@;
            let ghost old_self = *self;
            let t = self.tail;
            self.ring.set(t, val);
            self.tail = next;
            assert forall|i: int| 0 <= i < before.len() implies self@[i] == before[i] by {
                assert(old_self.slot(i) != t as int);
                assert(self.slot(i) == old_self.slot(i));
            }
            assert(self.slot(before.len() as int) == t as int);
            assert(self@ =~= before.push(val));
            true
        }
    }

    /// Removes and returns the oldest item, if any.
    pub fn dequeue(&mut self) -> (r: Option<T>)
        requires
            old(self).wf(),
        ensures
            final(self).wf(),
            final(self).capacity() == old(self).capacity(),
            old(self)@.len() == 0 ==> r is None && final(self)@ == old(self)@,
            old(self)@.len() > 0 ==> r == Some(old(self)@[0]) && final(self)@ == old(self)@.drop_first(),
    {
        if self.head == self.tail {
            None
        } else {
            let ghost before = self@;
            let ghost old_self = *self;
            let h = self.head;
            let val = self.ring[h];
            self.head = if h + 1 == self.ring.len() {
                0
            } else {
                h + 1
            };
            assert(old_self.slot(0) == h as int);
            assert forall|i: int| 0 <= i < self@.len() implies self@[i] == before[i + 1] by {
                assert(self.slot(i) == old_self.slot(i + 1));
            }
            assert(self@ =~= before.drop_first());
            Some(val)
        }
    }
}

impl<T: Copy> View for RingBuffer<T> {
    type V = Seq<T>;

    /// The items in the queue, oldest first.
    closed spec fn view(&self) -> Seq<T> {
        Seq::new(self.count(), |i: int| self.ring@[self.slot(i)])
    }
}

} // verus!
