//! A bounded first-in first-out queue over a fixed ring of `N` slots, one
//! of which always stays free so that full and empty differ.
use vstd::prelude::*;

verus! {

/// The slot `k` places after `start` in a ring of `n` slots.
pub open spec fn ring_slot(start: int, k: int, n: int) -> int {
    if start + k < n {
        start + k
    } else {
        start + k - n
    }
}

pub struct RingBuffer<T: Copy, const N: usize> {
    buffer: Vec<Option<T>>,
    next_read_idx: usize,
    next_write_idx: usize,
}

impl<T: Copy, const N: usize> View for RingBuffer<T, N> {
    type V = Seq<T>;

    /// The items held, oldest first.
    closed spec fn view(&self) -> Seq<T> {
        Seq::new(
            self.spec_len(),
            |k: int| self.buffer@[ring_slot(self.next_read_idx as int, k, N as int)].unwrap(),
        )
    }
}

impl<T: Copy, const N: usize> RingBuffer<T, N> {
    closed spec fn spec_len(&self) -> nat {
        if self.next_write_idx >= self.next_read_idx {
            (self.next_write_idx - self.next_read_idx) as nat
        } else {
            (N - self.next_read_idx + self.next_write_idx) as nat
        }
    }

    pub closed spec fn wf(&self) -> bool {
        &&& N > 0
        &&& self.buffer@.len() == N
        &&& self.next_read_idx < N
        &&& self.next_write_idx < N
        &&& forall|k: int|
            0 <= k < self.spec_len() ==> (#[trigger] self.buffer@[ring_slot(
                self.next_read_idx as int,
                k,
                N as int,
            )]) is Some
    }

    /// The number of items the buffer can hold.
    pub open spec fn spec_capacity() -> nat {
        (N - 1) as nat
    }

    pub fn new() -> (r: Self)
        requires
            N > 0,
        ensures
            r.wf(),
            r@ == Seq::<T>::empty(),
    {
        let mut buffer: Vec<Option<T>> = Vec::new();
        let mut i: usize = 0;
        while i < N
            invariant
                i <= N,
                buffer@.len() == i,
            decreases N - i,
        {
            buffer.push(None);
            i = i + 1;
        }
        let r = RingBuffer { buffer, next_read_idx: 0, next_write_idx: 0 };
        assert(r@ =~= Seq::<T>::empty());
        r
    }

    pub fn is_empty(&self) -> (r: bool)
        requires
            self.wf(),
        ensures
            r == (self@.len() == 0),
    {
        self.next_read_idx == self.next_write_idx
    }

    pub fn is_full(&self) -> (r: bool)
        requires
            self.wf(),
        ensures
            r == (self@.len() == Self::spec_capacity()),
    {
        let next = if self.next_write_idx + 1 == N { 0 } else { self.next_write_idx + 1 };
        self.next_read_idx == next
    }

    /// The number of items held.
    pub fn len(&self) -> (r: usize)
        requires
            self.wf(),
        ensures
            r == self@.len(),
    {
        if self.next_write_idx >= self.next_read_idx {
            self.next_write_idx - self.next_read_idx
        } else {
            N - self.next_read_idx + self.next_write_idx
        }
    }

    /// Drop every item.
    pub fn flush(&mut self)
        requires
            old(self).wf(),
        ensures
            final(self).wf(),
            final(self)@ == Seq::<T>::empty(),
    {
        self.next_read_idx = 0;
        self.next_write_idx = 0;
        assert(self@ =~= Seq::<T>::empty());
    }

    /// Add an item at the back; a full buffer hands it back unchanged.
    pub fn push(&mut self, item: T) -> (r: Result<(), T>)
        requires
            old(self).wf(),
        ensures
            final(self).wf(),
            r is Err <==> old(self)@.len() == Self::spec_capacity(),
            r matches Err(x) ==> x == item && final(self)@ == old(self)@,
            r is Ok ==> final(self)@ == old(self)@.push(item),
    {
        if self.is_full() {
            return Err(item);
        }
        let ghost before = self@;
        let ghost len = self.spec_len();
        let w = self.next_write_idx;
        assert(ring_slot(self.next_read_idx as int, len as int, N as int) == w);
        self.buffer.set(w, Some(item));
        self.next_write_idx = if w + 1 == N { 0 } else { w + 1 };
        assert(self.spec_len() == len + 1);
        assert forall|k: int| 0 <= k < self.spec_len() implies (#[trigger] self.buffer@[ring_slot(
            self.next_read_idx as int,
            k,
            N as int,
        )]) is Some by {
            if k < len {
                assert(ring_slot(self.next_read_idx as int, k, N as int) != w);
            }
        }
        assert(self@ =~= before.push(item));
        Ok(())
    }

    /// Take the item at the front, if any.
    pub fn next_read(&mut self) -> (r: Option<T>)
        requires
            old(self).wf(),
        ensures
            final(self).wf(),
            r is None <==> old(self)@.len() == 0,
            r matches Some(x) ==> x == old(self)@[0] && final(self)@ == old(self)@.drop_first(),
            r is None ==> final(self)@ == old(self)@,
    {
        if self.is_empty() {
            return None;
        }
        let ghost before = self@;
        let rd = self.next_read_idx;
        assert(self.buffer@[ring_slot(rd as int, 0, N as int)] is Some);
        let item = match self.buffer[rd] {
            Some(x) => x,
            None => return None,
        };
        self.next_read_idx = if rd + 1 == N { 0 } else { rd + 1 };
        assert forall|k: int| 0 <= k < self.spec_len() implies (#[trigger] self.buffer@[ring_slot(
            self.next_read_idx as int,
            k,
            N as int,
        )]) is Some by {
            assert(ring_slot(self.next_read_idx as int, k, N as int) == ring_slot(rd as int, k + 1, N as int));
        }
        assert(self@ =~= before.drop_first());
        Some(item)
    }
}

} // verus!
