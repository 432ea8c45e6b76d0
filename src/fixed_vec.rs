//! A vector that never grows past the capacity it was made with.
use vstd::prelude::*;
use core::ops::Range;

verus! {

/// A vector with a fixed capacity: operations that would exceed it fail
/// and change nothing.
pub struct FixedVec<T: Copy> {
    items: Vec<T>,
    capacity: usize,
}

impl<T: Copy> View for FixedVec<T> {
    type V = Seq<T>;

    closed spec fn view(&self) -> Seq<T> {
        self.items@
    }
}

/// `s` with the items of `s[start..end]` written from index `dst` on.
pub open spec fn copied_within<T>(s: Seq<T>, start: int, end: int, dst: int) -> Seq<T> {
    Seq::new(s.len(), |i: int| if dst <= i < dst + (end - start) { s[start + (i - dst)] } else { s[i] })
}

impl<T: Copy> FixedVec<T> {
    pub closed spec fn spec_capacity(&self) -> nat {
        self.capacity as nat
    }

    pub closed spec fn wf(&self) -> bool {
        self.items@.len() <= self.capacity
    }

    pub fn new(capacity: usize) -> (r: Self)
        ensures
            r@ == Seq::<T>::empty(),
            r.spec_capacity() == capacity,
            r.wf(),
    {
        FixedVec { items: Vec::new(), capacity }
    }

    pub fn len(&self) -> (r: usize)
        ensures
            r == self@.len(),
            self.wf() ==> r <= self.spec_capacity(),
    {
        self.items.len()
    }

    pub fn capacity(&self) -> (r: usize)
        ensures
            r == self.spec_capacity(),
    {
        self.capacity
    }

    pub fn as_slice(&self) -> (r: &[T])
        ensures
            r@ == self@,
    {
        self.items.as_slice()
    }

    /// Shorten to `new_len`, or lengthen with copies of `value`; fails when
    /// `new_len` is over the capacity.
    pub fn resize(&mut self, new_len: usize, value: T) -> (r: Result<(), ()>)
        requires
            old(self).wf(),
        ensures
            final(self).wf(),
            final(self).spec_capacity() == old(self).spec_capacity(),
            r is Ok <==> new_len <= old(self).spec_capacity(),
            r is Err ==> final(self)@ == old(self)@,
            r is Ok && new_len <= old(self)@.len() ==> final(self)@ == old(self)@.subrange(0, new_len as int),
            r is Ok && new_len > old(self)@.len() ==> final(self)@ == old(self)@ + Seq::new(
                (new_len - old(self)@.len()) as nat,
                |i: int| value,
            ),
    {
        if new_len > self.capacity {
            return Err(());
        }
        if new_len <= self.items.len() {
            self.items.truncate(new_len);
        } else {
            let ghost start = self.items@;
            while self.items.len() < new_len
                invariant
                    start.len() <= self.items@.len() <= new_len,
                    new_len <= self.capacity,
                    self.capacity == old(self).capacity,
                    self.items@ == start + Seq::new((self.items@.len() - start.len()) as nat, |i: int| value),
                decreases new_len - self.items@.len(),
            {
                self.items.push(value);
                assert(self.items@ =~= start + Seq::new((self.items@.len() - start.len()) as nat, |i: int| value));
            }
        }
        Ok(())
    }

    /// Copy the items in `src` to the positions starting at `dst`; both
    /// ranges must lie within the vector.
    pub fn copy_within(&mut self, src: Range<usize>, dst: usize)
        requires
            old(self).wf(),
            src.start <= src.end,
            src.end <= old(self)@.len(),
            dst + (src.end - src.start) <= old(self)@.len(),
        ensures
            final(self).wf(),
            final(self).spec_capacity() == old(self).spec_capacity(),
            final(self)@ == copied_within(old(self)@, src.start as int, src.end as int, dst as int),
    {
        let start = src.start;
        let end = src.end;
        let n = end - start;
        let ghost orig = self.items@;
        let len = self.items.len();
        if dst <= start {
            let mut i: usize = 0;
            while i < n
                invariant
                    n == end - start,
                    dst <= start,
                    orig.len() == old(self)@.len(),
                    orig.len() == len,
                    end <= orig.len(),
                    dst + n <= orig.len(),
                    i <= n,
                    self.items@.len() == orig.len(),
                    self.capacity == old(self).capacity,
                    forall|k: int| 0 <= k < orig.len() ==> #[trigger] self.items@[k] == if dst <= k < dst + i { orig[start + (k - dst)] } else { orig[k] },
                decreases n - i,
            {
                let v = self.items[start + i];
                self.items.set(dst + i, v);
                i = i + 1;
            }
        } else {
            let mut i: usize = n;
            while i > 0
                invariant
                    n == end - start,
                    dst > start,
                    orig.len() == old(self)@.len(),
                    orig.len() == len,
                    end <= orig.len(),
                    dst + n <= orig.len(),
                    i <= n,
                    self.items@.len() == orig.len(),
                    self.capacity == old(self).capacity,
                    forall|k: int| 0 <= k < orig.len() ==> #[trigger] self.items@[k] == if dst + i <= k < dst + n { orig[start + (k - dst)] } else { orig[k] },
                decreases i,
            {
                i = i - 1;
                let v = self.items[start + i];
                self.items.set(dst + i, v);
            }
        }
        assert(self.items@ =~= copied_within(orig, start as int, end as int, dst as int));
    }

    /// Append all of `src`; fails, changing nothing, when it does not fit.
    pub fn extend_from_slice(&mut self, src: &[T]) -> (r: Result<(), ()>)
        requires
            old(self).wf(),
        ensures
            final(self).wf(),
            final(self).spec_capacity() == old(self).spec_capacity(),
            r is Ok <==> old(self)@.len() + src@.len() <= old(self).spec_capacity(),
            r is Ok ==> final(self)@ == old(self)@ + src@,
            r is Err ==> final(self)@ == old(self)@,
    {
        if src.len() > self.capacity - self.items.len() {
            return Err(());
        }
        let mut i: usize = 0;
        while i < src.len()
            invariant
                i <= src@.len(),
                old(self)@.len() + src@.len() <= self.capacity,
                self.capacity == old(self).capacity,
                self.items@ == old(self)@ + src@.subrange(0, i as int),
            decreases src@.len() - i,
        {
            self.items.push(src[i]);
            i = i + 1;
            assert(self.items@ =~= old(self)@ + src@.subrange(0, i as int));
        }
        assert(src@.subrange(0, i as int) =~= src@);
        Ok(())
    }

    /// Append one item; fails, changing nothing, when the vector is full.
    pub fn push(&mut self, value: T) -> (r: Result<(), ()>)
        requires
            old(self).wf(),
        ensures
            final(self).wf(),
            final(self).spec_capacity() == old(self).spec_capacity(),
            r is Ok <==> old(self)@.len() < old(self).spec_capacity(),
            r is Ok ==> final(self)@ == old(self)@.push(value),
            r is Err ==> final(self)@ == old(self)@,
    {
        if self.items.len() >= self.capacity {
            return Err(());
        }
        self.items.push(value);
        Ok(())
    }

    pub fn clear(&mut self)
        requires
            old(self).wf(),
        ensures
            final(self).wf(),
            final(self).spec_capacity() == old(self).spec_capacity(),
            final(self)@ == Seq::<T>::empty(),
    {
        self.items.clear();
    }
}

} // verus!
