use vstd::prelude::*;

use crate::array::BitArray;
use crate::base::Base;

verus! {

/// An iterator over all bit values of a [`BitArray`], in index order.
///
/// It holds a private copy of the array taken at creation time, so later
/// mutation of the source array does not affect it.
pub struct BitArrayIter<B: Base> {
    array: BitArray<B>,
    counter: u8,
}

impl<B: Base> BitArrayIter<B> {
    /// The bit sequence this iterator walks: the array as it was when the
    /// iterator was created.
    pub closed spec fn snapshot(self) -> Seq<bool> {
        self.array@
    }

    /// The next index to be yielded.
    pub closed spec fn cursor(self) -> int {
        self.counter as int
    }

    /// The cursor stays within `[0, max_len]` and the snapshot spans the
    /// full width.
    pub open spec fn wf(self) -> bool {
        &&& self.snapshot().len() == B::spec_max_len()
        &&& 0 <= self.cursor() <= B::spec_max_len()
    }

    /// A fresh iterator over a copy of the given array, starting at index 0.
    pub fn new(array: BitArray<B>) -> (r: Self)
        ensures
            r.wf(),
            r.snapshot() == array@,
            r.cursor() == 0,
    {
        proof {
            array.view_len();
        }
        BitArrayIter { array, counter: 0 }
    }

    /// The bit at the cursor, advancing the cursor; `None` once every index
    /// has been yielded.
    pub fn next(&mut self) -> (r: Option<bool>)
        requires
            old(self).wf(),
        ensures
            final(self).wf(),
            final(self).snapshot() == old(self).snapshot(),
            old(self).cursor() < B::spec_max_len() ==> r == Some(
                old(self).snapshot()[old(self).cursor()],
            ) && final(self).cursor() == old(self).cursor() + 1,
            old(self).cursor() == B::spec_max_len() ==> r is None && final(self).cursor() == old(
                self,
            ).cursor(),
    {
        if self.counter == B::max_len() {
            return None;
        }
        let item = self.array.get(self.counter);
        self.counter = self.counter + 1;
        Some(item)
    }

    /// Bounds on how many bits remain to be yielded: at least 0, at most the
    /// full width.
    pub fn size_hint(&self) -> (r: (usize, Option<usize>))
        ensures
            r.0 == 0,
            r.1 == Some(B::spec_max_len() as usize),
    {
        (0, Some(B::max_len() as usize))
    }
}

/// An iterator yielding the indexes of all 1 values of a [`BitArray`], ascending.
pub struct Ones<B: Base> {
    counter: u8,
    inner: BitArrayIter<B>,
}

impl<B: Base> Ones<B> {
    /// The bit sequence this iterator scans: the array as it was when the
    /// iterator was created.
    pub closed spec fn snapshot(self) -> Seq<bool> {
        self.inner.snapshot()
    }

    /// The index the scan continues from.
    pub closed spec fn cursor(self) -> int {
        self.counter as int
    }

    /// The outer counter walks in lockstep with the inner iterator.
    pub closed spec fn wf(self) -> bool {
        &&& self.inner.wf()
        &&& self.cursor() == self.inner.cursor()
    }

    /// A fresh scan over a copy of the given array, starting at index 0.
    pub fn new(array: BitArray<B>) -> (r: Self)
        ensures
            r.wf(),
            r.snapshot() == array@,
            r.cursor() == 0,
    {
        Ones { counter: 0, inner: BitArrayIter::new(array) }
    }

    /// The smallest index at or after the cursor whose bit is true, advancing
    /// the cursor past it; `None` if no such index remains.
    pub fn next(&mut self) -> (r: Option<u8>)
        requires
            old(self).wf(),
        ensures
            final(self).wf(),
            final(self).snapshot() == old(self).snapshot(),
            match r {
                Some(i) => old(self).cursor() <= i < B::spec_max_len()
                    && old(self).snapshot()[i as int] && (forall|k: int|
                    old(self).cursor() <= k < i ==> !old(self).snapshot()[k]) && final(
                self).cursor() == i + 1,
                None => (forall|k: int|
                    old(self).cursor() <= k < B::spec_max_len() ==> !old(self).snapshot()[k])
                    && final(self).cursor() == B::spec_max_len(),
            },
    {
        loop
            invariant
                self.wf(),
                self.snapshot() == old(self).snapshot(),
                old(self).cursor() <= self.cursor(),
                forall|k: int| old(self).cursor() <= k < self.cursor() ==> !self.snapshot()[k],
            decreases B::spec_max_len() - self.cursor(),
        {
            if self.counter == B::max_len() {
                return None;
            }
            let elem = self.inner.next();
            let index = self.counter;
            self.counter = self.counter + 1;
            if let Some(bit) = elem {
                if bit {
                    return Some(index);
                }
            }
        }
    }
}

/// An iterator yielding the indexes of all 0 values of a [`BitArray`], ascending.
pub struct Zeroes<B: Base> {
    counter: u8,
    inner: BitArrayIter<B>,
}

impl<B: Base> Zeroes<B> {
    /// The bit sequence this iterator scans: the array as it was when the
    /// iterator was created.
    pub closed spec fn snapshot(self) -> Seq<bool> {
        self.inner.snapshot()
    }

    /// The index the scan continues from.
    pub closed spec fn cursor(self) -> int {
        self.counter as int
    }

    /// The outer counter walks in lockstep with the inner iterator.
    pub closed spec fn wf(self) -> bool {
        &&& self.inner.wf()
        &&& self.cursor() == self.inner.cursor()
    }

    /// A fresh scan over a copy of the given array, starting at index 0.
    pub fn new(array: BitArray<B>) -> (r: Self)
        ensures
            r.wf(),
            r.snapshot() == array@,
            r.cursor() == 0,
    {
        Zeroes { counter: 0, inner: BitArrayIter::new(array) }
    }

    /// The smallest index at or after the cursor whose bit is false, advancing
    /// the cursor past it; `None` if no such index remains.
    pub fn next(&mut self) -> (r: Option<u8>)
        requires
            old(self).wf(),
        ensures
            final(self).wf(),
            final(self).snapshot() == old(self).snapshot(),
            match r {
                Some(i) => old(self).cursor() <= i < B::spec_max_len()
                    && !old(self).snapshot()[i as int] && (forall|k: int|
                    old(self).cursor() <= k < i ==> old(self).snapshot()[k]) && final(
                self).cursor() == i + 1,
                None => (forall|k: int|
                    old(self).cursor() <= k < B::spec_max_len() ==> old(self).snapshot()[k])
                    && final(self).cursor() == B::spec_max_len(),
            },
    {
        loop
            invariant
                self.wf(),
                self.snapshot() == old(self).snapshot(),
                old(self).cursor() <= self.cursor(),
                forall|k: int| old(self).cursor() <= k < self.cursor() ==> self.snapshot()[k],
            decreases B::spec_max_len() - self.cursor(),
        {
            if self.counter == B::max_len() {
                return None;
            }
            let elem = self.inner.next();
            let index = self.counter;
            self.counter = self.counter + 1;
            if let Some(bit) = elem {
                if !bit {
                    return Some(index);
                }
            }
        }
    }
}

impl<B: Base> BitArray<B> {
    /// Create an iterator over all the bits of this array.
    ///
    /// The iterator yields exactly `max_len` booleans, index 0 first, from a
    /// copy of the array taken now.
    pub fn iter(&self) -> (r: BitArrayIter<B>)
        ensures
            r.wf(),
            r.snapshot() == self@,
            r.cursor() == 0,
    {
        // Just copy the array, as it is not that big
        BitArrayIter::new(*self)
    }

    /// Creating an iterator over all the indexes set to 1.
    pub fn ones(&self) -> (r: Ones<B>)
        ensures
            r.wf(),
            r.snapshot() == self@,
            r.cursor() == 0,
    {
        Ones::new(*self)
    }

    /// Creating an iterator over all the indexes set to 0.
    pub fn zeroes(&self) -> (r: Zeroes<B>)
        ensures
            r.wf(),
            r.snapshot() == self@,
            r.cursor() == 0,
    {
        Zeroes::new(*self)
    }
}

} // verus!
