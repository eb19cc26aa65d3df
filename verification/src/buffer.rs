//! The byte buffer shared by a driver and the kernel.
//!
//! Each driver owns one growable byte buffer of a fixed capacity.  The kernel
//! appends bytes at the tail (a read completion), decoders and writers consume
//! bytes from the head.  The logical length never exceeds the capacity the
//! buffer was created with.

use std::collections::VecDeque;
use vstd::prelude::*;

verus! {

/// A byte buffer of fixed capacity, filled at the tail and drained at the
/// head.
pub struct IoBuffer {
    data: VecDeque<u8>,
    cap: usize,
}

impl View for IoBuffer {
    type V = Seq<u8>;

    closed spec fn view(&self) -> Seq<u8> {
        self.data@
    }
}

impl IoBuffer {
    /// The capacity the buffer was created with.
    pub closed spec fn spec_capacity(&self) -> usize {
        self.cap
    }

    /// The logical length never exceeds the capacity.
    pub open spec fn wf(&self) -> bool {
        self@.len() <= self.spec_capacity()
    }

    pub fn with_capacity(cap: usize) -> (r: IoBuffer)
        ensures
            r.wf(),
            r@ == Seq::<u8>::empty(),
            r.spec_capacity() == cap,
    {
        IoBuffer { data: VecDeque::new(), cap }
    }

    pub fn len(&self) -> (n: usize)
        ensures
            n == self@.len(),
    {
        self.data.len()
    }

    pub fn is_empty(&self) -> (r: bool)
        ensures
            r == (self@.len() == 0),
    {
        self.data.len() == 0
    }

    pub fn capacity(&self) -> (n: usize)
        ensures
            n == self.spec_capacity(),
    {
        self.cap
    }

    /// How many more bytes fit before the buffer reaches its capacity.
    pub fn remaining(&self) -> (n: usize)
        requires
            self.wf(),
        ensures
            n == self.spec_capacity() - self@.len(),
    {
        self.cap - self.data.len()
    }

    pub fn get(&self, i: usize) -> (b: u8)
        requires
            i < self@.len(),
        ensures
            b == self@[i as int],
    {
        self.data[i]
    }

    pub fn push(&mut self, b: u8)
        requires
            old(self)@.len() < old(self).spec_capacity(),
        ensures
            final(self)@ == old(self)@.push(b),
            final(self).spec_capacity() == old(self).spec_capacity(),
    {
        self.data.push_back(b);
    }

    /// Append bytes at the tail; the caller guarantees they fit.
    pub fn extend_from_slice(&mut self, bytes: &[u8])
        requires
            old(self)@.len() + bytes@.len() <= old(self).spec_capacity(),
        ensures
            final(self)@ == old(self)@ + bytes@,
            final(self).spec_capacity() == old(self).spec_capacity(),
    {
        let ghost orig: Seq<u8> = self@;
        let mut i: usize = 0;
        while i < bytes.len()
            invariant
                i <= bytes@.len(),
                self@ == orig + bytes@.take(i as int),
                self.spec_capacity() == old(self).spec_capacity(),
                orig.len() + bytes@.len() <= self.spec_capacity(),
            decreases bytes@.len() - i,
        {
            self.data.push_back(bytes[i]);
            i = i + 1;
            proof {
                assert(orig + bytes@.take(i as int) =~= (orig + bytes@.take(
                    i - 1,
                )).push(bytes@[i - 1]));
            }
        }
        proof {
            assert(orig + bytes@.take(bytes@.len() as int) =~= orig + bytes@);
        }
    }

    /// Drop `n` bytes from the head.
    pub fn advance(&mut self, n: usize)
        requires
            n <= old(self)@.len(),
        ensures
            final(self)@ == old(self)@.skip(n as int),
            final(self).spec_capacity() == old(self).spec_capacity(),
    {
        let mut i: usize = 0;
        while i < n
            invariant
                i <= n,
                n <= old(self)@.len(),
                self@ == old(self)@.skip(i as int),
                self.spec_capacity() == old(self).spec_capacity(),
            decreases n - i,
        {
            let popped = self.data.pop_front();
            i = i + 1;
            proof {
                assert(old(self)@.skip(i - 1).subrange(
                    1,
                    old(self)@.skip(i - 1).len() as int,
                ) =~= old(self)@.skip(i as int));
            }
        }
    }

    /// Remove the first `n` bytes from the head and hand them out.
    pub fn split_to(&mut self, n: usize) -> (r: Vec<u8>)
        requires
            n <= old(self)@.len(),
        ensures
            r@ == old(self)@.take(n as int),
            final(self)@ == old(self)@.skip(n as int),
            final(self).spec_capacity() == old(self).spec_capacity(),
    {
        let mut out: Vec<u8> = Vec::new();
        let mut i: usize = 0;
        while i < n
            invariant
                i <= n,
                n <= old(self)@.len(),
                out@ == old(self)@.take(i as int),
                self@ == old(self)@.skip(i as int),
                self.spec_capacity() == old(self).spec_capacity(),
            decreases n - i,
        {
            let popped = self.data.pop_front();
            match popped {
                Some(b) => {
                    out.push(b);
                },
                None => {
                    proof {
                        assert(false);
                    }
                },
            }
            i = i + 1;
            proof {
                assert(old(self)@.skip(i - 1).subrange(
                    1,
                    old(self)@.skip(i - 1).len() as int,
                ) =~= old(self)@.skip(i as int));
                assert(old(self)@.take(i - 1).push(old(self)@.skip(i - 1)[0]) =~= old(
                    self,
                )@.take(i as int));
            }
        }
        out
    }

    pub fn clear(&mut self)
        ensures
            final(self)@ == Seq::<u8>::empty(),
            final(self).spec_capacity() == old(self).spec_capacity(),
    {
        self.data.clear();
    }
}

} // verus!
