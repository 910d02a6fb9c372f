//! A fixed-capacity byte buffer for assembling text.

use vstd::prelude::*;

verus! {

pub struct Buffer<const N: usize> {
    data: Vec<u8>,
}

impl<const N: usize> View for Buffer<N> {
    type V = Seq<u8>;

    closed spec fn view(&self) -> Seq<u8> {
        self.data@
    }
}

impl<const N: usize> Buffer<N> {
    /// The buffer never holds more than its capacity.
    pub open spec fn wf(&self) -> bool {
        self@.len() <= N
    }

    pub fn new() -> (r: Buffer<N>)
        ensures
            r.wf(),
            r@ == Seq::<u8>::empty(),
    {
        Buffer { data: Vec::new() }
    }

    /// The bytes written so far.
    pub fn as_bytes(&self) -> (r: &Vec<u8>)
        ensures
            r@ == self@,
    {
        &self.data
    }

    pub fn len(&self) -> (r: usize)
        ensures
            r == self@.len(),
    {
        self.data.len()
    }

    /// Appends the whole byte string when it fits, else appends nothing
    /// and reports the refusal.
    pub fn write_bytes(&mut self, source: &Vec<u8>) -> (r: bool)
        requires
            old(self).wf(),
        ensures
            final(self).wf(),
            r == (old(self)@.len() + source@.len() <= N),
            final(self)@ == if r {
                old(self)@ + source@
            } else {
                old(self)@
            },
    {
        if source.len() <= N - self.data.len() {
            let ghost orig = self@;
            let mut i: usize = 0;
            while i < source.len()
                invariant
                    i <= source@.len(),
                    orig.len() + source@.len() <= N,
                    self@ == orig + source@.subrange(0, i as int),
                decreases source@.len() - i,
            {
                self.data.push(source[i]);
                proof {
                    assert(self@ =~= orig + source@.subrange(0, i + 1));
                }
                i = i + 1;
            }
            proof {
                assert(self@ =~= orig + source@);
            }
            true
        } else {
            false
        }
    }
}

} // verus!
