//! A list with a fixed capacity chosen at compile time.
//!
//! The host environment frowns on unbounded growth while its threads run,
//! so pushes beyond the capacity are refused with an error instead of
//! reallocating.

use vstd::prelude::*;

verus! {

#[derive(Debug, PartialEq, Eq, Structural)]
pub enum Error {
    CapacityReached,
    /// The index given to `swap_remove`, and the length it exceeded.
    BadSwapRemoveIndex(usize, usize),
    /// The index given to `get`, and the length it exceeded.
    BadGetIndex(usize, usize),
}

pub struct List<T, const N: usize> {
    data: Vec<T>,
}

impl<T, const N: usize> View for List<T, N> {
    type V = Seq<T>;

    closed spec fn view(&self) -> Seq<T> {
        self.data@
    }
}

impl<T, const N: usize> List<T, N> {
    /// The list never holds more than its capacity.
    pub open spec fn wf(&self) -> bool {
        self@.len() <= N
    }

    pub fn new() -> (r: List<T, N>)
        ensures
            r.wf(),
            r@ == Seq::<T>::empty(),
    {
        List { data: Vec::new() }
    }

    pub fn is_empty(&self) -> (r: bool)
        ensures
            r == (self@.len() == 0),
    {
        self.data.len() == 0
    }

    pub fn len(&self) -> (r: usize)
        ensures
            r == self@.len(),
    {
        self.data.len()
    }

    pub fn capacity(&self) -> (r: usize)
        ensures
            r == N,
    {
        N
    }

    pub fn clear(&mut self)
        ensures
            final(self).wf(),
            final(self)@ == Seq::<T>::empty(),
    {
        self.data.clear();
    }

    /// The elements held so far, in order.
    pub fn iter(&self) -> (r: &Vec<T>)
        ensures
            r@ == self@,
    {
        &self.data
    }

    /// Appends one element; refused once the capacity is reached.
    pub fn push(&mut self, value: T) -> (r: Result<(), Error>)
        requires
            old(self).wf(),
        ensures
            final(self).wf(),
            match r {
                Ok(u) => old(self)@.len() < N && final(self)@ == old(self)@.push(value),
                Err(e) => e == Error::CapacityReached && old(self)@.len() == N && final(self)@
                    == old(self)@,
            },
    {
        if self.data.len() < N {
            self.data.push(value);
            Ok(())
        } else {
            Err(Error::CapacityReached)
        }
    }

    pub fn get(&self, index: usize) -> (r: Result<&T, Error>)
        ensures
            match r {
                Ok(v) => index < self@.len() && *v == self@[index as int],
                Err(e) => index >= self@.len() && e == Error::BadGetIndex(
                    index,
                    self@.len() as usize,
                ),
            },
    {
        if index < self.data.len() {
            Ok(&self.data[index])
        } else {
            Err(Error::BadGetIndex(index, self.data.len()))
        }
    }

    /// Removes the element at `index` by moving the last element into its
    /// place.
    pub fn swap_remove(&mut self, index: usize) -> (r: Result<T, Error>)
        requires
            old(self).wf(),
        ensures
            final(self).wf(),
            match r {
                Ok(v) => index < old(self)@.len() && v == old(self)@[index as int]
                    && final(self)@ == old(self)@.update(index as int, old(self)@.last()).drop_last(),
                Err(e) => index >= old(self)@.len() && e == Error::BadSwapRemoveIndex(
                    index,
                    old(self)@.len() as usize,
                ) && final(self)@ == old(self)@,
            },
    {
        if index < self.data.len() {
            Ok(self.data.swap_remove(index))
        } else {
            Err(Error::BadSwapRemoveIndex(index, self.data.len()))
        }
    }
}

impl<const N: usize> List<u8, N> {
    /// Appends a whole byte string, or none of it when it would not fit.
    pub fn write_bytes(&mut self, bytes: &Vec<u8>) -> (r: Result<(), Error>)
        requires
            old(self).wf(),
        ensures
            final(self).wf(),
            match r {
                Ok(u) => old(self)@.len() + bytes@.len() <= N && final(self)@ == old(self)@
                    + bytes@,
                Err(e) => e == Error::CapacityReached && old(self)@.len() + bytes@.len() > N
                    && final(self)@ == old(self)@,
            },
    {
        if bytes.len() <= N - self.data.len() {
            let ghost orig = self@;
            let mut i: usize = 0;
            while i < bytes.len()
                invariant
                    i <= bytes@.len(),
                    orig.len() + bytes@.len() <= N,
                    self@ == orig + bytes@.subrange(0, i as int),
                decreases bytes@.len() - i,
            {
                self.data.push(bytes[i]);
                proof {
                    assert(self@ =~= orig + bytes@.subrange(0, i + 1));
                }
                i = i + 1;
            }
            proof {
                assert(self@ =~= orig + bytes@);
            }
            Ok(())
        } else {
            Err(Error::CapacityReached)
        }
    }
}

} // verus!
