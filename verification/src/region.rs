//! The model of a borrowed memory region of the host process: a base
//! address and the bytes currently at it.
//!
//! The host owns the live memory; this library only ever works on such a
//! borrowed view. Every read and write is bounds-checked against the
//! region, and writes are specified exactly as a splice of the byte
//! sequence.

use crate::cave;
use vstd::prelude::*;

verus! {

/// `b` with the bytes at `[off, off + new.len())` replaced by `new`.
pub open spec fn splice(b: Seq<u8>, off: int, new: Seq<u8>) -> Seq<u8> {
    b.subrange(0, off) + new + b.subrange(off + new.len(), b.len() as int)
}

/// How a splice reads index by index: the new bytes inside the replaced
/// range, the old bytes everywhere else, at unchanged length.
pub proof fn lemma_splice_parts(b: Seq<u8>, off: int, new: Seq<u8>)
    requires
        0 <= off,
        off + new.len() <= b.len(),
    ensures
        splice(b, off, new).len() == b.len(),
        forall|j: int| 0 <= j < off ==> #[trigger] splice(b, off, new)[j] == b[j],
        forall|j: int|
            off <= j < off + new.len() ==> #[trigger] splice(b, off, new)[j] == new[j - off],
        forall|j: int|
            off + new.len() <= j < b.len() ==> #[trigger] splice(b, off, new)[j] == b[j],
{
}

/// Two splices over adjacent ranges collapse into one splice of the
/// concatenation.
pub proof fn lemma_splice_adjacent(b: Seq<u8>, off: int, x: Seq<u8>, y: Seq<u8>)
    requires
        0 <= off,
        off + x.len() + y.len() <= b.len(),
    ensures
        splice(splice(b, off, x), off + x.len(), y) == splice(b, off, x + y),
{
    assert(splice(splice(b, off, x), off + x.len(), y) =~= splice(b, off, x + y));
}

/// A maximal run of filler bytes found inside a region, addressed
/// absolutely.
pub struct CodeCave {
    pub start: usize,
    pub length: usize,
}

/// A read/write/execute view into the host image: base address plus the
/// bytes at it.
pub struct MemoryRegion {
    start: usize,
    bytes: Vec<u8>,
}

impl View for MemoryRegion {
    type V = Seq<u8>;

    closed spec fn view(&self) -> Seq<u8> {
        self.bytes@
    }
}

impl MemoryRegion {
    /// The base address, for use in specifications.
    pub closed spec fn spec_start(&self) -> usize {
        self.start
    }

    /// The region does not wrap around the end of the address space.
    pub open spec fn wf(&self) -> bool {
        self.spec_start() + self@.len() <= usize::MAX
    }

    /// `[addr, addr + len)` lies inside the region.
    pub open spec fn contains_range(&self, addr: int, len: int) -> bool {
        self.spec_start() <= addr && addr + len <= self.spec_start() + self@.len()
    }

    pub fn new(start: usize, bytes: Vec<u8>) -> (r: MemoryRegion)
        requires
            start + bytes@.len() <= usize::MAX,
        ensures
            r.wf(),
            r.spec_start() == start,
            r@ == bytes@,
    {
        MemoryRegion { start, bytes }
    }

    pub fn start(&self) -> (r: usize)
        ensures
            r == self.spec_start(),
    {
        self.start
    }

    pub fn len(&self) -> (r: usize)
        ensures
            r == self@.len(),
    {
        self.bytes.len()
    }

    /// The bytes of the whole region, for scanning.
    pub fn as_bytes(&self) -> (r: &Vec<u8>)
        ensures
            r@ == self@,
    {
        &self.bytes
    }

    /// Gives the bytes back to the host, which writes them to live memory.
    pub fn into_bytes(self) -> (r: Vec<u8>)
        ensures
            r@ == self@,
    {
        self.bytes
    }

    /// Copies the `len` live bytes at `addr` out of the region.
    pub fn read_bytes(&self, addr: usize, len: usize) -> (r: Vec<u8>)
        requires
            self.wf(),
            self.contains_range(addr as int, len as int),
        ensures
            r@ == self@.subrange(
                addr - self.spec_start(),
                addr - self.spec_start() + len,
            ),
    {
        let off = addr - self.start;
        let mut out: Vec<u8> = Vec::new();
        let mut i: usize = 0;
        while i < len
            invariant
                off == addr - self.spec_start(),
                off + len <= self@.len(),
                self@.len() <= usize::MAX,
                i <= len,
                out@ == self@.subrange(off as int, off + i),
            decreases len - i,
        {
            out.push(self.bytes[off + i]);
            proof {
                assert(out@ =~= self@.subrange(off as int, off + i + 1));
            }
            i = i + 1;
        }
        out
    }

    /// Overwrites the `new.len()` live bytes at `addr`.
    pub fn write_bytes(&mut self, addr: usize, new: &Vec<u8>)
        requires
            old(self).wf(),
            old(self).contains_range(addr as int, new@.len() as int),
        ensures
            final(self).wf(),
            final(self).spec_start() == old(self).spec_start(),
            final(self)@ == splice(old(self)@, addr - old(self).spec_start(), new@),
    {
        let off = addr - self.start;
        let len = new.len();
        let mut i: usize = 0;
        while i < len
            invariant
                len == new@.len(),
                off + len <= self@.len(),
                self@.len() <= usize::MAX,
                i <= len,
                self.spec_start() == old(self).spec_start(),
                self@.len() == old(self)@.len(),
                forall|j: int| 0 <= j < off ==> self@[j] == old(self)@[j],
                forall|j: int| off + len <= j < self@.len() ==> self@[j] == old(self)@[j],
                forall|j: int| 0 <= j < i ==> self@[off + j] == #[trigger] new@[j],
                forall|j: int| i <= j < len ==> #[trigger] self@[off + j] == old(self)@[off + j],
            decreases len - i,
        {
            self.bytes.set(off + i, new[i]);
            i = i + 1;
        }
        proof {
            assert(self@ =~= splice(old(self)@, off as int, new@));
        }
    }

    /// Finds the usable code cave whose start address is nearest to `near`
    /// (ties toward the lower address); `None` when the region holds no
    /// maximal filler run of at least `min_length` bytes.
    pub fn find_code_cave(&self, near: usize, min_length: usize) -> (r: Option<CodeCave>)
        requires
            self.wf(),
            min_length >= 1,
            self.spec_start() <= near,
        ensures
            match r {
                Some(c) => c.start >= self.spec_start() && cave::nearest_cave(
                    self@,
                    c.start - self.spec_start(),
                    c.length as int,
                    near - self.spec_start(),
                    min_length as int,
                ),
                None => forall|s2: int, l2: int|
                    !cave::usable_cave(self@, s2, l2, min_length as int),
            },
    {
        match cave::find_cave(&self.bytes, near - self.start, min_length) {
            Some((s, l)) => Some(CodeCave { start: self.start + s, length: l }),
            None => None,
        }
    }
}

} // verus!
