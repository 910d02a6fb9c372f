//! A single reversible byte-region mutation.
//!
//! Creating a patch captures the live bytes at its address and writes the
//! new ones; reverting writes the captured bytes back. A patch is installed
//! exactly once (by construction) and reverted at most once: reverting
//! consumes it, so a second revert does not type-check.

use crate::region::{splice, MemoryRegion};
use vstd::prelude::*;

verus! {

pub struct Patch {
    address: usize,
    original: Vec<u8>,
}

impl Patch {
    /// The patched address, for specifications.
    pub closed spec fn spec_address(&self) -> usize {
        self.address
    }

    /// The bytes that were live at the address before the patch.
    pub closed spec fn original_bytes(&self) -> Seq<u8> {
        self.original@
    }

    /// How many bytes the patch covers.
    pub open spec fn size(&self) -> int {
        self.original_bytes().len() as int
    }

    /// The patched address.
    pub fn address(&self) -> (r: usize)
        ensures
            r == self.spec_address(),
    {
        self.address
    }

    /// How many bytes the patch covers.
    pub fn len(&self) -> (r: usize)
        ensures
            r == self.size(),
    {
        self.original.len()
    }

    /// Captures the live bytes at `address` and overwrites them with
    /// `new_value`.
    pub fn new(mem: &mut MemoryRegion, address: usize, new_value: &Vec<u8>) -> (p: Patch)
        requires
            old(mem).wf(),
            old(mem).contains_range(address as int, new_value@.len() as int),
        ensures
            final(mem).wf(),
            final(mem).spec_start() == old(mem).spec_start(),
            final(mem)@ == splice(old(mem)@, address - old(mem).spec_start(), new_value@),
            p.spec_address() == address,
            p.size() == new_value@.len(),
            p.original_bytes() == old(mem)@.subrange(
                address - old(mem).spec_start(),
                address - old(mem).spec_start() + new_value@.len(),
            ),
    {
        let original = mem.read_bytes(address, new_value.len());
        mem.write_bytes(address, new_value);
        Patch { address, original }
    }

    /// Writes the captured original bytes back, consuming the patch.
    pub fn revert(self, mem: &mut MemoryRegion)
        requires
            old(mem).wf(),
            old(mem).contains_range(self.spec_address() as int, self.size()),
        ensures
            final(mem).wf(),
            final(mem).spec_start() == old(mem).spec_start(),
            final(mem)@ == splice(
                old(mem)@,
                self.spec_address() - old(mem).spec_start(),
                self.original_bytes(),
            ),
    {
        mem.write_bytes(self.address, &self.original);
    }
}

/// Law: installing a patch and then reverting it restores the bytes that
/// were present before the install. On the byte-sequence model: splicing in
/// new bytes and then splicing the captured range of the original sequence
/// back over them yields the original sequence.
pub proof fn lemma_patch_round_trip(b: Seq<u8>, off: int, new: Seq<u8>)
    requires
        0 <= off,
        off + new.len() <= b.len(),
    ensures
        splice(splice(b, off, new), off, b.subrange(off, off + new.len() as int)) == b,
{
    assert(splice(splice(b, off, new), off, b.subrange(off, off + new.len() as int)) =~= b);
}

} // verus!
