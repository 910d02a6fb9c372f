//! Mirrors of the host engine's interned-name types, over plain values.
//!
//! A name is an index into the engine's name table plus an instance
//! number; a table entry is a small header and the name's bytes. The live
//! table itself belongs to the host — these types model exactly the fields
//! the library's logic reads.

use crate::util;
use vstd::prelude::*;

verus! {

/// A packed name-table index: the table block in the upper bits, the
/// offset inside the block in the lower 16.
pub struct FNameEntryId {
    value: u32,
}

impl FNameEntryId {
    pub closed spec fn spec_value(&self) -> u32 {
        self.value
    }

    /// Packs a block number and an in-block offset.
    pub fn from(block: u32, offset: u32) -> (r: FNameEntryId)
        requires
            block < 0x2000,
            offset < 0x1_0000,
        ensures
            r.spec_value() == block * 0x1_0000 + offset,
    {
        FNameEntryId { value: block * 0x1_0000 + offset }
    }

    /// The block number.
    pub fn block(&self) -> (r: u32)
        ensures
            r == self.spec_value() / 0x1_0000,
    {
        self.value / 0x1_0000
    }

    /// The offset inside the block.
    pub fn offset(&self) -> (r: u32)
        ensures
            r == self.spec_value() % 0x1_0000,
    {
        self.value % 0x1_0000
    }

    pub fn value(&self) -> (r: u32)
        ensures
            r == self.spec_value(),
    {
        self.value
    }
}

/// Law: packing a block and offset and unpacking them again returns the
/// numbers that went in.
pub proof fn lemma_entry_id_round_trip(block: u32, offset: u32)
    requires
        block < 0x2000,
        offset < 0x1_0000,
    ensures
        (block * 0x1_0000 + offset) / 0x1_0000 == block,
        (block * 0x1_0000 + offset) % 0x1_0000 == offset,
{
    let v = block * 0x1_0000 + offset;
    vstd::arithmetic::div_mod::lemma_fundamental_div_mod_converse(
        v as int,
        0x1_0000,
        block as int,
        offset as int,
    );
}

/// An interned name: comparison index plus instance number.
pub struct FName {
    comparison_index: FNameEntryId,
    number: u32,
}

impl FName {
    pub closed spec fn spec_comparison_index(&self) -> u32 {
        self.comparison_index.spec_value()
    }

    pub closed spec fn spec_number(&self) -> u32 {
        self.number
    }

    pub fn new(comparison_index: FNameEntryId, number: u32) -> (r: FName)
        ensures
            r.spec_comparison_index() == comparison_index.spec_value(),
            r.spec_number() == number,
    {
        FName { comparison_index, number }
    }

    /// The instance number distinguishing same-named objects.
    pub fn number(&self) -> (r: u32)
        ensures
            r == self.spec_number(),
    {
        self.number
    }
}

/// The packed header of one name-table entry: a wide-text flag in the low
/// bit and the text length in the upper ten.
pub struct FNameEntryHeader {
    pub bitfield: u16,
}

impl FNameEntryHeader {
    /// The entry stores two-byte characters.
    pub fn is_wide(&self) -> (r: bool)
        ensures
            r == (self.bitfield % 2 == 1),
    {
        self.bitfield % 2 == 1
    }

    /// The entry's text length in characters.
    pub fn len(&self) -> (r: u16)
        ensures
            r == self.bitfield / 64,
    {
        self.bitfield / 64
    }
}

/// One name-table entry: its header and the text bytes it holds.
pub struct FNameEntry {
    pub header: FNameEntryHeader,
    pub ansi_name: Vec<u8>,
}

impl FNameEntry {
    pub fn is_empty(&self) -> (r: bool)
        ensures
            r == (self.header.bitfield / 64 == 0),
    {
        self.header.bitfield / 64 == 0
    }

    pub fn len(&self) -> (r: usize)
        ensures
            r == self.header.bitfield / 64,
    {
        (self.header.bitfield / 64) as usize
    }

    /// The entry's text bytes.
    pub fn text(&self) -> (r: &Vec<u8>)
        ensures
            r@ == self.ansi_name@,
    {
        &self.ansi_name
    }

    /// How many bytes the entry occupies in its table block: header plus
    /// text, rounded up to the two-byte stride.
    pub fn get_size(&self) -> (r: usize)
        ensures
            r == util::spec_align(
                2 + (if self.header.bitfield % 2 == 1 {
                    2 * (self.header.bitfield / 64) as int
                } else {
                    (self.header.bitfield / 64) as int
                }),
                2,
            ),
    {
        let len = (self.header.bitfield / 64) as usize;
        let num_text_bytes: usize = if self.header.bitfield % 2 == 1 {
            2 * len
        } else {
            len
        };
        util::align(2 + num_text_bytes, 2)
    }
}

} // verus!
