//! Mirrors of the host engine's reflected-property types, over plain
//! fields.
//!
//! The flag constants are reverse-engineered configuration data tied to
//! the host build.

#![allow(non_upper_case_globals)]

use vstd::prelude::*;

verus! {

/// Flags describing how a reflected property behaves.
#[derive(Clone, Copy, PartialEq, Eq, Structural, Debug)]
pub struct EPropertyFlags(pub u64);

impl EPropertyFlags {
    pub const CPF_None: u64 = 0;

    pub const CPF_Edit: u64 = 0x1;

    pub const CPF_ConstParm: u64 = 0x2;

    pub const CPF_Net: u64 = 0x20;

    pub const CPF_Parm: u64 = 0x80;

    pub const CPF_OutParm: u64 = 0x100;

    pub const CPF_ReturnParm: u64 = 0x400;

    pub const CPF_Transient: u64 = 0x2000;

    pub const CPF_SaveGame: u64 = 0x1000000;

    /// Every bit of `flag` is set in these flags.
    pub fn contains(&self, flag: EPropertyFlags) -> (r: bool)
        ensures
            r == (self.0 & flag.0 == flag.0),
    {
        self.0 & flag.0 == flag.0
    }
}

/// A reflected property: its dimensions, size, flags, and offset inside
/// its owning struct.
pub struct FProperty {
    pub array_dim: i32,
    pub element_size: i32,
    pub property_flags: EPropertyFlags,
    pub offset: i32,
}

/// A boolean property, possibly one bit of a packed bitfield.
pub struct FBoolProperty {
    pub base: FProperty,
    pub field_size: u8,
    pub byte_offset: u8,
    pub byte_mask: u8,
    pub field_mask: u8,
}

impl FBoolProperty {
    /// A full-byte boolean masks all eight bits; anything narrower is one
    /// bit of a packed bitfield.
    pub fn is_bitfield(&self) -> (r: bool)
        ensures
            r == (self.field_mask != 255),
    {
        self.field_mask != 255
    }
}

/// An array property, sized by its inner element property.
pub struct FArrayProperty {
    pub base: FProperty,
}

/// A map property, stored inline with its declared element size.
pub struct FMapProperty {
    pub base: FProperty,
}

/// A set property, stored inline with its declared element size.
pub struct FSetProperty {
    pub base: FProperty,
}

/// A key/value pair as the engine's containers store it.
pub struct TPair<K, V> {
    pub key: K,
    pub value: V,
}

} // verus!
