//! Mirrors of the host engine's object-model value types, over plain
//! fields.
//!
//! The live objects belong to the host process; these types carry the
//! fields the library's logic reads, as plain values a caller fills in.
//! The flag constants are reverse-engineered configuration data tied to
//! the host build, not part of any algorithm here.

#![allow(non_upper_case_globals)]

use crate::name::FName;
use vstd::prelude::*;

verus! {

/// Flags telling an object's class apart without a class-graph walk.
#[derive(Clone, Copy, PartialEq, Eq, Structural, Debug)]
pub struct EClassCastFlags(pub u64);

impl EClassCastFlags {
    pub const CASTCLASS_UField: u64 = 0x1;

    pub const CASTCLASS_UEnum: u64 = 0x4;

    pub const CASTCLASS_UStruct: u64 = 0x8;

    pub const CASTCLASS_UScriptStruct: u64 = 0x10;

    pub const CASTCLASS_UClass: u64 = 0x20;

    pub const CASTCLASS_FByteProperty: u64 = 0x40;

    pub const CASTCLASS_FIntProperty: u64 = 0x80;

    pub const CASTCLASS_FFloatProperty: u64 = 0x100;

    pub const CASTCLASS_FBoolProperty: u64 = 0x20000;

    pub const CASTCLASS_UFunction: u64 = 0x80000;

    pub const CASTCLASS_FStructProperty: u64 = 0x100000;

    pub const CASTCLASS_FArrayProperty: u64 = 0x200000;

    pub const CASTCLASS_FObjectPropertyBase: u64 = 0x4000000;

    pub const CASTCLASS_UPackage: u64 = 0x400000000;

    pub const CASTCLASS_AActor: u64 = 0x1000000000;

    pub const CASTCLASS_APlayerController: u64 = 0x2000000000;

    pub const CASTCLASS_FMapProperty: u64 = 0x400000000000;

    pub const CASTCLASS_FSetProperty: u64 = 0x800000000000;

    pub const CASTCLASS_FEnumProperty: u64 = 0x1000000000000;

    /// At least one of the given flag bits is set.
    pub fn any(&self, flags: EClassCastFlags) -> (r: bool)
        ensures
            r == (self.0 & flags.0 != 0),
    {
        self.0 & flags.0 != 0
    }
}

/// Flags describing how an object's class was produced.
#[derive(Clone, Copy, PartialEq, Eq, Structural, Debug)]
pub struct EClassFlags(pub u32);

impl EClassFlags {
    pub const CLASS_CompiledFromBlueprint: u32 = 0x40000;

    /// At least one of the given flag bits is set.
    pub fn any(&self, flags: EClassFlags) -> (r: bool)
        ensures
            r == (self.0 & flags.0 != 0),
    {
        self.0 & flags.0 != 0
    }
}

/// Length of a struct's inheritance chain, as its base-chain header
/// records it.
pub struct FStructBaseChain {
    pub num_struct_bases_in_chain_minus_one: i32,
}

/// The class of a reflected field, reduced to its identifying flags.
pub struct FFieldClass {
    pub id: EClassCastFlags,
    pub cast_flags: EClassCastFlags,
}

/// A reflected field: its name and its field flags.
pub struct FField {
    pub name: FName,
    pub flags: u32,
}

/// A weak reference into the object table: index plus serial number.
pub struct FWeakObjectPtr {
    pub object_index: i32,
    pub object_serial_number: i32,
}

/// A bound scripting delegate: target object and function name.
pub struct FScriptDelegate {
    pub object: FWeakObjectPtr,
    pub function_name: FName,
}

/// A sparse delegate stores only whether it is bound.
pub struct FSparseDelegate {
    pub is_bound: bool,
}

/// A 128-bit globally unique identifier.
#[derive(Clone, Copy, PartialEq, Eq, Structural, Debug)]
pub struct FGuid {
    pub a: u32,
    pub b: u32,
    pub c: u32,
    pub d: u32,
}

/// The GUID naming an object independently of its table index.
#[derive(Clone, Copy, PartialEq, Eq, Structural, Debug)]
pub struct FUniqueObjectGuid {
    pub guid: FGuid,
}

} // verus!
