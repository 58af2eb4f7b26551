//! The GDT used to enter unreal mode.
use vstd::prelude::*;

verus! {

/// A three-entry GDT: null, code, data.
#[derive(Debug, Clone, Copy, PartialEq, Eq, Structural)]
pub struct GDT {
    pub empty: u64,
    pub code: u64,
    pub data: u64,
}

/// The GDT register's operand: the table's size less one and its address.
#[derive(Debug, Clone, Copy, PartialEq, Eq, Structural)]
pub struct GDTPointer {
    pub length: u16,
    pub base: u32,
}

impl GDT {
    /// The unreal-mode GDT: a null entry, a 16-bit code segment and a flat
    /// 4 GiB data segment.
    pub fn new() -> (r: GDT)
        ensures
            r == (GDT { empty: 0, code: 0x0FFF_F000_0009_A000u64, data: 0x0FFF_F000_0009_2CF0u64 }),
    {
        GDT { empty: 0, code: 0x0FFF_F000_0009_A000, data: 0x0FFF_F000_0009_2CF0 }
    }

    /// The operand that loads this table from address `base`.
    pub fn pointer(&self, base: u32) -> (r: GDTPointer)
        ensures
            r == (GDTPointer { length: 23, base }),
    {
        GDTPointer { length: 23, base }
    }
}

} // verus!
