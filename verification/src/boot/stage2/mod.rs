//! Second stage: disk reading, console output, VESA modes, the GDT.
pub mod dap;
pub mod disk;
pub mod gdt;
pub mod legacy_print;
pub mod memory;
pub mod partitions;
pub mod print;
pub mod vesa;

use vstd::prelude::*;

verus! {

/// A partition table entry (MBR layout).
#[derive(Debug, Clone, Copy, PartialEq, Eq, Structural, Default)]
pub struct PartitionTableEntry {
    pub boot_flag: u8,
    pub starting_head: u8,
    pub starting_sector_cylinder: u16,
    pub system_id: u8,
    pub ending_head: u8,
    pub ending_sector_cylinder: u16,
    pub lba: u32,
    pub sectors: u32,
}

} // verus!
