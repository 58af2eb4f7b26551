//! First stage: the disk address packet and the partition table entry.
use vstd::prelude::*;

verus! {

/// A disk address packet (BIOS extended read).
#[derive(Debug, Clone, Copy, PartialEq, Eq, Structural)]
pub struct DAP {
    /// Packet size
    pub size: u8,
    /// Always 0
    pub zero: u8,
    /// Number of sectors
    pub sectors: u16,
    /// Transfer buffer offset (real-mode segment:offset)
    pub offset: u16,
    /// Transfer buffer segment
    pub segment: u16,
    /// Logical block address (48 bits used)
    pub lba: u64,
}

impl DAP {
    /// A packet reading `size` sectors at `lba` to `address`, in real-mode
    /// segment:offset form: the offset is the address's low four bits, the
    /// segment the rest (truncated to 16 bits), so that below 1 MiB
    /// `segment * 16 + offset` is the address.
    pub fn new(size: u16, address: u32, lba: u64) -> (r: DAP)
        ensures
            r == (DAP {
                size: 0x10,
                zero: 0,
                sectors: size,
                offset: (address & 0xF) as u16,
                segment: (address >> 4) as u16,
                lba,
            }),
            address < 0x10_0000 ==> r.segment * 16 + r.offset == address,
    {
        let offset = (address & 0xF) as u16;
        let segment = (address >> 4) as u16;
        assert(address < 0x10_0000 ==> (segment as u32) * 16 + (offset as u32) == address) by (bit_vector)
            requires
                offset == (address & 0xF) as u16,
                segment == (address >> 4) as u16,
        ;
        DAP { size: 0x10, zero: 0, sectors: size, offset, segment, lba }
    }
}

/// A partition table entry, as the first stage reads it.
#[derive(Debug, Clone, Copy, PartialEq, Eq, Structural)]
pub struct PartitionTableEntry {
    pub bootable: u32,
    pub partition_type: u32,
    pub lba: u32,
    pub sectors: u32,
}

/// The packet that loads the second stage to `target`: the first
/// partition's sectors (the count truncated to 16 bits) from its first
/// block on.
pub fn second_stage_packet(partitions: &[PartitionTableEntry; 4], target: u32) -> (r: DAP)
    ensures
        r == (DAP {
            size: 0x10,
            zero: 0,
            sectors: partitions[0].sectors as u16,
            offset: (target & 0xF) as u16,
            segment: (target >> 4) as u16,
            lba: partitions[0].lba as u64,
        }),
{
    let first = partitions[0];
    DAP::new(first.sectors as u16, target, first.lba as u64)
}

} // verus!
