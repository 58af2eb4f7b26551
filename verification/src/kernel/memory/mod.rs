//! Memory management: physical frames, and the addresses page mappings use.
pub mod frame_allocator;

use vstd::prelude::*;

verus! {

/// The virtual address at which physical address `phys` is seen through the
/// physical-memory mapping at `offset`.
pub fn phys_to_virt(offset: u64, phys: u64) -> (r: u64)
    requires
        offset + phys <= u64::MAX,
    ensures
        r == offset + phys,
{
    offset + phys
}

} // verus!
