//! Boot information handed from the bootloader to the kernel.
use vstd::prelude::*;

verus! {

/// A region of the BIOS memory map.
#[derive(Debug, Clone, Copy, PartialEq, Eq, Structural)]
pub struct MemoryRegion {
    pub address: u64,
    pub length: u64,
    pub region_type: u32,
    pub extra_bits: u32,
}

impl MemoryRegion {
    /// An empty region.
    pub fn default() -> (r: MemoryRegion)
        ensures
            r == (MemoryRegion { address: 0, length: 0, region_type: 0, extra_bits: 0 }),
    {
        MemoryRegion { address: 0, length: 0, region_type: 0, extra_bits: 0 }
    }
}

/// The memory map.
pub struct MemoryInfo {
    pub memory: Vec<MemoryRegion>,
}

/// The video mode chosen.
#[derive(Debug, Clone, Copy, PartialEq, Eq, Structural)]
pub struct VideoInfo {
    pub mode: u16,
    pub width: u16,
    pub height: u16,
    pub framebuffer: u32,
    pub bytes_per_pixel: u16,
    pub bytes_per_line: u16,
}

/// Boot information.
pub struct BootInfo {
    pub video: VideoInfo,
    pub memory: MemoryInfo,
}

impl VideoInfo {
    /// Where a write of pixel `pixel` stores its three bytes: the
    /// framebuffer address advanced by `pixel.1` lines (the column is not
    /// applied).
    pub fn row_address(&self, pixel: (u32, u32)) -> (r: u64)
        requires
            self.bytes_per_line * pixel.1 <= u32::MAX,
        ensures
            r == self.framebuffer + self.bytes_per_line * pixel.1,
    {
        let offset = self.bytes_per_line as u32 * pixel.1;
        self.framebuffer as u64 + offset as u64
    }
}

} // verus!
