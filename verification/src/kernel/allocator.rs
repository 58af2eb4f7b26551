//! The kernel heap's place: the pages mapped for it at boot.
use vstd::prelude::*;

verus! {

/// Heap start address (in the higher half).
pub const HEAP_START: u64 = 0x_4444_4444_0000;
/// Heap size: 1 MiB.
pub const HEAP_SIZE: u64 = 0x10_0000;

/// Why the heap could not be set up.
#[derive(Debug, Clone, Copy, PartialEq, Eq, Structural)]
pub enum HeapError {
    FrameAllocationFailed,
    MappingFailed,
}

/// The heap's pages: from the page holding its first byte to the page holding
/// its last, each mapped present and writable to a fresh frame.
pub fn heap_pages() -> (r: (u64, u64))
    ensures
        r == (HEAP_START, HEAP_SIZE / 4096),
{
    let heap_start = HEAP_START;
    let heap_end = HEAP_START + HEAP_SIZE - 1;
    let start_page = heap_start - heap_start % 4096;
    let end_page = heap_end - heap_end % 4096;
    (start_page, (end_page - start_page) / 4096 + 1)
}

} // verus!
