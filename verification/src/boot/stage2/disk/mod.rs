//! Disk access types of the second stage.
pub mod dap;
pub mod file;

use vstd::prelude::*;

verus! {

/// Where to seek to.
#[derive(Debug, Clone, Copy, PartialEq, Eq, Structural)]
pub enum SeekFrom {
    Start(u64),
}

/// A byte buffer (the loader keeps it 2-byte aligned for BIOS transfers).
pub struct AlignedArrayBuffer<const LEN: usize> {
    pub buffer: [u8; LEN],
}

/// Moving a reader's position.
pub trait Seek {
    /// Moves to `pos` and gives the new position.
    fn seek(&mut self, pos: SeekFrom) -> (r: u64);
}

/// A buffer that disk reads land in.
pub trait AlignedBuffer {
    /// The bytes held.
    spec fn bytes(&self) -> Seq<u8>;

    /// The buffer's bytes.
    fn slice(&self) -> (r: &[u8])
        ensures
            r@ == self.bytes(),
    ;

    /// The buffer's bytes, to fill.
    fn slice_mut(&mut self) -> (r: &mut [u8])
        ensures
            r@ == old(self).bytes(),
            final(self).bytes() == final(r)@,
    ;
}

impl<const LEN: usize> AlignedBuffer for AlignedArrayBuffer<LEN> {
    open spec fn bytes(&self) -> Seq<u8> {
        self.buffer@
    }

    fn slice(&self) -> (r: &[u8]) {
        self.buffer.as_slice()
    }

    fn slice_mut(&mut self) -> (r: &mut [u8]) {
        let r: &mut [u8] = &mut self.buffer;
        r
    }
}

/// A reader of a disk: its BIOS number, the base byte position of the
/// partition, and the current offset from it.
#[derive(Debug, Clone, Copy, PartialEq, Eq, Structural)]
pub struct DiskReader {
    pub disk_number: u16,
    pub base: u64,
    pub offset: u64,
}

impl Seek for DiskReader {
    /// Sets the offset from the partition's base.
    fn seek(&mut self, pos: SeekFrom) -> (r: u64)
        ensures
            final(self).offset == (match pos {
                SeekFrom::Start(o) => o,
            }),
            r == final(self).offset,
            final(self).base == old(self).base,
            final(self).disk_number == old(self).disk_number,
    {
        self.offset = match pos {
            SeekFrom::Start(offset) => offset,
        };
        self.offset
    }
}

} // verus!
