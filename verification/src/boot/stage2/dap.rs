//! Disk reading by BIOS extended reads, in chunks of at most 0xFFFF bytes
//! less the offset within the first sector.
use vstd::prelude::*;

verus! {

/// A disk address packet (BIOS extended read).
#[derive(Debug, Clone, Copy, PartialEq, Eq, Structural)]
pub struct DAP {
    pub size: u8,
    pub zero: u8,
    pub sectors: u16,
    pub offset: u16,
    pub segment: u16,
    pub lba: u64,
}

/// The packet reading `size` sectors at `lba` into `buffer` (real-mode
/// segment:offset form: offset the low 4 bits, segment the rest).
pub open spec fn dap_of(size: u16, buffer: u32, lba: u64) -> DAP {
    DAP { size: 16, zero: 0, sectors: size, offset: (buffer & 0xF) as u16, segment: (buffer >> 4) as u16, lba }
}

/// Splitting an address below 1 MiB into a real-mode segment (all but the
/// low 4 bits) and offset (the low 4 bits) loses nothing.
proof fn lemma_segment_offset(buffer: u32)
    by (bit_vector)
    requires
        buffer < 0x10_0000,
    ensures
        ((buffer >> 4) as u16) as u32 * 16 + ((buffer & 0xF) as u16) as u32 == buffer,
        ((buffer & 0xF) as u16) < 16,
{
}

/// A disk address packet is 16 bytes with a zero reserved byte, reads the
/// given number of sectors from the given sector, and names its buffer in
/// real-mode form: for a buffer below 1 MiB, segment times 16 plus offset is
/// the buffer's address, with the offset below 16.
pub proof fn lemma_dap(size: u16, buffer: u32, lba: u64)
    ensures
        dap_of(size, buffer, lba).size == 16,
        dap_of(size, buffer, lba).zero == 0,
        dap_of(size, buffer, lba).sectors == size,
        dap_of(size, buffer, lba).lba == lba,
        buffer < 0x10_0000 ==> dap_of(size, buffer, lba).segment * 16 + dap_of(size, buffer, lba).offset == buffer
            && dap_of(size, buffer, lba).offset < 16,
{
    if buffer < 0x10_0000 {
        lemma_segment_offset(buffer);
    }
}

impl DAP {
    /// A packet reading `size` sectors at `lba` into `buffer`.
    pub fn new(size: u16, buffer: u32, lba: u64) -> (r: DAP)
        ensures
            r == dap_of(size, buffer, lba),
    {
        DAP { size: 16, zero: 0, sectors: size, offset: (buffer & 0xF) as u16, segment: (buffer >> 4) as u16, lba }
    }
}

/// The packets that reading `size` bytes from byte position `head` into
/// memory at `buffer` takes: each chunk reads up to 0xFFFF bytes less the
/// offset of `head` within its sector, from the sector holding `head`.
pub open spec fn read_packets(head: u64, size: nat, buffer: u32) -> Seq<DAP>
    decreases size,
{
    if size == 0 {
        Seq::empty()
    } else {
        let offset = head % 512;
        let len = if size < 0xFFFF - offset {
            size
        } else {
            (0xFFFF - offset) as nat
        };
        if len == 0 || head + len > u64::MAX || buffer + len > u32::MAX {
            Seq::empty()
        } else {
            seq![dap_of(((len - 1) / 512 + 1) as u16, buffer, head / 512)] + read_packets(
                (head + len) as u64,
                (size - len) as nat,
                (buffer + len) as u32,
            )
        }
    }
}

/// A reader of a disk from byte position `base` on.
#[derive(Debug, Clone, Copy, PartialEq, Eq, Structural)]
pub struct DiskRead {
    base: u64,
    head: u64,
    disk: u16,
}

impl DiskRead {
    pub closed spec fn base(&self) -> u64 {
        self.base
    }

    pub closed spec fn head(&self) -> u64 {
        self.head
    }

    pub closed spec fn disk(&self) -> u16 {
        self.disk
    }

    /// A reader of disk `disk` at byte position `base`.
    pub fn new(base: u64, disk: u16) -> (r: DiskRead)
        ensures
            r.base() == base && r.head() == base && r.disk() == disk,
    {
        DiskRead { base, head: base, disk }
    }

    /// The base byte position.
    pub fn base_position(&self) -> (r: u64)
        ensures
            r == self.base(),
    {
        self.base
    }

    /// The current byte position.
    pub fn head_position(&self) -> (r: u64)
        ensures
            r == self.head(),
    {
        self.head
    }

    /// Reads `size` bytes at the head into memory at `buffer` (whose length
    /// is a multiple of 512): gives the packets to load, in order, and moves
    /// the head past what was read.
    pub fn read_len(&mut self, size: usize, buffer: u32, buffer_len: usize) -> (r: Vec<DAP>)
        requires
            buffer_len % 512 == 0,
            old(self).head() + size <= u64::MAX,
            buffer + size <= u32::MAX,
        ensures
            r@ == read_packets(old(self).head(), size as nat, buffer),
            final(self).head() == old(self).head() + size,
            final(self).base() == old(self).base(),
            final(self).disk() == old(self).disk(),
    {
        let mut packets: Vec<DAP> = Vec::new();
        let mut remaining = size;
        let mut buf = buffer;
        while remaining > 0
            invariant
                self.head + remaining == old(self).head() + size,
                buf + remaining == buffer + size,
                buffer + size <= u32::MAX,
                old(self).head() + size <= u64::MAX,
                self.base == old(self).base(),
                self.disk == old(self).disk(),
                read_packets(old(self).head(), size as nat, buffer) == packets@ + read_packets(
                    self.head,
                    remaining as nat,
                    buf,
                ),
            decreases remaining,
        {
            let h = self.head;
            let offset = (h & 0x1FF) as u32;
            assert(h & 0x1FF == h % 512) by (bit_vector);
            let limit = (0xFFFF - offset) as usize;
            let len = if remaining < limit {
                remaining
            } else {
                limit
            };
            let p = DAP::new(((len - 1) / 512 + 1) as u16, buf, h >> 9);
            assert(h >> 9 == h / 512) by (bit_vector);
            let ghost before = packets@;
            packets.push(p);
            proof {
                assert(before + read_packets(self.head, remaining as nat, buf) =~= packets@ + read_packets(
                    (self.head + len) as u64,
                    (remaining - len) as nat,
                    (buf + len) as u32,
                ));
            }
            self.head = self.head + len as u64;
            remaining = remaining - len;
            buf = buf + len as u32;
        }
        proof {
            assert(packets@ + read_packets(self.head, 0, buf) =~= packets@);
        }
        packets
    }

    /// Moves the head to byte position `seeking` from the base.
    pub fn seek(&mut self, seeking: u64)
        requires
            old(self).base() + seeking <= u64::MAX,
        ensures
            final(self).head() == old(self).base() + seeking,
            final(self).base() == old(self).base(),
            final(self).disk() == old(self).disk(),
    {
        self.head = self.base + seeking;
    }
}

} // verus!
