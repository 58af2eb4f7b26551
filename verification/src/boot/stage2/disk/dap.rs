//! Disk reading by BIOS extended reads of at most 32 sectors each.
use vstd::prelude::*;

verus! {

/// A disk address packet (BIOS extended read).
#[derive(Debug, Clone, Copy, PartialEq, Eq, Structural)]
pub struct DAP {
    pub size: u8,
    pub zero: u8,
    pub sectors: u16,
    pub offset: u16,
    pub segment: u16,
    pub lba: u64,
}

/// The packet reading `size` sectors at `lba` into `buffer` (offset the low
/// 4 bits, segment the rest).
pub open spec fn dap_of(size: u16, buffer: u32, lba: u64) -> DAP {
    DAP { size: 0x10, zero: 0, sectors: size, offset: (buffer & 0xF) as u16, segment: (buffer >> 4) as u16, lba }
}

/// Splitting an address below 1 MiB into a real-mode segment (all but the
/// low 4 bits) and offset (the low 4 bits) loses nothing.
proof fn lemma_segment_offset(buffer: u32)
    by (bit_vector)
    requires
        buffer < 0x10_0000,
    ensures
        ((buffer >> 4) as u16) as u32 * 16 + ((buffer & 0xF) as u16) as u32 == buffer,
        ((buffer & 0xF) as u16) < 16,
{
}

/// A disk address packet is 16 bytes with a zero reserved byte, reads the
/// given number of sectors from the given sector, and names its buffer in
/// real-mode form: for a buffer below 1 MiB, segment times 16 plus offset is
/// the buffer's address, with the offset below 16.
pub proof fn lemma_dap(size: u16, buffer: u32, lba: u64)
    ensures
        dap_of(size, buffer, lba).size == 16,
        dap_of(size, buffer, lba).zero == 0,
        dap_of(size, buffer, lba).sectors == size,
        dap_of(size, buffer, lba).lba == lba,
        buffer < 0x10_0000 ==> dap_of(size, buffer, lba).segment * 16 + dap_of(size, buffer, lba).offset == buffer
            && dap_of(size, buffer, lba).offset < 16,
{
    if buffer < 0x10_0000 {
        lemma_segment_offset(buffer);
    }
}

impl DAP {
    /// A packet reading `size` sectors at `lba` into `buffer`.
    pub fn new(size: u16, buffer: u32, lba: u64) -> (r: DAP)
        ensures
            r == dap_of(size, buffer, lba),
    {
        DAP { size: 0x10, zero: 0, sectors: size, offset: (buffer & 0b1111) as u16, segment: (buffer >> 4) as u16, lba }
    }
}

/// The packets reading `n` sectors from `lba` on into memory at `target`: 32
/// at a time, the last with the rest (one packet of 0 sectors when `n` is 0).
pub open spec fn sector_packets(lba: int, n: nat, target: int) -> Seq<DAP>
    decreases n,
{
    if n <= 32 {
        seq![dap_of(n as u16, target as u32, lba as u64)]
    } else {
        seq![dap_of(32, target as u32, lba as u64)] + sector_packets(lba + 32, (n - 32) as nat, target + 32 * 512)
    }
}

/// Reading `n` sectors takes one packet per 32 sectors (rounded up; one
/// packet for none): packet `k` reads from sector `lba + 32k` into memory
/// `32 * 512 * k` bytes past `target`, 32 sectors or, for the last, the rest.
pub proof fn lemma_sector_packets(lba: int, n: nat, target: int)
    ensures
        sector_packets(lba, n, target).len() == (if n == 0 {
            1
        } else {
            (n + 31) / 32
        }),
        forall|k: int|
            0 <= k < sector_packets(lba, n, target).len() ==> #[trigger] sector_packets(lba, n, target)[k] == dap_of(
                (if n - 32 * k >= 32 {
                    32
                } else {
                    n - 32 * k
                }) as u16,
                (target + 32 * 512 * k) as u32,
                (lba + 32 * k) as u64,
            ),
    decreases n,
{
    if n > 32 {
        let rest = sector_packets(lba + 32, (n - 32) as nat, target + 32 * 512);
        lemma_sector_packets(lba + 32, (n - 32) as nat, target + 32 * 512);
        let all = sector_packets(lba, n, target);
        assert forall|k: int| 0 <= k < all.len() implies #[trigger] all[k] == dap_of(
            (if n - 32 * k >= 32 {
                32
            } else {
                n - 32 * k
            }) as u16,
            (target + 32 * 512 * k) as u32,
            (lba + 32 * k) as u64,
        ) by {
            if k == 0 {
                assert(all[0] == dap_of(32, target as u32, lba as u64));
                assert(32 * 512 * k == 0 && 32 * k == 0);
            } else {
                assert(all[k] == rest[k - 1]);
                assert(lba + 32 + 32 * (k - 1) == lba + 32 * k);
                assert(target + 32 * 512 + 32 * 512 * (k - 1) == target + 32 * 512 * k);
                assert((n - 32) - 32 * (k - 1) == n - 32 * k);
            }
        }
    } else {
        let all = sector_packets(lba, n, target);
        assert(all.len() == 1);
        assert(all[0] == dap_of(n as u16, target as u32, lba as u64));
        assert forall|k: int| 0 <= k < all.len() implies #[trigger] all[k] == dap_of(
            (if n - 32 * k >= 32 {
                32
            } else {
                n - 32 * k
            }) as u16,
            (target + 32 * 512 * k) as u32,
            (lba + 32 * k) as u64,
        ) by {
            assert(k == 0);
            assert(32 * 512 * k == 0 && 32 * k == 0);
        }
    }
}

/// A reader of a disk.
#[derive(Debug, Clone, Copy, PartialEq, Eq, Structural)]
pub struct DiskRead {
    base: u64,
    head: u64,
    disk: u16,
}

impl DiskRead {
    pub closed spec fn base(&self) -> u64 {
        self.base
    }

    pub closed spec fn head(&self) -> u64 {
        self.head
    }

    pub closed spec fn disk(&self) -> u16 {
        self.disk
    }

    /// A reader of disk `disk` at byte position `base`.
    pub fn new(base: u64, disk: u16) -> (r: DiskRead)
        ensures
            r.base() == base && r.head() == base && r.disk() == disk,
    {
        DiskRead { base, head: base, disk }
    }

    /// Reads `size` bytes (a multiple of 512, at most the buffer's length)
    /// from byte position `base + head` into memory at `buffer`: gives the
    /// packets to load, whole sectors from the one holding the first byte to
    /// the one holding the last, and sets the head to `base + head + size`.
    pub fn read_len(&mut self, size: usize, buffer: u32, buffer_len: usize) -> (r: Vec<DAP>)
        requires
            size % 512 == 0,
            size <= buffer_len,
            old(self).base() + old(self).head() + size <= u64::MAX,
            old(self).base() + old(self).head() + size >= 1,
            buffer + ((old(self).base() + old(self).head() + size - 1) / 512 + 1 - (old(self).base()
                + old(self).head()) / 512) * 512 <= u32::MAX,
        ensures
            ({
                let start = old(self).base() + old(self).head();
                let end = start + size;
                r@ == sector_packets(start / 512, ((end - 1) / 512 + 1 - start / 512) as nat, buffer as int)
                    && final(self).head() == end
            }),
            final(self).base() == old(self).base(),
            final(self).disk() == old(self).disk(),
    {
        let end_addr = self.base + self.head + size as u64;
        let mut start_lba = (self.base + self.head) / 512;
        let end_lba = (end_addr - 1) / 512;
        let mut number_of_sectors = end_lba + 1 - start_lba;
        let mut target_addr = buffer;
        let mut packets: Vec<DAP> = Vec::new();
        let ghost n0 = number_of_sectors as nat;
        let ghost s0 = start_lba as int;
        loop
            invariant_except_break
                sector_packets(s0, n0, buffer as int) == packets@ + sector_packets(
                    start_lba as int,
                    number_of_sectors as nat,
                    target_addr as int,
                ),
            invariant
                target_addr + number_of_sectors * 512 <= u32::MAX,
                start_lba + number_of_sectors <= u64::MAX,
            ensures
                sector_packets(s0, n0, buffer as int) == packets@,
            decreases number_of_sectors,
        {
            let sectors: u16 = if number_of_sectors < 32 {
                number_of_sectors as u16
            } else {
                32
            };
            let ghost before = packets@;
            packets.push(DAP::new(sectors, target_addr, start_lba));
            if number_of_sectors <= 32 {
                proof {
                    assert(sector_packets(start_lba as int, number_of_sectors as nat, target_addr as int) =~= seq![
                        dap_of(sectors, target_addr, start_lba),
                    ]);
                    assert(before + seq![dap_of(sectors, target_addr, start_lba)] =~= packets@);
                }
                break;
            }
            proof {
                assert(before + sector_packets(start_lba as int, number_of_sectors as nat, target_addr as int)
                    =~= packets@ + sector_packets(
                    start_lba + 32,
                    (number_of_sectors - 32) as nat,
                    target_addr + 32 * 512,
                ));
            }
            start_lba = start_lba + sectors as u64;
            number_of_sectors = number_of_sectors - sectors as u64;
            target_addr = target_addr + sectors as u32 * 512;
        }
        self.head = end_addr;
        packets
    }

    /// Moves the head to byte position `seeking`.
    pub fn seek(&mut self, seeking: u64)
        ensures
            final(self).head() == seeking,
            final(self).base() == old(self).base(),
            final(self).disk() == old(self).disk(),
    {
        self.head = seeking;
    }
}

} // verus!
