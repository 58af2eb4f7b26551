//! A frame allocator that hands out the usable frames of the boot memory map
//! one after another.
use vstd::prelude::*;

verus! {

/// Size of a physical frame.
pub const FRAME_SIZE: u64 = 4096;

/// A region of the boot memory map: `[start, end)` and whether it is usable.
#[derive(Debug, Clone, Copy, PartialEq, Eq, Structural)]
pub struct PhysRegion {
    pub start: u64,
    pub end: u64,
    pub usable: bool,
}

/// Number of frame addresses that stepping through `r` by 4 KiB visits.
pub open spec fn region_frame_count(r: PhysRegion) -> nat {
    if r.usable && r.start < r.end {
        ((r.end - r.start + 4095) / 4096) as nat
    } else {
        0
    }
}

/// The start address of the frame that contains `addr`.
pub open spec fn frame_containing(addr: u64) -> u64 {
    (addr - addr % 4096) as u64
}

/// The frames of a usable region: those containing `start`, `start + 4096`,
/// ... below `end`.
pub open spec fn region_frames(r: PhysRegion) -> Seq<u64> {
    Seq::new(region_frame_count(r), |k: int| frame_containing((r.start + k * 4096) as u64))
}

/// The usable frames of a memory map, region by region.
pub open spec fn usable_frames(regions: Seq<PhysRegion>) -> Seq<u64>
    decreases regions.len(),
{
    if regions.len() == 0 {
        Seq::empty()
    } else {
        region_frames(regions[0]) + usable_frames(regions.drop_first())
    }
}

/// Statistics about memory usage.
#[derive(Debug, Clone, Copy, PartialEq, Eq, Structural)]
pub struct MemoryStats {
    pub total_frames: usize,
    pub used_frames: usize,
    pub free_frames: usize,
}

/// A frame allocator over the boot memory map: the n-th allocation gets the
/// n-th usable frame.
pub struct BootInfoFrameAllocator {
    memory_regions: Vec<PhysRegion>,
    next: usize,
}

proof fn lemma_skip_unfold(regions: Seq<PhysRegion>, i: int)
    requires
        0 <= i < regions.len(),
    ensures
        usable_frames(regions.skip(i)) == region_frames(regions[i]) + usable_frames(regions.skip(i + 1)),
{
    assert(regions.skip(i).drop_first() =~= regions.skip(i + 1));
    assert(regions.skip(i)[0] == regions[i]);
}

impl BootInfoFrameAllocator {
    /// The memory map.
    pub closed spec fn regions(&self) -> Seq<PhysRegion> {
        self.memory_regions@
    }

    /// How many allocations were asked for so far.
    pub closed spec fn next_index(&self) -> usize {
        self.next
    }

    /// The frames this allocator hands out, in order.
    pub open spec fn frames(&self) -> Seq<u64> {
        usable_frames(self.regions())
    }

    /// An allocator over `memory_regions` that has handed out nothing.
    pub fn new(memory_regions: Vec<PhysRegion>) -> (r: BootInfoFrameAllocator)
        ensures
            r.regions() == memory_regions@,
            r.next_index() == 0,
    {
        BootInfoFrameAllocator { memory_regions, next: 0 }
    }

    /// How many allocations were asked for so far.
    pub fn used(&self) -> (r: usize)
        ensures
            r == self.next_index(),
    {
        self.next
    }

    /// The `n`-th usable frame, if there are that many.
    fn nth_usable_frame(&self, n: usize) -> (r: Option<u64>)
        ensures
            n < self.frames().len() ==> r == Some(self.frames()[n as int]),
            n >= self.frames().len() ==> r is None,
    {
        let ghost all = self.regions();
        let mut idx: u64 = n as u64;
        let mut i: usize = 0;
        let ghost mut before: Seq<u64> = Seq::empty();
        proof {
            assert(all.skip(0) =~= all);
        }
        while i < self.memory_regions.len()
            invariant
                all == self.regions(),
                i <= all.len(),
                usable_frames(all) == before + usable_frames(all.skip(i as int)),
                before.len() + idx == n,
            decreases all.len() - i,
        {
            let r = self.memory_regions[i];
            proof {
                lemma_skip_unfold(all, i as int);
            }
            if r.usable && r.start < r.end {
                let span = r.end - r.start;
                let count: u64 = span / 4096 + if span % 4096 == 0 { 0 } else { 1 };
                assert(count == region_frame_count(r)) by {
                    assert((span + 4095) / 4096 == span / 4096 + if span % 4096 == 0 { 0int } else { 1int })
                        by (nonlinear_arith)
                        requires
                            span >= 1;
                }
                if idx < count {
                    assert(idx * 4096 < span) by (nonlinear_arith)
                        requires
                            idx < count,
                            count == span / 4096 + if span % 4096 == 0 { 0int } else { 1int },
                            span >= 1;
                    let addr = r.start + idx * 4096;
                    let frame = addr - addr % 4096;
                    proof {
                        let rf = region_frames(r);
                        assert(usable_frames(all)[n as int] == rf[idx as int]);
                    }
                    return Some(frame);
                }
                idx = idx - count;
            }
            proof {
                before = before + region_frames(r);
                assert(usable_frames(all) =~= before + usable_frames(all.skip(i + 1)));
            }
            i = i + 1;
        }
        proof {
            assert(all.skip(i as int) =~= Seq::<PhysRegion>::empty());
            assert(usable_frames(all) =~= before);
        }
        None
    }

    /// Allocates the next usable frame; every call uses up one position,
    /// whether or not a frame is left.
    pub fn allocate_frame(&mut self) -> (r: Option<u64>)
        requires
            old(self).next_index() < usize::MAX,
        ensures
            final(self).regions() == old(self).regions(),
            final(self).next_index() == old(self).next_index() + 1,
            old(self).next_index() < old(self).frames().len() ==> r == Some(
                old(self).frames()[old(self).next_index() as int],
            ),
            old(self).next_index() >= old(self).frames().len() ==> r is None,
    {
        let frame = self.nth_usable_frame(self.next);
        self.next = self.next + 1;
        frame
    }

    /// Memory statistics: usable frames, frames handed out (positions used)
    /// and frames left.
    pub fn stats(&self) -> (r: MemoryStats)
        requires
            self.frames().len() <= usize::MAX,
        ensures
            r.total_frames == self.frames().len(),
            r.used_frames == self.next_index(),
            r.free_frames == if self.next_index() <= self.frames().len() {
                self.frames().len() - self.next_index()
            } else {
                0
            },
    {
        let ghost all = self.regions();
        let mut total: usize = 0;
        let mut i: usize = 0;
        let ghost mut before: Seq<u64> = Seq::empty();
        proof {
            assert(all.skip(0) =~= all);
        }
        while i < self.memory_regions.len()
            invariant
                all == self.regions(),
                usable_frames(all).len() <= usize::MAX,
                i <= all.len(),
                usable_frames(all) == before + usable_frames(all.skip(i as int)),
                before.len() == total,
            decreases all.len() - i,
        {
            let r = self.memory_regions[i];
            proof {
                lemma_skip_unfold(all, i as int);
            }
            if r.usable && r.start < r.end {
                let span = r.end - r.start;
                let count: u64 = span / 4096 + if span % 4096 == 0 { 0 } else { 1 };
                assert(count == region_frame_count(r)) by {
                    assert((span + 4095) / 4096 == span / 4096 + if span % 4096 == 0 { 0int } else { 1int })
                        by (nonlinear_arith)
                        requires
                            span >= 1;
                }
                total = total + count as usize;
            }
            proof {
                before = before + region_frames(r);
                assert(usable_frames(all) =~= before + usable_frames(all.skip(i + 1)));
            }
            i = i + 1;
        }
        proof {
            assert(all.skip(i as int) =~= Seq::<PhysRegion>::empty());
            assert(usable_frames(all) =~= before);
        }
        MemoryStats {
            total_frames: total,
            used_frames: self.next,
            free_frames: total.saturating_sub(self.next),
        }
    }
}

} // verus!
