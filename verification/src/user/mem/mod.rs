//! User-space memory: alignment helpers and a bump allocator for the heap.
//!
//! The allocator hands out memory linearly and never frees it; when the
//! mapped heap is too small it asks its caller to allocate and map more
//! pages (system calls), then goes on.
pub mod flags;

use vstd::prelude::*;
use crate::shared::error::SysError;

verus! {

/// Page size (4 KiB).
pub const PAGE_SIZE: usize = 4096;

/// `align` is a power of two that fits in a `usize`.
pub open spec fn is_pow2(align: usize) -> bool {
    exists|n: nat| n < usize::BITS && align == vstd::arithmetic::power2::pow2(n)
}

/// For a power of two `align`, masking off the bits below it is the
/// remainder by it.
proof fn lemma_mask_is_mod(x: usize, align: usize)
    requires
        is_pow2(align),
    ensures
        align > 0,
        x & ((align - 1) as usize) == x % align,
        x & !((align - 1) as usize) == x - x % align,
{
    let n = choose|n: nat| n < usize::BITS && align == vstd::arithmetic::power2::pow2(n);
    vstd::arithmetic::power2::lemma_pow2_pos(n);
    vstd::bits::lemma_usize_low_bits_mask_is_mod(x, n);
    let m = (align - 1) as usize;
    assert(x & !m == x - (x & m)) by (bit_vector);
}

/// Rounds `val` up to a multiple of `align` (a power of two): the least
/// multiple of `align` that is at least `val`.
pub fn align_up(val: usize, align: usize) -> (r: usize)
    requires
        align >= 1,
        val + align - 1 <= usize::MAX,
    ensures
        r == (val + align - 1) as usize & !((align - 1) as usize),
        is_pow2(align) ==> r % align == 0 && val <= r < val + align,
{
    let r = (val + (align - 1)) & !(align - 1);
    proof {
        if is_pow2(align) {
            let s = (val + align - 1) as usize;
            lemma_mask_is_mod(s, align);
            lemma_mask_is_mod(r, align);
            vstd::arithmetic::div_mod::lemma_fundamental_div_mod(s as int, align as int);
            vstd::arithmetic::div_mod::lemma_mod_multiples_basic(s as int / align as int, align as int);
            assert(s - s % align == align * (s as int / align as int));
        }
    }
    r
}

/// Rounds `val` down to a multiple of `align` (a power of two): the greatest
/// multiple of `align` that is at most `val`.
pub fn align_down(val: usize, align: usize) -> (r: usize)
    requires
        align >= 1,
    ensures
        r == val & !((align - 1) as usize),
        is_pow2(align) ==> r % align == 0 && r <= val && val - r < align,
{
    let r = val & !(align - 1);
    proof {
        if is_pow2(align) {
            lemma_mask_is_mod(val, align);
            vstd::arithmetic::div_mod::lemma_fundamental_div_mod(val as int, align as int);
            vstd::arithmetic::div_mod::lemma_mod_multiples_basic(val as int / align as int, align as int);
            assert(val - val % align == align * (val as int / align as int));
        }
    }
    r
}

/// Whether `val` is a multiple of `align` (a power of two).
pub fn is_aligned(val: usize, align: usize) -> (r: bool)
    requires
        align >= 1,
    ensures
        r == (val & ((align - 1) as usize) == 0),
        is_pow2(align) ==> (r <==> val % align == 0),
{
    let r = val & (align - 1) == 0;
    proof {
        if is_pow2(align) {
            lemma_mask_is_mod(val, align);
        }
    }
    r
}

/// The first multiple of `align` at or above `val`, as `align_up` computes it.
pub open spec fn aligned_up(val: usize, align: usize) -> usize {
    (val + align - 1) as usize & !((align - 1) as usize)
}

/// Allocations never overlap: an allocation starts at the allocation pointer
/// rounded up to its (power of two) alignment, so at or after where the
/// previous allocation ended (the pointer `try_alloc` leaves behind), and on
/// a multiple of the alignment.
pub proof fn lemma_allocations_do_not_overlap(ptr: usize, align: usize)
    requires
        is_pow2(align),
        ptr + align - 1 <= usize::MAX,
    ensures
        aligned_up(ptr, align) >= ptr,
        aligned_up(ptr, align) < ptr + align,
        aligned_up(ptr, align) % align == 0,
{
    let s = (ptr + align - 1) as usize;
    lemma_mask_is_mod(s, align);
    vstd::arithmetic::div_mod::lemma_fundamental_div_mod(s as int, align as int);
    vstd::arithmetic::div_mod::lemma_mod_multiples_basic(s as int / align as int, align as int);
    assert(s - s % align == align * (s as int / align as int));
}

/// The page size is a power of two.
proof fn lemma_page_size_is_pow2()
    ensures
        is_pow2(4096),
{
    vstd::arithmetic::power2::lemma2_to64();
    assert(4096 == vstd::arithmetic::power2::pow2(12));
}

/// What an allocation attempt asks of its caller.
#[derive(Debug, Clone, Copy, PartialEq, Eq, Structural)]
pub enum AllocStep {
    /// The memory at this address is allocated.
    Ready(u64),
    /// The mapped heap is too small: allocate `pages` frames, map them at
    /// `map_at` (the heap's end), report it with `grown`, and try again.
    Grow { pages: u64, map_at: u64 },
}

/// A bump allocator for the user-space heap: memory is handed out linearly
/// and never freed (the whole heap goes when the process exits); the heap is
/// grown page by page as needed.
pub struct BumpAllocator {
    /// Start of the heap region
    heap_start: u64,
    /// Current allocation pointer
    heap_ptr: u64,
    /// End of the mapped heap
    heap_end: u64,
    /// Total bytes allocated
    allocated: usize,
}

impl BumpAllocator {
    pub closed spec fn start(&self) -> u64 {
        self.heap_start
    }

    pub closed spec fn ptr(&self) -> u64 {
        self.heap_ptr
    }

    pub closed spec fn end(&self) -> u64 {
        self.heap_end
    }

    pub closed spec fn allocated(&self) -> usize {
        self.allocated
    }

    /// The allocation pointer lies within the mapped heap.
    pub closed spec fn wf(&self) -> bool {
        self.heap_start <= self.heap_ptr <= self.heap_end
    }

    /// An empty allocator, at address 0.
    pub fn new() -> (r: BumpAllocator)
        ensures
            r.wf(),
            r.start() == 0 && r.ptr() == 0 && r.end() == 0 && r.allocated() == 0,
    {
        BumpAllocator { heap_start: 0, heap_ptr: 0, heap_end: 0, allocated: 0 }
    }

    /// Starts the heap at `heap_start` (a page-aligned user address), with
    /// nothing mapped yet.
    pub fn init(&mut self, heap_start: u64)
        ensures
            final(self).wf(),
            final(self).start() == heap_start,
            final(self).ptr() == heap_start,
            final(self).end() == heap_start,
            final(self).allocated() == old(self).allocated(),
    {
        self.heap_start = heap_start;
        self.heap_ptr = heap_start;
        self.heap_end = heap_start;
    }

    /// Tries to allocate `size` bytes aligned to `align`. When they fit in
    /// the mapped heap they are taken (from the pointer rounded up to
    /// `align`); otherwise the caller is asked to map enough whole pages at the
    /// heap's end. An allocation whose end does not fit in 64 bits answers
    /// `OutOfMemory`.
    pub fn try_alloc(&mut self, size: usize, align: usize) -> (r: Result<AllocStep, SysError>)
        requires
            old(self).wf(),
            align >= 1,
        ensures
            final(self).wf(),
            final(self).start() == old(self).start(),
            final(self).end() == old(self).end(),
            ({
                let p = old(self).ptr();
                let aligned = aligned_up(p as usize, align) as int;
                let new_end = aligned + size;
                if p + align - 1 > usize::MAX || p > usize::MAX || new_end > u64::MAX || aligned > u64::MAX || (
                new_end > old(self).end() && new_end - old(self).end() + 4095 > usize::MAX) {
                    r == Err::<AllocStep, SysError>(SysError::OutOfMemory) && *final(self) == *old(self)
                } else if new_end > old(self).end() {
                    r == Ok::<AllocStep, SysError>(
                        AllocStep::Grow {
                            pages: (aligned_up((new_end - old(self).end()) as usize, 4096) / 4096) as u64,
                            map_at: old(self).end(),
                        },
                    ) && *final(self) == *old(self)
                } else {
                    &&& r == Ok::<AllocStep, SysError>(AllocStep::Ready(aligned as u64))
                    &&& final(self).ptr() == new_end
                    &&& final(self).allocated() == old(self).allocated().wrapping_add(size)
                }
            }),
            r matches Ok(AllocStep::Ready(a)) ==> a >= old(self).ptr() && final(self).ptr() == a + size
                && final(self).ptr() <= old(self).end() && (is_pow2(align) ==> (a as int) % (align as int) == 0 && a < old(
                self).ptr() + align),
            r matches Ok(AllocStep::Grow { pages, map_at }) ==> map_at == old(self).end() && old(self).end()
                < aligned_up(old(self).ptr() as usize, align) + size && aligned_up(old(self).ptr() as usize, align)
                + size <= old(self).end() + 4096 * pages && old(self).end() + 4096 * pages < aligned_up(
                old(self).ptr() as usize,
                align,
            ) + size + 4096,
    {
        let current = self.heap_ptr;
        if current as u128 > usize::MAX as u128 || current as u128 + align as u128 - 1 > usize::MAX as u128 {
            return Err(SysError::OutOfMemory);
        }
        let aligned = align_up(current as usize, align);
        if aligned as u128 > u64::MAX as u128 || aligned as u128 + size as u128 > u64::MAX as u128 {
            return Err(SysError::OutOfMemory);
        }
        let aligned = aligned as u64;
        let new_end = aligned + size as u64;
        if new_end > self.heap_end {
            let needed = new_end - self.heap_end;
            if needed as u128 + 4095 > usize::MAX as u128 {
                return Err(SysError::OutOfMemory);
            }
            let rounded = align_up(needed as usize, PAGE_SIZE);
            proof {
                lemma_page_size_is_pow2();
            }
            let pages = rounded / PAGE_SIZE;
            assert(rounded == 4096 * pages);
            return Ok(AllocStep::Grow { pages: pages as u64, map_at: self.heap_end });
        }
        proof {
            if align > 0 {
                let s = (current + align - 1) as usize;
                let m = (align - 1) as usize;
                assert(s & !m <= s) by (bit_vector);
                assert(s & !m >= s - m) by (bit_vector);
            }
        }
        proof {
            if is_pow2(align) {
                lemma_allocations_do_not_overlap(current as usize, align);
            }
        }
        self.heap_ptr = new_end;
        self.allocated = self.allocated.wrapping_add(size);
        Ok(AllocStep::Ready(aligned))
    }

    /// The caller mapped `pages` more pages at the heap's end.
    pub fn grown(&mut self, pages: u64)
        requires
            old(self).wf(),
            old(self).end() + pages * 4096 <= u64::MAX,
        ensures
            final(self).wf(),
            final(self).end() == old(self).end() + pages * 4096,
            final(self).start() == old(self).start(),
            final(self).ptr() == old(self).ptr(),
            final(self).allocated() == old(self).allocated(),
    {
        self.heap_end = self.heap_end + pages * 4096;
    }

    /// (bytes allocated, bytes of heap mapped).
    pub fn stats(&self) -> (r: (usize, usize))
        requires
            self.wf(),
        ensures
            r.0 == self.allocated(),
            r.1 == (self.end() - self.start()) as usize,
    {
        (self.allocated, (self.heap_end - self.heap_start) as usize)
    }
}

} // verus!
