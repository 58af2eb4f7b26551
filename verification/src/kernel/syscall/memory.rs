//! Memory system calls.
//!
//! Physical frames are handed out as capabilities; mapping them into an
//! address space is checked here and then done on the page tables by the
//! caller, page by page, as each request describes.
use vstd::prelude::*;
use crate::kernel::caps::{create_root_cap, validate, GlobalCapTable};
use crate::kernel::caps::laws::lemma_create_then_validate;
use crate::kernel::memory::frame_allocator::BootInfoFrameAllocator;
use crate::kernel::process::{current_pid, ProcessTable};
use crate::kernel::syscall::{caller, USER_SPACE_END};
use crate::shared::caps::{bits_contain, CapabilityHandle, ResourceDescriptor, ResourceType, Rights};
use crate::shared::error::SysError;
use crate::user::mem::flags as mem_flags;

verus! {

/// Most frames one allocation can ask for.
pub const MAX_ALLOC_FRAMES: u64 = 1024;

/// Page-table entry bit: present.
pub const PTE_PRESENT: u64 = 0x1;
/// Page-table entry bit: writable.
pub const PTE_WRITABLE: u64 = 0x2;
/// Page-table entry bit: accessible from user mode.
pub const PTE_USER_ACCESSIBLE: u64 = 0x4;
/// Page-table entry bit: caching disabled.
pub const PTE_NO_CACHE: u64 = 0x10;
/// Page-table entry bit: no instruction fetch.
pub const PTE_NO_EXECUTE: u64 = 0x8000_0000_0000_0000;

/// Allocates `frame_count` (1 to 1024) physical frames and gives the caller
/// a capability to them (read, write, map, grant, delegate), naming the
/// first frame's number and the count. Each frame taken uses up one position
/// of the allocator, also when none is left.
pub fn sys_mem_alloc_phys(
    alloc: &mut BootInfoFrameAllocator,
    caps: &mut GlobalCapTable,
    procs: &ProcessTable,
    frame_count: u64,
    flags: u64,
) -> (r: Result<i64, SysError>)
    requires
        old(caps).wf(),
        procs.wf(),
        old(alloc).next_index() + MAX_ALLOC_FRAMES < usize::MAX,
    ensures
        final(caps).wf(),
        final(alloc).regions() == old(alloc).regions(),
        ({
            let n = old(alloc).next_index() as int;
            let frames = old(alloc).frames();
            if frame_count == 0 || frame_count > MAX_ALLOC_FRAMES {
                r == Err::<i64, SysError>(SysError::InvalidArgument) && final(alloc).next_index()
                    == n && GlobalCapTable::same(old(caps), final(caps))
            } else if n + frame_count > frames.len() {
                r == Err::<i64, SysError>(SysError::OutOfMemory) && final(alloc).next_index() == (
                if n < frames.len() {
                    frames.len() + 1int
                } else {
                    n + 1
                }) && GlobalCapTable::same(old(caps), final(caps))
            } else {
                &&& final(alloc).next_index() == n + frame_count
                &&& old(caps).free_list().len() == 0 ==> r == Err::<i64, SysError>(
                    SysError::CapabilityTableFull,
                ) && GlobalCapTable::same(old(caps), final(caps))
                &&& old(caps).free_list().len() > 0 ==> r == Ok::<i64, SysError>(
                    old(caps).free_list().last() as i64,
                ) && GlobalCapTable::placed(
                    old(caps),
                    final(caps),
                    old(caps).new_cap(
                        ResourceDescriptor {
                            resource_type: ResourceType::PhysicalMemory,
                            base: (frames[n] / 4096) as u64,
                            size: frame_count,
                        },
                        Rights(Rights::READ | Rights::WRITE | Rights::MAP | Rights::GRANT | Rights::DELEGATE),
                        CapabilityHandle(0),
                        caller(procs),
                    ),
                    CapabilityHandle(old(caps).free_list().last() as u64),
                )
            }
        }),
{
    let pid = current_pid(procs).as_u64();
    if frame_count == 0 || frame_count > MAX_ALLOC_FRAMES {
        return Err(SysError::InvalidArgument);
    }
    let ghost n = old(alloc).next_index() as int;
    let ghost frames = old(alloc).frames();
    let base_frame = match alloc.allocate_frame() {
        Some(f) => f / 4096,
        None => return Err(SysError::OutOfMemory),
    };
    let mut k: u64 = 1;
    while k < frame_count
        invariant
            1 <= k <= frame_count <= MAX_ALLOC_FRAMES,
            n < frames.len(),
            n + k <= frames.len(),
            alloc.regions() == old(alloc).regions(),
            alloc.frames() == frames,
            alloc.next_index() == n + k,
            n == old(alloc).next_index(),
            old(alloc).next_index() + MAX_ALLOC_FRAMES < usize::MAX,
            *caps == *old(caps),
            caps.wf(),
        decreases frame_count - k,
    {
        match alloc.allocate_frame() {
            Some(_) => {},
            None => return Err(SysError::OutOfMemory),
        }
        k = k + 1;
    }
    let resource = ResourceDescriptor::physical_memory(base_frame, frame_count);
    let rights = Rights(Rights::READ | Rights::WRITE | Rights::MAP | Rights::GRANT | Rights::DELEGATE);
    match create_root_cap(caps, resource, rights, pid) {
        Ok(h) => Ok(h.as_raw() as i64),
        Err(e) => Err(e),
    }
}

/// A request to map `frame_count` frames, from frame number `base_frame`
/// on, at `virt_addr` on, page by page, with page-table flags `flags`.
#[derive(Debug, Clone, Copy, PartialEq, Eq, Structural)]
pub struct MapRequest {
    pub base_frame: u64,
    pub frame_count: u64,
    pub virt_addr: u64,
    pub flags: u64,
}

/// The page-table flags for a mapping with memory flags `flags` (the
/// user library's READ, WRITE, EXECUTE and USER bits): present,
/// user-accessible, and writable exactly when WRITE is set.
pub open spec fn map_flags(flags: u64) -> u64 {
    PTE_PRESENT | PTE_USER_ACCESSIBLE | (if flags & mem_flags::WRITE != 0 {
        PTE_WRITABLE
    } else {
        0
    })
}

/// The page-table flags a user mapping can get: present and user, with or
/// without writable and no-execute.
proof fn lemma_pte_flag_values()
    by (bit_vector)
    ensures
        (1u64 | 4u64 | 0u64) == 5u64,
        (1u64 | 4u64 | 2u64) == 7u64,
        (5u64 | 0x8000000000000000u64) == 0x8000000000000005u64,
        (7u64 | 0x8000000000000000u64) == 0x8000000000000007u64,
        (5u64 | 0u64) == 5u64,
        (7u64 | 0u64) == 7u64,
        0x5u64 & 0x1u64 == 0x1u64,
        0x5u64 & 0x2u64 == 0x0u64,
        0x5u64 & 0x4u64 == 0x4u64,
        0x5u64 & 0x8000000000000000u64 == 0x0u64,
        0x5u64 & 0x8000000000000007u64 == 0x5u64,
        0x5u64 & 7u64 == 0x5u64,
        0x7u64 & 0x1u64 == 0x1u64,
        0x7u64 & 0x2u64 == 0x2u64,
        0x7u64 & 0x4u64 == 0x4u64,
        0x7u64 & 0x8000000000000000u64 == 0x0u64,
        0x7u64 & 0x8000000000000007u64 == 0x7u64,
        0x7u64 & 7u64 == 0x7u64,
        0x8000000000000005u64 & 0x1u64 == 0x1u64,
        0x8000000000000005u64 & 0x2u64 == 0x0u64,
        0x8000000000000005u64 & 0x4u64 == 0x4u64,
        0x8000000000000005u64 & 0x8000000000000000u64 == 0x8000000000000000u64,
        0x8000000000000005u64 & 0x8000000000000007u64 == 0x8000000000000005u64,
        0x8000000000000005u64 & 7u64 == 0x5u64,
        0x8000000000000007u64 & 0x1u64 == 0x1u64,
        0x8000000000000007u64 & 0x2u64 == 0x2u64,
        0x8000000000000007u64 & 0x4u64 == 0x4u64,
        0x8000000000000007u64 & 0x8000000000000000u64 == 0x8000000000000000u64,
        0x8000000000000007u64 & 0x8000000000000007u64 == 0x8000000000000007u64,
        0x8000000000000007u64 & 7u64 == 0x7u64,
{
}

/// A mapping's page-table flags: present and user-accessible, writable
/// exactly when the memory flags ask for writing, and nothing else (in
/// particular never uncached and never no-execute).
pub proof fn lemma_map_flags(flags: u64)
    ensures
        map_flags(flags) & PTE_PRESENT != 0,
        map_flags(flags) & PTE_USER_ACCESSIBLE != 0,
        (map_flags(flags) & PTE_WRITABLE != 0) <==> (flags & mem_flags::WRITE != 0),
        map_flags(flags) == map_flags(flags) & (PTE_PRESENT | PTE_USER_ACCESSIBLE | PTE_WRITABLE),
{
    lemma_pte_flag_values();
}

/// What mapping the frames of `phys_cap` at `virt_addr` asks for, or why it
/// is refused.
pub open spec fn map_request_of(caps: &GlobalCapTable, pid: u64, phys_cap: u64, virt_addr: u64, flags: u64) -> Result<MapRequest, SysError> {
    match caps.validate_result(CapabilityHandle(phys_cap), pid, Rights(Rights::MAP)) {
        Err(e) => Err(e),
        Ok(cap) => if cap.resource.resource_type != ResourceType::PhysicalMemory {
            Err(SysError::InvalidArgument)
        } else if virt_addr >= USER_SPACE_END {
            Err(SysError::BadAddress)
        } else if virt_addr & 0xFFF != 0 {
            Err(SysError::AlignmentError)
        } else {
            Ok(
                MapRequest {
                    base_frame: cap.resource.base,
                    frame_count: cap.resource.size,
                    virt_addr,
                    flags: map_flags(flags),
                },
            )
        },
    }
}

/// Checks a mapping (args: physical-memory capability with MAP, page-aligned
/// user virtual address, memory flags) and gives the pages to map.
pub fn sys_mem_map(caps: &GlobalCapTable, procs: &ProcessTable, phys_cap: u64, virt_addr: u64, flags: u64) -> (r:
    Result<MapRequest, SysError>)
    requires
        caps.wf(),
        procs.wf(),
    ensures
        r == map_request_of(caps, caller(procs), phys_cap, virt_addr, flags),
{
    let pid = current_pid(procs).as_u64();
    let cap = match validate(caps, CapabilityHandle::from_raw(phys_cap), pid, Rights(Rights::MAP)) {
        Ok(c) => c,
        Err(e) => return Err(e),
    };
    match cap.resource.resource_type {
        ResourceType::PhysicalMemory => {},
        _ => return Err(SysError::InvalidArgument),
    }
    if virt_addr >= USER_SPACE_END {
        return Err(SysError::BadAddress);
    }
    if virt_addr & 0xFFF != 0 {
        return Err(SysError::AlignmentError);
    }
    let writable = if flags & mem_flags::WRITE != 0 {
        PTE_WRITABLE
    } else {
        0
    };
    let pt_flags = PTE_PRESENT | PTE_USER_ACCESSIBLE | writable;
    Ok(MapRequest { base_frame: cap.resource.base, frame_count: cap.resource.size, virt_addr, flags: pt_flags })
}

/// Allocated frames can be mapped by their owner: the capability an
/// allocation places (see `sys_mem_alloc_phys`) lets the allocating process
/// map, at any page-aligned user address, exactly the frames it was given;
/// no other process can map them through it.
pub proof fn lemma_alloc_then_map(
    old: GlobalCapTable,
    new: GlobalCapTable,
    base_frame: u64,
    frame_count: u64,
    owner: u64,
    h: CapabilityHandle,
    virt_addr: u64,
    flags: u64,
    other: u64,
)
    requires
        old.wf(),
        GlobalCapTable::placed(
            &old,
            &new,
            old.new_cap(
                ResourceDescriptor { resource_type: ResourceType::PhysicalMemory, base: base_frame, size: frame_count },
                Rights(Rights::READ | Rights::WRITE | Rights::MAP | Rights::GRANT | Rights::DELEGATE),
                CapabilityHandle(0),
                owner,
            ),
            h,
        ),
        virt_addr < USER_SPACE_END,
        virt_addr & 0xFFF == 0,
    ensures
        map_request_of(&new, owner, h.0, virt_addr, flags) == Ok::<MapRequest, SysError>(
            MapRequest { base_frame, frame_count, virt_addr, flags: map_flags(flags) },
        ),
        other != owner ==> map_request_of(&new, other, h.0, virt_addr, flags) == Err::<MapRequest, SysError>(
            SysError::NotPermitted,
        ),
{
    let rights = Rights(Rights::READ | Rights::WRITE | Rights::MAP | Rights::GRANT | Rights::DELEGATE);
    let resource = ResourceDescriptor { resource_type: ResourceType::PhysicalMemory, base: base_frame, size: frame_count };
    assert(0x1u32 | 0x2u32 | 0x8u32 | 0x10u32 | 0x20u32 == 0x3Bu32 && 0x3Bu32 & 0x8u32 == 0x8u32) by (bit_vector);
    assert(bits_contain(rights.0, Rights::MAP));
    lemma_create_then_validate(old, new, resource, rights, owner, h, Rights(Rights::MAP), other);
}

/// The `i`-th page of a mapping request: (virtual address, physical
/// address), or `None` when an address does not fit in 64 bits.
pub fn map_page_at(req: &MapRequest, i: u64) -> (r: Option<(u64, u64)>)
    ensures
        (req.base_frame + i) * 4096 <= u64::MAX && req.virt_addr + i * 4096 <= u64::MAX ==> r == Some(
            ((req.virt_addr + i * 4096) as u64, ((req.base_frame + i) * 4096) as u64),
        ),
        !((req.base_frame + i) * 4096 <= u64::MAX && req.virt_addr + i * 4096 <= u64::MAX) ==> r is None,
{
    let frame = match req.base_frame.checked_add(i) {
        Some(f) => f,
        None => return None,
    };
    let phys = match frame.checked_mul(4096) {
        Some(p) => p,
        None => return None,
    };
    let offset = match i.checked_mul(4096) {
        Some(o) => o,
        None => {
            assert(i * 4096 > u64::MAX);
            return None;
        },
    };
    let virt = match req.virt_addr.checked_add(offset) {
        Some(v) => v,
        None => return None,
    };
    Some((virt, phys))
}

/// A range of `page_count` pages from `virt_addr` on.
#[derive(Debug, Clone, Copy, PartialEq, Eq, Structural)]
pub struct PageRange {
    pub virt_addr: u64,
    pub page_count: u64,
}

/// Checks an unmapping (args: page-aligned user address, page-aligned size)
/// and gives the pages to unmap (those not mapped are skipped).
pub fn sys_mem_unmap(virt_addr: u64, size: u64) -> (r: Result<PageRange, SysError>)
    ensures
        r == if virt_addr >= USER_SPACE_END {
            Err(SysError::BadAddress)
        } else if virt_addr & 0xFFF != 0 || size & 0xFFF != 0 {
            Err(SysError::AlignmentError)
        } else {
            Ok(PageRange { virt_addr, page_count: size / 4096 })
        },
{
    if virt_addr >= USER_SPACE_END {
        return Err(SysError::BadAddress);
    }
    if virt_addr & 0xFFF != 0 || size & 0xFFF != 0 {
        return Err(SysError::AlignmentError);
    }
    Ok(PageRange { virt_addr, page_count: size / 4096 })
}

/// The page-table flags for a protection change to `flags` (the user
/// library's READ, WRITE, EXECUTE and USER bits): present, user-accessible,
/// writable exactly when WRITE is set, no-execute exactly when EXECUTE is
/// not set.
pub open spec fn protect_flags(flags: u64) -> u64 {
    PTE_PRESENT | PTE_USER_ACCESSIBLE | (if flags & mem_flags::WRITE != 0 {
        PTE_WRITABLE
    } else {
        0
    }) | (if flags & mem_flags::EXECUTE == 0 {
        PTE_NO_EXECUTE
    } else {
        0
    })
}

/// A protection change's page-table flags: present and user-accessible,
/// writable exactly when the memory flags ask for writing, no-execute exactly
/// when they do not ask for execution, and nothing else.
pub proof fn lemma_protect_flags(flags: u64)
    ensures
        protect_flags(flags) & PTE_PRESENT != 0,
        protect_flags(flags) & PTE_USER_ACCESSIBLE != 0,
        (protect_flags(flags) & PTE_WRITABLE != 0) <==> (flags & mem_flags::WRITE != 0),
        (protect_flags(flags) & PTE_NO_EXECUTE != 0) <==> (flags & mem_flags::EXECUTE == 0),
        protect_flags(flags) == protect_flags(flags) & (PTE_PRESENT | PTE_USER_ACCESSIBLE | PTE_WRITABLE
            | PTE_NO_EXECUTE),
{
    lemma_pte_flag_values();
}

/// Checks a protection change (args: page-aligned user address, page-aligned
/// size, memory flags) and gives the pages and their new page-table flags
/// (each mapped page is mapped again with them).
pub fn sys_mem_protect(virt_addr: u64, size: u64, flags: u64) -> (r: Result<(PageRange, u64), SysError>)
    ensures
        r == if virt_addr >= USER_SPACE_END {
            Err(SysError::BadAddress)
        } else if virt_addr & 0xFFF != 0 || size & 0xFFF != 0 {
            Err(SysError::AlignmentError)
        } else {
            Ok((PageRange { virt_addr, page_count: size / 4096 }, protect_flags(flags)))
        },
{
    if virt_addr >= USER_SPACE_END {
        return Err(SysError::BadAddress);
    }
    if virt_addr & 0xFFF != 0 || size & 0xFFF != 0 {
        return Err(SysError::AlignmentError);
    }
    let writable = if flags & mem_flags::WRITE != 0 {
        PTE_WRITABLE
    } else {
        0
    };
    let no_execute = if flags & mem_flags::EXECUTE == 0 {
        PTE_NO_EXECUTE
    } else {
        0
    };
    let pt_flags = PTE_PRESENT | PTE_USER_ACCESSIBLE | writable | no_execute;
    Ok((PageRange { virt_addr, page_count: size / 4096 }, pt_flags))
}

/// Checks a translation query (arg: user virtual address): the address to
/// translate.
pub fn sys_mem_query(virt_addr: u64) -> (r: Result<u64, SysError>)
    ensures
        r == if virt_addr >= USER_SPACE_END {
            Err(SysError::BadAddress)
        } else {
            Ok(virt_addr)
        },
{
    if virt_addr >= USER_SPACE_END {
        return Err(SysError::BadAddress);
    }
    Ok(virt_addr)
}

/// What a translation query answers: the physical address, or `NotFound`
/// for an unmapped address.
pub fn query_answer(phys: Option<u64>) -> (r: Result<i64, SysError>)
    ensures
        r == match phys {
            Some(p) => Ok::<i64, SysError>(p as i64),
            None => Err(SysError::NotFound),
        },
{
    match phys {
        Some(p) => Ok(p as i64),
        None => Err(SysError::NotFound),
    }
}

} // verus!
