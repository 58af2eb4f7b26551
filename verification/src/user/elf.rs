//! User-space ELF loading, for spawning child processes.
//!
//! In the exokernel the library OS loads programs: it parses the file,
//! allocates and maps memory for each loadable segment (system calls),
//! copies the segment's file data and zeroes the rest, sets up a stack and
//! starts the process. The parsing and what each segment takes are worked out
//! here.
use vstd::prelude::*;
use crate::kernel::elf::{
    elf_magic, has_elf_magic, header_at, le16, le64, phdr_at, read_header, read_phdr, Elf64Header,
    Elf64ProgramHeader, EHDR_SIZE, PHDR_SIZE,
};
use crate::shared::caps::CapabilityHandle;
use crate::user::mem::{align_up, flags, PAGE_SIZE};

verus! {

/// ELF class (64-bit).
pub const ELFCLASS64: u8 = 2;
/// ELF data encoding (little endian).
pub const ELFDATA2LSB: u8 = 1;
/// ELF type: executable.
pub const ET_EXEC: u16 = 2;
/// ELF machine: x86-64.
pub const EM_X86_64: u16 = 62;
/// Program header type: loadable segment.
pub const PT_LOAD: u32 = 1;
/// Segment flag: execute.
pub const PF_X: u32 = 1;
/// Segment flag: write.
pub const PF_W: u32 = 2;
/// Segment flag: read.
pub const PF_R: u32 = 4;
/// Default stack size for new processes (64 KiB).
pub const DEFAULT_STACK_SIZE: usize = 0x10000;
/// Default stack top for new processes.
pub const DEFAULT_STACK_TOP: u64 = 0x0000_7fff_ffff_0000;

/// ELF parsing and loading errors.
#[derive(Debug, Clone, Copy, PartialEq, Eq, Structural)]
pub enum ElfError {
    TooSmall,
    BadMagic,
    Not64Bit,
    BadEndian,
    NotExecutable,
    WrongArch,
    BadProgramHeaders,
    LoadFailed,
}

/// A parsed ELF file.
pub struct ElfInfo {
    pub header: Elf64Header,
    pub entry_point: u64,
    pub program_headers: Vec<Elf64ProgramHeader>,
}

/// The result of loading an ELF file into a process.
#[derive(Debug, Clone, Copy, PartialEq, Eq, Structural)]
pub struct LoadedElf {
    /// Entry point address
    pub entry_point: u64,
    /// Capability to the process
    pub process_cap: CapabilityHandle,
}

/// Why `s` is not a loadable executable, if it is not: too short, bad
/// magic, not 64-bit, not little endian, not an executable, not for x86-64,
/// or program headers (`e_phnum` of them, packed from `e_phoff` on) that do
/// not lie within the file.
pub open spec fn elf_error(s: Seq<u8>) -> Option<ElfError> {
    if s.len() < EHDR_SIZE {
        Some(ElfError::TooSmall)
    } else if s.subrange(0, 4) != elf_magic() {
        Some(ElfError::BadMagic)
    } else if s[4] != ELFCLASS64 {
        Some(ElfError::Not64Bit)
    } else if s[5] != ELFDATA2LSB {
        Some(ElfError::BadEndian)
    } else if le16(s, 16) != ET_EXEC {
        Some(ElfError::NotExecutable)
    } else if le16(s, 18) != EM_X86_64 {
        Some(ElfError::WrongArch)
    } else if le64(s, 32) + le16(s, 56) * le16(s, 54) > s.len() || le64(s, 32) + le16(s, 56) * PHDR_SIZE
        > s.len() {
        Some(ElfError::BadProgramHeaders)
    } else {
        None
    }
}

/// Parses an ELF executable: its header, entry point and program headers.
pub fn parse_elf(data: &[u8]) -> (r: Result<ElfInfo, ElfError>)
    ensures
        match elf_error(data@) {
            Some(e) => r is Err && r->Err_0 == e,
            None => {
                &&& r is Ok
                &&& header_at(data@, r->Ok_0.header)
                &&& r->Ok_0.entry_point == le64(data@, 24)
                &&& r->Ok_0.program_headers@.len() == le16(data@, 56)
                &&& forall|i: int|
                    0 <= i < le16(data@, 56) ==> #[trigger] phdr_at(
                        data@,
                        le64(data@, 32) + i * PHDR_SIZE,
                        r->Ok_0.program_headers@[i],
                    )
            },
        },
{
    if data.len() < EHDR_SIZE {
        return Err(ElfError::TooSmall);
    }
    if !has_elf_magic(data) {
        return Err(ElfError::BadMagic);
    }
    if data[4] != ELFCLASS64 {
        return Err(ElfError::Not64Bit);
    }
    if data[5] != ELFDATA2LSB {
        return Err(ElfError::BadEndian);
    }
    let header = read_header(data);
    if header.e_type != ET_EXEC {
        return Err(ElfError::NotExecutable);
    }
    if header.e_machine != EM_X86_64 {
        return Err(ElfError::WrongArch);
    }
    let ph_offset = header.e_phoff as u128;
    let ph_count = header.e_phnum as u128;
    let ph_size = header.e_phentsize as u128;
    let len = data.len() as u128;
    assert(ph_count * ph_size <= 0xFFFF * 0xFFFF) by (nonlinear_arith)
        requires
            ph_count <= 0xFFFF,
            ph_size <= 0xFFFF,
    ;
    if ph_offset + ph_count * ph_size > len || ph_offset + ph_count * 56 > len {
        return Err(ElfError::BadProgramHeaders);
    }
    let mut phdrs: Vec<Elf64ProgramHeader> = Vec::new();
    let mut i: u128 = 0;
    while i < ph_count
        invariant
            ph_offset == header.e_phoff,
            ph_count == header.e_phnum,
            header_at(data@, header),
            len == data@.len(),
            len == data.len(),
            ph_offset + ph_count * 56 <= len,
            i <= ph_count,
            phdrs@.len() == i,
            forall|k: int| 0 <= k < i ==> #[trigger] phdr_at(data@, ph_offset + k * 56, phdrs@[k]),
        decreases ph_count - i,
    {
        let off = (ph_offset + i * 56) as usize;
        let p = read_phdr(data, off);
        phdrs.push(p);
        i = i + 1;
    }
    Ok(ElfInfo { header, entry_point: header.e_entry, program_headers: phdrs })
}

/// What loading one segment takes: `num_pages` pages allocated and mapped at
/// `aligned_vaddr` with `flags`; `file_size` bytes copied from file offset
/// `file_offset` to `vaddr`; then `bss_size` bytes zeroed at `bss_start`
/// (none when the memory size does not exceed the file size).
#[derive(Debug, Clone, Copy, PartialEq, Eq, Structural)]
pub struct SegmentLoad {
    pub aligned_vaddr: u64,
    pub num_pages: u64,
    pub flags: u64,
    pub vaddr: u64,
    pub file_offset: u64,
    pub file_size: u64,
    pub bss_start: u64,
    pub bss_size: u64,
}

/// The mapping flags for segment flags `f`: user, plus read, write and
/// execute as the segment has them.
pub open spec fn segment_flags(f: u32) -> u64 {
    flags::USER | (if f & PF_R != 0 {
        flags::READ
    } else {
        0
    }) | (if f & PF_W != 0 {
        flags::WRITE
    } else {
        0
    }) | (if f & PF_X != 0 {
        flags::EXECUTE
    } else {
        0
    })
}

/// What loading segment `p` of a file of `data_len` bytes takes: from the
/// page of its start, enough pages for its memory size; its file data (which
/// must lie within the file) copied; the rest of its memory zeroed. A
/// segment whose sizes overflow is refused.
pub open spec fn segment_load_of(p: Elf64ProgramHeader, data_len: int) -> Result<SegmentLoad, ElfError> {
    let page_offset = p.p_vaddr % 4096;
    let span = p.p_memsz + page_offset;
    if span + 4095 > usize::MAX || p.p_offset + p.p_filesz > data_len || p.p_vaddr + p.p_memsz
        > u64::MAX {
        Err(ElfError::LoadFailed)
    } else {
        Ok(
            SegmentLoad {
                aligned_vaddr: (p.p_vaddr - page_offset) as u64,
                num_pages: ((span + 4095) / 4096) as u64,
                flags: segment_flags(p.p_flags),
                vaddr: p.p_vaddr,
                file_offset: p.p_offset,
                file_size: p.p_filesz,
                bss_start: (p.p_vaddr + (if p.p_memsz > p.p_filesz {
                    p.p_filesz
                } else {
                    p.p_memsz
                })) as u64,
                bss_size: (if p.p_memsz > p.p_filesz {
                    p.p_memsz - p.p_filesz
                } else {
                    0
                }) as u64,
            },
        )
    }
}

/// The mapping flags a segment can get: user, with or without each of read,
/// write and execute.
proof fn lemma_load_flag_values()
    by (bit_vector)
    ensures
        (8u64 | 0u64 | 0u64 | 0u64) == 8u64,
        8u64 & 1u64 == 0u64,
        8u64 & 2u64 == 0u64,
        8u64 & 4u64 == 0u64,
        8u64 & 8u64 == 8u64,
        8u64 & 15u64 == 8u64,
        (8u64 | 0u64 | 0u64 | 4u64) == 12u64,
        12u64 & 1u64 == 0u64,
        12u64 & 2u64 == 0u64,
        12u64 & 4u64 == 4u64,
        12u64 & 8u64 == 8u64,
        12u64 & 15u64 == 12u64,
        (8u64 | 0u64 | 2u64 | 0u64) == 10u64,
        10u64 & 1u64 == 0u64,
        10u64 & 2u64 == 2u64,
        10u64 & 4u64 == 0u64,
        10u64 & 8u64 == 8u64,
        10u64 & 15u64 == 10u64,
        (8u64 | 0u64 | 2u64 | 4u64) == 14u64,
        14u64 & 1u64 == 0u64,
        14u64 & 2u64 == 2u64,
        14u64 & 4u64 == 4u64,
        14u64 & 8u64 == 8u64,
        14u64 & 15u64 == 14u64,
        (8u64 | 1u64 | 0u64 | 0u64) == 9u64,
        9u64 & 1u64 == 1u64,
        9u64 & 2u64 == 0u64,
        9u64 & 4u64 == 0u64,
        9u64 & 8u64 == 8u64,
        9u64 & 15u64 == 9u64,
        (8u64 | 1u64 | 0u64 | 4u64) == 13u64,
        13u64 & 1u64 == 1u64,
        13u64 & 2u64 == 0u64,
        13u64 & 4u64 == 4u64,
        13u64 & 8u64 == 8u64,
        13u64 & 15u64 == 13u64,
        (8u64 | 1u64 | 2u64 | 0u64) == 11u64,
        11u64 & 1u64 == 1u64,
        11u64 & 2u64 == 2u64,
        11u64 & 4u64 == 0u64,
        11u64 & 8u64 == 8u64,
        11u64 & 15u64 == 11u64,
        (8u64 | 1u64 | 2u64 | 4u64) == 15u64,
        15u64 & 1u64 == 1u64,
        15u64 & 2u64 == 2u64,
        15u64 & 4u64 == 4u64,
        15u64 & 8u64 == 8u64,
        15u64 & 15u64 == 15u64,
{
}

/// A segment is refused, as a load failure, exactly when its pages, its file
/// data or its end overflow, or its file data lies past the file's end. An
/// accepted segment is mapped for the user, readable, writable and
/// executable each exactly when the segment has that flag, and with no other
/// flag; its pages start at the page of its first byte and cover every byte
/// of its memory, with less than a page to spare; its file data is copied
/// from where the header says, and the memory after the file data, to the
/// end of the segment, is zeroed.
pub proof fn lemma_segment_load(p: Elf64ProgramHeader, data_len: int)
    ensures
        segment_load_of(p, data_len) is Ok <==> (p.p_memsz + p.p_vaddr % 4096 + 4095 <= usize::MAX && p.p_offset
            + p.p_filesz <= data_len && p.p_vaddr + p.p_memsz <= u64::MAX),
        match segment_load_of(p, data_len) {
            Ok(l) => {
                &&& l.flags & flags::USER != 0
                &&& (l.flags & flags::READ != 0) <==> (p.p_flags & PF_R != 0)
                &&& (l.flags & flags::WRITE != 0) <==> (p.p_flags & PF_W != 0)
                &&& (l.flags & flags::EXECUTE != 0) <==> (p.p_flags & PF_X != 0)
                &&& l.flags == l.flags & (flags::USER | flags::READ | flags::WRITE | flags::EXECUTE)
                &&& l.vaddr == p.p_vaddr
                &&& l.file_offset == p.p_offset
                &&& l.file_size == p.p_filesz
                &&& l.aligned_vaddr % 4096 == 0
                &&& l.aligned_vaddr <= p.p_vaddr < l.aligned_vaddr + 4096
                &&& p.p_vaddr + p.p_memsz <= l.aligned_vaddr + 4096 * l.num_pages
                &&& l.aligned_vaddr + 4096 * l.num_pages < p.p_vaddr + p.p_memsz + 4096
                &&& l.bss_start == p.p_vaddr + (if p.p_filesz < p.p_memsz { p.p_filesz } else { p.p_memsz })
                &&& l.bss_start + l.bss_size == p.p_vaddr + p.p_memsz
            },
            Err(e) => e == ElfError::LoadFailed,
        },
{
    lemma_load_flag_values();
    if segment_load_of(p, data_len) is Ok {
        let l = segment_load_of(p, data_len)->Ok_0;
        let v = p.p_vaddr as int;
        let span = p.p_memsz + v % 4096;
        let n = (span + 4095) / 4096;
        assert(l.aligned_vaddr == v - v % 4096);
        assert(l.num_pages == n);
        assert(4096 * n <= span + 4095 < 4096 * n + 4096);
    }
}

/// Works out what loading segment `p` takes.
pub fn segment_load(p: &Elf64ProgramHeader, data_len: usize) -> (r: Result<SegmentLoad, ElfError>)
    ensures
        r == segment_load_of(*p, data_len as int),
{
    let page_offset = p.p_vaddr % 4096;
    let span = p.p_memsz as u128 + page_offset as u128;
    if span + 4095 > usize::MAX as u128 || p.p_offset as u128 + p.p_filesz as u128 > data_len as u128
        || p.p_vaddr as u128 + p.p_memsz as u128 > u64::MAX as u128 {
        return Err(ElfError::LoadFailed);
    }
    let aligned_memsz = align_up(span as usize, PAGE_SIZE);
    let num_pages = aligned_memsz / PAGE_SIZE;
    proof {
        assert(aligned_memsz == (span + 4095) as usize & !(4095usize));
        let s = (span + 4095) as usize;
        assert((s & !(4095usize)) / 4096 == s / 4096) by (bit_vector);
    }
    let read = if p.p_flags & PF_R != 0 {
        flags::READ
    } else {
        0
    };
    let write = if p.p_flags & PF_W != 0 {
        flags::WRITE
    } else {
        0
    };
    let exec = if p.p_flags & PF_X != 0 {
        flags::EXECUTE
    } else {
        0
    };
    let bss_size = if p.p_memsz > p.p_filesz {
        p.p_memsz - p.p_filesz
    } else {
        0
    };
    let bss_start = if p.p_memsz > p.p_filesz {
        p.p_vaddr + p.p_filesz
    } else {
        p.p_vaddr + p.p_memsz
    };
    Ok(
        SegmentLoad {
            aligned_vaddr: p.p_vaddr - page_offset,
            num_pages: num_pages as u64,
            flags: flags::USER | read | write | exec,
            vaddr: p.p_vaddr,
            file_offset: p.p_offset,
            file_size: p.p_filesz,
            bss_start,
            bss_size,
        },
    )
}

/// The loadable segments of `phdrs` from position `i` on, with what loading
/// each takes; the first that cannot be loaded stops it.
pub open spec fn load_plan_from(phdrs: Seq<Elf64ProgramHeader>, data_len: int, i: int) -> Result<Seq<SegmentLoad>, ElfError>
    decreases phdrs.len() - i,
{
    if i < 0 || i >= phdrs.len() {
        Ok(Seq::empty())
    } else if phdrs[i].p_type != PT_LOAD {
        load_plan_from(phdrs, data_len, i + 1)
    } else {
        match segment_load_of(phdrs[i], data_len) {
            Err(e) => Err(e),
            Ok(l) => match load_plan_from(phdrs, data_len, i + 1) {
                Err(e) => Err(e),
                Ok(rest) => Ok(seq![l] + rest),
            },
        }
    }
}

/// A load plan leaves out no loadable segment: every loadable segment (from
/// position `i` on) can be loaded, and what loading it takes is in the plan.
pub proof fn lemma_load_plan(phdrs: Seq<Elf64ProgramHeader>, data_len: int, i: int)
    requires
        0 <= i,
    ensures
        load_plan_from(phdrs, data_len, i) is Ok ==> {
            &&& forall|j: int|
                i <= j < phdrs.len() && (#[trigger] phdrs[j]).p_type == PT_LOAD ==> segment_load_of(phdrs[j], data_len)
                    is Ok && load_plan_from(phdrs, data_len, i)->Ok_0.contains(segment_load_of(phdrs[j], data_len)->Ok_0)
        },
    decreases phdrs.len() - i,
{
    if i < phdrs.len() {
        lemma_load_plan(phdrs, data_len, i + 1);
        let here = load_plan_from(phdrs, data_len, i);
        let next = load_plan_from(phdrs, data_len, i + 1);
        if here is Ok {
            let all = here->Ok_0;
            if phdrs[i].p_type != PT_LOAD {
                assert(next is Ok && next->Ok_0 == all);
                assert forall|j: int| i <= j < phdrs.len() && (#[trigger] phdrs[j]).p_type == PT_LOAD implies segment_load_of(
                    phdrs[j],
                    data_len,
                ) is Ok && all.contains(segment_load_of(phdrs[j], data_len)->Ok_0) by {
                    assert(j != i);
                }
            } else {
                let l = segment_load_of(phdrs[i], data_len)->Ok_0;
                let rest = next->Ok_0;
                assert(next is Ok);
                assert(all == seq![l] + rest);
                assert forall|j: int| i <= j < phdrs.len() && (#[trigger] phdrs[j]).p_type == PT_LOAD implies segment_load_of(
                    phdrs[j],
                    data_len,
                ) is Ok && all.contains(segment_load_of(phdrs[j], data_len)->Ok_0) by {
                    if j == i {
                        assert(all[0] == l);
                    } else {
                        let x = segment_load_of(phdrs[j], data_len)->Ok_0;
                        assert(rest.contains(x));
                        let q = choose|q: int| 0 <= q < rest.len() && rest[q] == x;
                        assert(all[q + 1] == rest[q]);
                    }
                }
            }
        }
    }
}

/// What loading a parsed file of `data_len` bytes takes, segment by
/// segment; a file without loadable segments is refused.
pub open spec fn load_plan_of(phdrs: Seq<Elf64ProgramHeader>, data_len: int) -> Result<Seq<SegmentLoad>, ElfError> {
    match load_plan_from(phdrs, data_len, 0) {
        Err(e) => Err(e),
        Ok(l) => if l.len() == 0 {
            Err(ElfError::BadProgramHeaders)
        } else {
            Ok(l)
        },
    }
}

/// Works out what loading a parsed ELF file into a process takes: what each
/// loadable segment takes, in order.
pub fn load_elf(info: &ElfInfo, data_len: usize) -> (r: Result<Vec<SegmentLoad>, ElfError>)
    ensures
        match load_plan_of(info.program_headers@, data_len as int) {
            Err(e) => r is Err && r->Err_0 == e,
            Ok(l) => r is Ok && r->Ok_0@ == l,
        },
{
    let phdrs = &info.program_headers;
    let n = phdrs.len();
    let mut loads: Vec<SegmentLoad> = Vec::new();
    let mut i: usize = n;
    while i > 0
        invariant
            n == phdrs@.len(),
            phdrs@ == info.program_headers@,
            i <= n,
            load_plan_from(phdrs@, data_len as int, i as int) == Ok::<Seq<SegmentLoad>, ElfError>(loads@),
        decreases i,
    {
        i = i - 1;
        let p = phdrs[i];
        if p.p_type == PT_LOAD {
            let l = segment_load(&p, data_len);
            match l {
                Ok(seg) => {
                    let mut next: Vec<SegmentLoad> = Vec::new();
                    next.push(seg);
                    next.append(&mut loads);
                    loads = next;
                },
                Err(e) => {
                    proof {
                        lemma_plan_error_propagates(phdrs@, data_len as int, i as int, e);
                    }
                    return Err(e);
                },
            }
        }
    }
    if loads.len() == 0 {
        return Err(ElfError::BadProgramHeaders);
    }
    Ok(loads)
}

proof fn lemma_plan_error_propagates(phdrs: Seq<Elf64ProgramHeader>, data_len: int, i: int, e: ElfError)
    requires
        0 <= i < phdrs.len(),
        phdrs[i].p_type == PT_LOAD,
        segment_load_of(phdrs[i], data_len) == Err::<SegmentLoad, ElfError>(e),
    ensures
        load_plan_from(phdrs, data_len, 0) == Err::<Seq<SegmentLoad>, ElfError>(ElfError::LoadFailed),
    decreases i,
{
    if i > 0 {
        lemma_plan_error_propagates_back(phdrs, data_len, i, e, i - 1);
    }
    lemma_plan_errors(phdrs, data_len, 0);
}

proof fn lemma_plan_errors(phdrs: Seq<Elf64ProgramHeader>, data_len: int, i: int)
    ensures
        load_plan_from(phdrs, data_len, i) is Err ==> load_plan_from(phdrs, data_len, i) == Err::<
            Seq<SegmentLoad>,
            ElfError,
        >(ElfError::LoadFailed),
    decreases phdrs.len() - i,
{
    if 0 <= i < phdrs.len() {
        lemma_plan_errors(phdrs, data_len, i + 1);
    }
}

proof fn lemma_plan_error_propagates_back(phdrs: Seq<Elf64ProgramHeader>, data_len: int, i: int, e: ElfError, j: int)
    requires
        0 <= j < i < phdrs.len(),
        load_plan_from(phdrs, data_len, j + 1) is Err,
    ensures
        load_plan_from(phdrs, data_len, 0) is Err,
    decreases j,
{
    if j > 0 {
        lemma_plan_error_propagates_back(phdrs, data_len, i, e, j - 1);
    }
}

/// Where a spawned process's stack goes: its pages (allocated and mapped
/// read-write for the user) from the bottom up, and its top.
pub fn spawn_stack() -> (r: (u64, u64, u64))
    ensures
        r == ((DEFAULT_STACK_TOP - DEFAULT_STACK_SIZE) as u64, (DEFAULT_STACK_SIZE / PAGE_SIZE) as u64, DEFAULT_STACK_TOP),
{
    let stack_pages = DEFAULT_STACK_SIZE / PAGE_SIZE;
    let stack_bottom = DEFAULT_STACK_TOP - DEFAULT_STACK_SIZE as u64;
    (stack_bottom, stack_pages as u64, DEFAULT_STACK_TOP)
}

} // verus!
