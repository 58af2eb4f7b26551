//! Minimal ELF loader, for bootstrapping the first user process only.
//!
//! Later processes are loaded by user space through system calls. Here the
//! file is parsed and what loading it takes is worked out: the pages of each
//! segment and what to copy into them, the relocations of a position-
//! independent executable, and the user stack. Page tables are changed by the
//! caller, as these plans say.
use vstd::prelude::*;
use crate::kernel::syscall::memory::{PTE_PRESENT, PTE_USER_ACCESSIBLE, PTE_WRITABLE};

verus! {

/// ELF class (64-bit).
pub const ELFCLASS64: u8 = 2;
/// ELF data encoding (little endian).
pub const ELFDATA2LSB: u8 = 1;
/// ELF type: executable.
pub const ET_EXEC: u16 = 2;
/// ELF type: shared object (also used for PIE executables).
pub const ET_DYN: u16 = 3;
/// ELF machine type: x86_64.
pub const EM_X86_64: u16 = 62;
/// Program header type: loadable segment.
pub const PT_LOAD: u32 = 1;
/// Program header type: dynamic linking information.
pub const PT_DYNAMIC: u32 = 2;
/// Segment flag: execute.
pub const PF_X: u32 = 1;
/// Segment flag: write.
pub const PF_W: u32 = 2;
/// Segment flag: read.
pub const PF_R: u32 = 4;
/// Dynamic entry: end of the table.
pub const DT_NULL: u64 = 0;
/// Dynamic entry: address of the relocation table.
pub const DT_RELA: u64 = 7;
/// Dynamic entry: size of the relocation table.
pub const DT_RELASZ: u64 = 8;
/// Dynamic entry: size of one relocation entry.
pub const DT_RELAENT: u64 = 9;
/// Relocation type: base plus addend.
pub const R_X86_64_RELATIVE: u64 = 8;
/// Size of the ELF header.
pub const EHDR_SIZE: usize = 64;
/// Size of a program header.
pub const PHDR_SIZE: usize = 56;
/// Size of a dynamic entry.
pub const DYN_SIZE: usize = 16;
/// Size of a relocation entry with addend.
pub const RELA_SIZE: usize = 24;

/// The ELF magic number: 0x7f 'E' 'L' 'F'.
pub open spec fn elf_magic() -> Seq<u8> {
    seq![0x7fu8, 0x45u8, 0x4cu8, 0x46u8]
}

/// Little-endian 16-bit value at `o`.
pub open spec fn le16(s: Seq<u8>, o: int) -> int {
    s[o] + s[o + 1] * 256
}

/// Little-endian 32-bit value at `o`.
pub open spec fn le32(s: Seq<u8>, o: int) -> int {
    le16(s, o) + le16(s, o + 2) * 65536
}

/// Little-endian 64-bit value at `o`.
pub open spec fn le64(s: Seq<u8>, o: int) -> int {
    le32(s, o) + le32(s, o + 4) * 4294967296
}

/// Reads a little-endian `u16` at `off`.
pub fn read_u16(data: &[u8], off: usize) -> (r: u16)
    requires
        off + 2 <= data.len(),
    ensures
        r == le16(data@, off as int),
{
    data[off] as u16 + (data[off + 1] as u16) * 256
}

/// Reads a little-endian `u32` at `off`.
pub fn read_u32(data: &[u8], off: usize) -> (r: u32)
    requires
        off + 4 <= data.len(),
    ensures
        r == le32(data@, off as int),
{
    let lo = read_u16(data, off);
    let hi = read_u16(data, off + 2);
    lo as u32 + (hi as u32) * 65536
}

/// Reads a little-endian `u64` at `off`.
pub fn read_u64(data: &[u8], off: usize) -> (r: u64)
    requires
        off + 8 <= data.len(),
    ensures
        r == le64(data@, off as int),
{
    let lo = read_u32(data, off);
    let hi = read_u32(data, off + 4);
    lo as u64 + (hi as u64) * 4294967296
}

/// ELF64 dynamic entry.
#[derive(Debug, Clone, Copy, PartialEq, Eq, Structural)]
pub struct Elf64Dyn {
    pub d_tag: u64,
    pub d_val: u64,
}

/// ELF64 relocation entry with addend.
#[derive(Debug, Clone, Copy, PartialEq, Eq, Structural)]
pub struct Elf64Rela {
    pub r_offset: u64,
    pub r_info: u64,
    pub r_addend: i64,
}

/// ELF64 header.
#[derive(Debug, Clone, Copy)]
pub struct Elf64Header {
    pub e_ident: [u8; 16],
    pub e_type: u16,
    pub e_machine: u16,
    pub e_version: u32,
    pub e_entry: u64,
    pub e_phoff: u64,
    pub e_shoff: u64,
    pub e_flags: u32,
    pub e_ehsize: u16,
    pub e_phentsize: u16,
    pub e_phnum: u16,
    pub e_shentsize: u16,
    pub e_shnum: u16,
    pub e_shstrndx: u16,
}

/// ELF64 program header.
#[derive(Debug, Clone, Copy, PartialEq, Eq, Structural)]
pub struct Elf64ProgramHeader {
    pub p_type: u32,
    pub p_flags: u32,
    pub p_offset: u64,
    pub p_vaddr: u64,
    pub p_paddr: u64,
    pub p_filesz: u64,
    pub p_memsz: u64,
    pub p_align: u64,
}

/// Where the loaded program starts.
#[derive(Debug, Clone, Copy, PartialEq, Eq, Structural)]
pub struct LoadedElf {
    pub entry_point: u64,
    pub stack_top: u64,
}

/// Why an ELF file cannot be loaded.
#[derive(Debug, Clone, Copy, PartialEq, Eq, Structural)]
pub enum ElfError {
    InvalidMagic,
    InvalidClass,
    InvalidEndianness,
    InvalidType,
    InvalidMachine,
    InvalidProgramHeader,
    MappingFailed,
    FrameAllocationFailed,
}

/// `h` holds the header fields that the first 64 bytes of `s` encode.
pub open spec fn header_at(s: Seq<u8>, h: Elf64Header) -> bool {
    &&& h.e_ident@ == s.subrange(0, 16)
    &&& h.e_type == le16(s, 16)
    &&& h.e_machine == le16(s, 18)
    &&& h.e_version == le32(s, 20)
    &&& h.e_entry == le64(s, 24)
    &&& h.e_phoff == le64(s, 32)
    &&& h.e_shoff == le64(s, 40)
    &&& h.e_flags == le32(s, 48)
    &&& h.e_ehsize == le16(s, 52)
    &&& h.e_phentsize == le16(s, 54)
    &&& h.e_phnum == le16(s, 56)
    &&& h.e_shentsize == le16(s, 58)
    &&& h.e_shnum == le16(s, 60)
    &&& h.e_shstrndx == le16(s, 62)
}

/// Why the header of `s` is refused, if it is: too short or a bad magic
/// number, not 64-bit, not little endian, neither an executable nor a
/// position-independent one, not for x86_64.
pub open spec fn header_error(s: Seq<u8>) -> Option<ElfError> {
    if s.len() < EHDR_SIZE || s.subrange(0, 4) != elf_magic() {
        Some(ElfError::InvalidMagic)
    } else if s[4] != ELFCLASS64 {
        Some(ElfError::InvalidClass)
    } else if s[5] != ELFDATA2LSB {
        Some(ElfError::InvalidEndianness)
    } else if le16(s, 16) != ET_EXEC && le16(s, 16) != ET_DYN {
        Some(ElfError::InvalidType)
    } else if le16(s, 18) != EM_X86_64 {
        Some(ElfError::InvalidMachine)
    } else {
        None
    }
}

/// Reads the ELF header fields of the first 64 bytes.
pub fn read_header(data: &[u8]) -> (r: Elf64Header)
    requires
        data@.len() >= EHDR_SIZE,
    ensures
        header_at(data@, r),
{
    let ident: [u8; 16] = [
        data[0], data[1], data[2], data[3], data[4], data[5], data[6], data[7],
        data[8], data[9], data[10], data[11], data[12], data[13], data[14], data[15],
    ];
    proof {
        assert(ident@ =~= data@.subrange(0, 16));
    }
    Elf64Header {
        e_ident: ident,
        e_type: read_u16(data, 16),
        e_machine: read_u16(data, 18),
        e_version: read_u32(data, 20),
        e_entry: read_u64(data, 24),
        e_phoff: read_u64(data, 32),
        e_shoff: read_u64(data, 40),
        e_flags: read_u32(data, 48),
        e_ehsize: read_u16(data, 52),
        e_phentsize: read_u16(data, 54),
        e_phnum: read_u16(data, 56),
        e_shentsize: read_u16(data, 58),
        e_shnum: read_u16(data, 60),
        e_shstrndx: read_u16(data, 62),
    }
}

/// Whether the first four bytes are the ELF magic number.
pub fn has_elf_magic(data: &[u8]) -> (r: bool)
    requires
        data@.len() >= 4,
    ensures
        r == (data@.subrange(0, 4) == elf_magic()),
{
    let r = data[0] == 0x7f && data[1] == 0x45 && data[2] == 0x4c && data[3] == 0x46;
    proof {
        if r {
            assert(data@.subrange(0, 4) =~= elf_magic());
        } else {
            assert(data@.subrange(0, 4) != elf_magic()) by {
                if data@.subrange(0, 4) == elf_magic() {
                    assert(data@.subrange(0, 4)[1] == data@[1]);
                    assert(data@.subrange(0, 4)[2] == data@[2]);
                    assert(data@.subrange(0, 4)[3] == data@[3]);
                }
            }
        }
    }
    r
}

/// Parses and checks an ELF header.
pub fn parse_header(data: &[u8]) -> (r: Result<Elf64Header, ElfError>)
    ensures
        match header_error(data@) {
            Some(e) => r == Err::<Elf64Header, ElfError>(e),
            None => r is Ok && header_at(data@, r->Ok_0),
        },
{
    if data.len() < EHDR_SIZE {
        return Err(ElfError::InvalidMagic);
    }
    if !has_elf_magic(data) {
        return Err(ElfError::InvalidMagic);
    }
    if data[4] != ELFCLASS64 {
        return Err(ElfError::InvalidClass);
    }
    if data[5] != ELFDATA2LSB {
        return Err(ElfError::InvalidEndianness);
    }
    let header = read_header(data);
    if header.e_type != ET_EXEC && header.e_type != ET_DYN {
        return Err(ElfError::InvalidType);
    }
    if header.e_machine != EM_X86_64 {
        return Err(ElfError::InvalidMachine);
    }
    Ok(header)
}

/// `p` holds the program header fields that the 56 bytes of `s` at `o`
/// encode.
pub open spec fn phdr_at(s: Seq<u8>, o: int, p: Elf64ProgramHeader) -> bool {
    &&& p.p_type == le32(s, o)
    &&& p.p_flags == le32(s, o + 4)
    &&& p.p_offset == le64(s, o + 8)
    &&& p.p_vaddr == le64(s, o + 16)
    &&& p.p_paddr == le64(s, o + 24)
    &&& p.p_filesz == le64(s, o + 32)
    &&& p.p_memsz == le64(s, o + 40)
    &&& p.p_align == le64(s, o + 48)
}

/// Reads the program header at `off`.
pub fn read_phdr(data: &[u8], off: usize) -> (r: Elf64ProgramHeader)
    requires
        off + PHDR_SIZE <= data.len(),
    ensures
        phdr_at(data@, off as int, r),
{
    Elf64ProgramHeader {
        p_type: read_u32(data, off),
        p_flags: read_u32(data, off + 4),
        p_offset: read_u64(data, off + 8),
        p_vaddr: read_u64(data, off + 16),
        p_paddr: read_u64(data, off + 24),
        p_filesz: read_u64(data, off + 32),
        p_memsz: read_u64(data, off + 40),
        p_align: read_u64(data, off + 48),
    }
}

/// The program header table of `h` lies within `len` bytes: both its
/// declared extent (count times entry size) and the last header read.
pub open spec fn phdrs_fit(h: Elf64Header, len: int) -> bool {
    &&& h.e_phoff + h.e_phnum * h.e_phentsize <= len
    &&& h.e_phnum > 0 ==> h.e_phoff + (h.e_phnum - 1) * h.e_phentsize + PHDR_SIZE <= len
}

/// Reads the program headers: `e_phnum` of them, `e_phentsize` bytes apart
/// from `e_phoff` on. A table that does not lie within the data is refused.
pub fn get_program_headers(data: &[u8], header: &Elf64Header) -> (r: Result<Vec<Elf64ProgramHeader>, ElfError>)
    ensures
        !phdrs_fit(*header, data@.len() as int) ==> r == Err::<Vec<Elf64ProgramHeader>, ElfError>(
            ElfError::InvalidProgramHeader,
        ),
        phdrs_fit(*header, data@.len() as int) ==> r is Ok && r->Ok_0@.len() == header.e_phnum && forall|i: int|
            0 <= i < header.e_phnum ==> #[trigger] phdr_at(
                data@,
                header.e_phoff + i * header.e_phentsize,
                r->Ok_0@[i],
            ),
{
    let phoff = header.e_phoff as u128;
    let phnum = header.e_phnum as u128;
    let phentsize = header.e_phentsize as u128;
    let len = data.len() as u128;
    assert(phnum * phentsize <= 0xFFFF * 0xFFFF) by (nonlinear_arith)
        requires
            phnum <= 0xFFFF,
            phentsize <= 0xFFFF,
    ;
    assert((phnum - 1) * phentsize <= 0xFFFF * 0xFFFF) by (nonlinear_arith)
        requires
            phnum <= 0xFFFF,
            phentsize <= 0xFFFF,
    ;
    if phoff + phnum * phentsize > len {
        return Err(ElfError::InvalidProgramHeader);
    }
    if phnum > 0 && phoff + (phnum - 1) * phentsize + PHDR_SIZE as u128 > len {
        return Err(ElfError::InvalidProgramHeader);
    }
    let mut phdrs: Vec<Elf64ProgramHeader> = Vec::new();
    let mut i: u128 = 0;
    while i < phnum
        invariant
            phoff == header.e_phoff,
            phnum == header.e_phnum,
            phentsize == header.e_phentsize,
            len == data@.len(),
            len == data.len(),
            phdrs_fit(*header, data@.len() as int),
            i <= phnum,
            phdrs@.len() == i,
            forall|k: int| 0 <= k < i ==> #[trigger] phdr_at(data@, phoff + k * phentsize, phdrs@[k]),
        decreases phnum - i,
    {
        assert(i * phentsize <= (phnum - 1) * phentsize) by (nonlinear_arith)
            requires
                i < phnum,
        ;
        let off = (phoff + i * phentsize) as usize;
        assert(off as int == phoff + i * phentsize);
        let p = read_phdr(data, off);
        phdrs.push(p);
        i = i + 1;
    }
    Ok(phdrs)
}

/// The first position from `i` on whose program header has type `t`.
pub open spec fn first_of_type(phdrs: Seq<Elf64ProgramHeader>, t: u32, i: int) -> Option<int>
    decreases phdrs.len() - i,
{
    if i < 0 || i >= phdrs.len() {
        None
    } else if phdrs[i].p_type == t {
        Some(i)
    } else {
        first_of_type(phdrs, t, i + 1)
    }
}

/// The file offset of virtual address `v`, after the first loadable segment
/// from position `i` on whose file data contains it.
pub open spec fn vaddr_offset(v: u64, phdrs: Seq<Elf64ProgramHeader>, i: int) -> Option<int>
    decreases phdrs.len() - i,
{
    if i < 0 || i >= phdrs.len() {
        None
    } else if phdrs[i].p_type == PT_LOAD && phdrs[i].p_vaddr <= v && v < phdrs[i].p_vaddr + phdrs[i].p_filesz {
        Some(phdrs[i].p_offset + (v - phdrs[i].p_vaddr))
    } else {
        vaddr_offset(v, phdrs, i + 1)
    }
}

/// The file offset of a virtual address is found in the first loadable
/// segment (from position `i` on) whose file data holds the address, at the
/// address's distance from the segment's start past the segment's file
/// offset; there is none when no loadable segment's file data holds it.
pub proof fn lemma_vaddr_offset(v: u64, phdrs: Seq<Elf64ProgramHeader>, i: int)
    requires
        0 <= i,
    ensures
        vaddr_offset(v, phdrs, i) is None ==> forall|j: int|
            i <= j < phdrs.len() ==> !((#[trigger] phdrs[j]).p_type == PT_LOAD && phdrs[j].p_vaddr <= v
                < phdrs[j].p_vaddr + phdrs[j].p_filesz),
        vaddr_offset(v, phdrs, i) is Some ==> exists|j: int|
            {
                &&& i <= j < phdrs.len()
                &&& (#[trigger] phdrs[j]).p_type == PT_LOAD
                &&& phdrs[j].p_vaddr <= v < phdrs[j].p_vaddr + phdrs[j].p_filesz
                &&& vaddr_offset(v, phdrs, i)->Some_0 == phdrs[j].p_offset + (v - phdrs[j].p_vaddr)
                &&& forall|m: int|
                    i <= m < j ==> !((#[trigger] phdrs[m]).p_type == PT_LOAD && phdrs[m].p_vaddr <= v
                        < phdrs[m].p_vaddr + phdrs[m].p_filesz)
            },
    decreases phdrs.len() - i,
{
    if i < phdrs.len() {
        lemma_vaddr_offset(v, phdrs, i + 1);
        if phdrs[i].p_type == PT_LOAD && phdrs[i].p_vaddr <= v && v < phdrs[i].p_vaddr + phdrs[i].p_filesz {
            assert(phdrs[i].p_type == PT_LOAD);
        } else if vaddr_offset(v, phdrs, i + 1) is Some {
            let j = choose|j: int|
                {
                    &&& i + 1 <= j < phdrs.len()
                    &&& (#[trigger] phdrs[j]).p_type == PT_LOAD
                    &&& phdrs[j].p_vaddr <= v < phdrs[j].p_vaddr + phdrs[j].p_filesz
                    &&& vaddr_offset(v, phdrs, i + 1)->Some_0 == phdrs[j].p_offset + (v - phdrs[j].p_vaddr)
                    &&& forall|m: int|
                        i + 1 <= m < j ==> !((#[trigger] phdrs[m]).p_type == PT_LOAD && phdrs[m].p_vaddr <= v
                            < phdrs[m].p_vaddr + phdrs[m].p_filesz)
                };
            assert(phdrs[j].p_type == PT_LOAD);
        }
    }
}

proof fn lemma_vaddr_offset_nonneg(v: u64, phdrs: Seq<Elf64ProgramHeader>, i: int)
    ensures
        vaddr_offset(v, phdrs, i) matches Some(o) ==> o >= 0,
    decreases phdrs.len() - i,
{
    if 0 <= i < phdrs.len() {
        lemma_vaddr_offset_nonneg(v, phdrs, i + 1);
    }
}

/// Converts a virtual address to a file offset using the loadable segments;
/// `None` when no segment's file data contains it, or the offset does not fit
/// in 64 bits.
pub fn vaddr_to_file_offset(vaddr: u64, phdrs: &[Elf64ProgramHeader]) -> (r: Option<u64>)
    ensures
        match vaddr_offset(vaddr, phdrs@, 0) {
            Some(o) => if o <= u64::MAX {
                r == Some(o as u64)
            } else {
                r is None
            },
            None => r is None,
        },
{
    let mut i: usize = 0;
    while i < phdrs.len()
        invariant
            i <= phdrs@.len(),
            vaddr_offset(vaddr, phdrs@, 0) == vaddr_offset(vaddr, phdrs@, i as int),
        decreases phdrs@.len() - i,
    {
        let p = phdrs[i];
        if p.p_type == PT_LOAD && vaddr >= p.p_vaddr && vaddr - p.p_vaddr < p.p_filesz {
            return p.p_offset.checked_add(vaddr - p.p_vaddr);
        }
        i = i + 1;
    }
    None
}

/// What the dynamic table tells of the relocation table: (address, size,
/// entry size), each as last given.
pub type RelaInfo = (Option<u64>, Option<u64>, Option<u64>);

/// Scans the dynamic entries `i`, `i + 1`, ... of the table at `off` with `n`
/// entries, updating `acc`; the scan stops at `DT_NULL`, after `n` entries,
/// or at an entry that does not lie within `s`.
pub open spec fn dyn_scan(s: Seq<u8>, off: int, n: int, i: int, acc: RelaInfo) -> RelaInfo
    decreases n - i,
{
    if i < 0 || i >= n || off + i * 16 + 16 > s.len() {
        acc
    } else {
        let o = off + i * 16;
        let tag = le64(s, o);
        let val = le64(s, o + 8) as u64;
        if tag == DT_NULL {
            acc
        } else {
            dyn_scan(
                s,
                off,
                n,
                i + 1,
                if tag == DT_RELA {
                    (Some(val), acc.1, acc.2)
                } else if tag == DT_RELASZ {
                    (acc.0, Some(val), acc.2)
                } else if tag == DT_RELAENT {
                    (acc.0, acc.1, Some(val))
                } else {
                    acc
                },
            )
        }
    }
}

/// The writes that relocations `i`, `i + 1`, ... of the table at file
/// offset `off` (entries `ent` bytes apart, `n` of them) ask for: each
/// `R_X86_64_RELATIVE` entry writes its addend (the load base being 0) at its
/// offset. The table ends early at an entry that does not lie within `s`.
pub open spec fn rela_writes(s: Seq<u8>, off: int, ent: int, n: int, i: int) -> Seq<(u64, u64)>
    decreases n - i,
{
    if i < 0 || i >= n || off + i * ent + RELA_SIZE > s.len() {
        Seq::empty()
    } else {
        let o = off + i * ent;
        let rest = rela_writes(s, off, ent, n, i + 1);
        if le64(s, o + 8) % 0x1_0000_0000 == R_X86_64_RELATIVE {
            seq![(le64(s, o) as u64, le64(s, o + 16) as u64)] + rest
        } else {
            rest
        }
    }
}

/// The relocation writes of a position-independent executable: none without
/// a dynamic segment or without a complete relocation table description; a
/// table address outside the loadable segments, or an entry size of 0, is
/// refused.
pub open spec fn relocations_of(s: Seq<u8>, phdrs: Seq<Elf64ProgramHeader>) -> Result<Seq<(u64, u64)>, ElfError> {
    match first_of_type(phdrs, PT_DYNAMIC, 0) {
        None => Ok(Seq::empty()),
        Some(d) => {
            let info = dyn_scan(s, phdrs[d].p_offset as int, (phdrs[d].p_filesz / 16) as int, 0, (None, None, None));
            match info {
                (Some(addr), Some(size), Some(ent)) => match vaddr_offset(addr, phdrs, 0) {
                    None => Err(ElfError::InvalidProgramHeader),
                    Some(o) => if o > u64::MAX || ent == 0 {
                        Err(ElfError::InvalidProgramHeader)
                    } else {
                        Ok(rela_writes(s, o, ent as int, (size / ent) as int, 0))
                    },
                },
                _ => Ok(Seq::empty()),
            }
        },
    }
}

/// Reads a dynamic entry at `off`.
fn read_dyn(data: &[u8], off: usize) -> (r: Elf64Dyn)
    requires
        off + DYN_SIZE <= data.len(),
    ensures
        r.d_tag == le64(data@, off as int),
        r.d_val == le64(data@, off + 8),
{
    Elf64Dyn { d_tag: read_u64(data, off), d_val: read_u64(data, off + 8) }
}

/// Reads a relocation entry at `off`.
fn read_rela(data: &[u8], off: usize) -> (r: Elf64Rela)
    requires
        off + RELA_SIZE <= data.len(),
    ensures
        r.r_offset == le64(data@, off as int),
        r.r_info == le64(data@, off + 8),
        r.r_addend as u64 == le64(data@, off + 16) as u64,
{
    let addend = read_u64(data, off + 16);
    assert(((addend as i64) as u64) == addend) by (bit_vector);
    Elf64Rela { r_offset: read_u64(data, off), r_info: read_u64(data, off + 8), r_addend: addend as i64 }
}

/// Scans the dynamic table of `n` entries at file offset `off`.
fn scan_dynamic(data: &[u8], off: u64, n: u64) -> (r: RelaInfo)
    ensures
        r == dyn_scan(data@, off as int, n as int, 0, (None, None, None)),
{
    let dyn_offset = off as u128;
    let num_entries = n as u128;
    let len = data.len() as u128;
    let mut rela_addr: Option<u64> = None;
    let mut rela_size: Option<u64> = None;
    let mut rela_ent: Option<u64> = None;
    let mut i: u128 = 0;
    while i < num_entries
        invariant
            dyn_offset == off,
            num_entries == n,
            len == data@.len(),
            len == data.len(),
            i <= num_entries,
            dyn_scan(data@, off as int, n as int, 0, (None, None, None)) == dyn_scan(
                data@,
                off as int,
                n as int,
                i as int,
                (rela_addr, rela_size, rela_ent),
            ),
        ensures
            dyn_scan(data@, off as int, n as int, 0, (None, None, None)) == (rela_addr, rela_size, rela_ent),
        decreases num_entries - i,
    {
        assert(i * 16 <= u64::MAX * 16) by (nonlinear_arith)
            requires
                i <= u64::MAX,
        ;
        let o = dyn_offset + i * 16;
        if o + 16 > len {
            break;
        }
        let entry = read_dyn(data, o as usize);
        if entry.d_tag == DT_NULL {
            break;
        }
        if entry.d_tag == DT_RELA {
            rela_addr = Some(entry.d_val);
        } else if entry.d_tag == DT_RELASZ {
            rela_size = Some(entry.d_val);
        } else if entry.d_tag == DT_RELAENT {
            rela_ent = Some(entry.d_val);
        }
        i = i + 1;
    }
    (rela_addr, rela_size, rela_ent)
}

/// Collects the writes of `num` relocation entries, `ent` bytes apart, from
/// file offset `off` on.
fn collect_relocations(data: &[u8], off: u64, ent: u64, num: u64) -> (r: Vec<(u64, u64)>)
    ensures
        r@ == rela_writes(data@, off as int, ent as int, num as int, 0),
{
    let len = data.len() as u128;
    let mut writes: Vec<(u64, u64)> = Vec::new();
    let mut k: u64 = 0;
    while k < num
        invariant
            len == data@.len(),
            len == data.len(),
            k <= num,
            rela_writes(data@, off as int, ent as int, num as int, 0) == writes@ + rela_writes(
                data@,
                off as int,
                ent as int,
                num as int,
                k as int,
            ),
        decreases num - k,
    {
        assert((k as u128) * (ent as u128) <= u64::MAX * u64::MAX) by (nonlinear_arith)
            requires
                k <= u64::MAX,
                ent <= u64::MAX,
        ;
        let o = off as u128 + (k as u128) * (ent as u128);
        if o + RELA_SIZE as u128 > len {
            proof {
                assert(writes@ + rela_writes(data@, off as int, ent as int, num as int, k as int) =~= writes@);
            }
            return writes;
        }
        let rela = read_rela(data, o as usize);
        let ghost before = writes@;
        if rela.r_info % 0x1_0000_0000 == R_X86_64_RELATIVE {
            writes.push((rela.r_offset, rela.r_addend as u64));
            proof {
                assert(before + rela_writes(data@, off as int, ent as int, num as int, k as int) =~= writes@
                    + rela_writes(data@, off as int, ent as int, num as int, k + 1));
            }
        }
        k = k + 1;
    }
    proof {
        assert(writes@ + rela_writes(data@, off as int, ent as int, num as int, k as int) =~= writes@);
    }
    writes
}

/// Works out the relocations of a position-independent executable: the
/// (address, value) pairs to write into the loaded image.
pub fn process_relocations(data: &[u8], phdrs: &[Elf64ProgramHeader]) -> (r: Result<Vec<(u64, u64)>, ElfError>)
    ensures
        match relocations_of(data@, phdrs@) {
            Ok(w) => r is Ok && r->Ok_0@ == w,
            Err(e) => r == Err::<Vec<(u64, u64)>, ElfError>(e),
        },
{
    let mut d: usize = 0;
    while d < phdrs.len() && phdrs[d].p_type != PT_DYNAMIC
        invariant
            d <= phdrs@.len(),
            first_of_type(phdrs@, PT_DYNAMIC, 0) == first_of_type(phdrs@, PT_DYNAMIC, d as int),
        decreases phdrs@.len() - d,
    {
        d = d + 1;
    }
    if d == phdrs.len() {
        return Ok(Vec::new());
    }
    let info = scan_dynamic(data, phdrs[d].p_offset, phdrs[d].p_filesz / 16);
    let (addr, size, ent) = match info {
        (Some(a), Some(s), Some(e)) => (a, s, e),
        _ => return Ok(Vec::new()),
    };
    let rela_off = match vaddr_to_file_offset(addr, phdrs) {
        Some(o) => o,
        None => return Err(ElfError::InvalidProgramHeader),
    };
    if ent == 0 {
        return Err(ElfError::InvalidProgramHeader);
    }
    proof {
        lemma_vaddr_offset_nonneg(addr, phdrs@, 0);
    }
    Ok(collect_relocations(data, rela_off, ent, size / ent))
}

/// Canonical x86_64 virtual address: bits 47 to 63 all equal.
pub open spec fn canonical(a: int) -> bool {
    (0 <= a < 0x0000_8000_0000_0000) || (0xFFFF_8000_0000_0000 <= a <= u64::MAX)
}

/// Start of the 4 KiB page containing `a`.
pub open spec fn page_of(a: int) -> int {
    a - a % 4096
}

/// The pages a loadable segment occupies: `page_count` pages from
/// `first_page` on, mapped with `flags`.
#[derive(Debug, Clone, Copy, PartialEq, Eq, Structural)]
pub struct SegmentPages {
    pub first_page: u64,
    pub page_count: u64,
    pub flags: u64,
}

/// The pages of segment `p` (from the page of its start to the page of its
/// last byte; none for an empty one), user-accessible and writable when the
/// segment is. A segment whose end does not fit in 64 bits or whose ends are
/// not canonical addresses is refused.
pub open spec fn segment_pages_of(p: Elf64ProgramHeader) -> Result<SegmentPages, ElfError> {
    let end = p.p_vaddr + p.p_memsz;
    let last = if end == 0 {
        0
    } else {
        end - 1
    };
    if end > u64::MAX || !canonical(p.p_vaddr as int) || !canonical(last) {
        Err(ElfError::InvalidProgramHeader)
    } else {
        let first = page_of(p.p_vaddr as int);
        let last_page = page_of(last);
        Ok(
            SegmentPages {
                first_page: first as u64,
                page_count: (if last_page >= first {
                    (last_page - first) / 4096 + 1
                } else {
                    0
                }) as u64,
                flags: PTE_PRESENT | PTE_USER_ACCESSIBLE | (if p.p_flags & PF_W != 0 {
                    PTE_WRITABLE
                } else {
                    0
                }),
            },
        )
    }
}

/// The page-table flags of a segment, without and with the writable bit.
proof fn lemma_pte_values()
    by (bit_vector)
    ensures
        (1u64 | 4u64 | 0u64) == 5u64,
        (1u64 | 4u64 | 2u64) == 7u64,
        (1u64 | 2u64 | 4u64) == 7u64,
        5u64 & 1u64 == 1u64,
        5u64 & 4u64 == 4u64,
        5u64 & 2u64 == 0u64,
        7u64 & 1u64 == 1u64,
        7u64 & 4u64 == 4u64,
        7u64 & 2u64 == 2u64,
        5u64 & 7u64 == 5u64,
        7u64 & 7u64 == 7u64,
{
}

/// A segment is refused exactly when its end does not fit in 64 bits or its
/// first or last byte is not a canonical address. An accepted segment is
/// mapped present and user-accessible, writable exactly when it has the
/// write flag, and with no other flag; its pages start at the page of its
/// first byte, and for a segment that has memory they cover every byte of
/// it, the last page holding its last byte.
pub proof fn lemma_segment_pages(p: Elf64ProgramHeader)
    ensures
        segment_pages_of(p) is Ok <==> (p.p_vaddr + p.p_memsz <= u64::MAX && canonical(p.p_vaddr as int)
            && canonical(
            if p.p_vaddr + p.p_memsz == 0 {
                0
            } else {
                p.p_vaddr + p.p_memsz - 1
            },
        )),
        segment_pages_of(p) is Err ==> segment_pages_of(p) == Err::<SegmentPages, ElfError>(
            ElfError::InvalidProgramHeader,
        ),
        match segment_pages_of(p) {
            Ok(sp) => {
                &&& sp.flags & PTE_PRESENT != 0
                &&& sp.flags & PTE_USER_ACCESSIBLE != 0
                &&& (sp.flags & PTE_WRITABLE != 0) <==> (p.p_flags & PF_W != 0)
                &&& sp.flags == sp.flags & (PTE_PRESENT | PTE_USER_ACCESSIBLE | PTE_WRITABLE)
                &&& sp.first_page % 4096 == 0
                &&& sp.first_page <= p.p_vaddr < sp.first_page + 4096
                &&& p.p_memsz > 0 ==> {
                    &&& sp.page_count >= 1
                    &&& p.p_vaddr + p.p_memsz <= sp.first_page + 4096 * sp.page_count
                    &&& sp.first_page + 4096 * (sp.page_count - 1) < p.p_vaddr + p.p_memsz
                }
            },
            Err(_) => true,
        },
{
    lemma_pte_values();
    if segment_pages_of(p) is Ok {
        let sp = segment_pages_of(p)->Ok_0;
        let v = p.p_vaddr as int;
        let first = v - v % 4096;
        assert(sp.first_page == first);
        if p.p_memsz > 0 {
            let end = v + p.p_memsz;
            let last = end - 1;
            let lp = last - last % 4096;
            assert(lp >= first);
            let a = last / 4096;
            let b = v / 4096;
            assert(lp == 4096 * a);
            assert(first == 4096 * b);
            assert(lp - first == 4096 * (a - b));
            assert((lp - first) / 4096 == a - b);
            assert(sp.page_count == a - b + 1);
        }
    }
}

fn is_canonical(a: u64) -> (r: bool)
    ensures
        r == canonical(a as int),
{
    a < 0x0000_8000_0000_0000 || a >= 0xFFFF_8000_0000_0000
}

/// Works out the pages of a loadable segment.
pub fn segment_pages(p: &Elf64ProgramHeader) -> (r: Result<SegmentPages, ElfError>)
    ensures
        r == segment_pages_of(*p),
{
    let end = match p.p_vaddr.checked_add(p.p_memsz) {
        Some(e) => e,
        None => return Err(ElfError::InvalidProgramHeader),
    };
    let last = end.saturating_sub(1);
    if !is_canonical(p.p_vaddr) || !is_canonical(last) {
        return Err(ElfError::InvalidProgramHeader);
    }
    let first = p.p_vaddr - p.p_vaddr % 4096;
    let last_page = last - last % 4096;
    let page_count = if last_page >= first {
        (last_page - first) / 4096 + 1
    } else {
        0
    };
    let writable = if p.p_flags & PF_W != 0 {
        PTE_WRITABLE
    } else {
        0
    };
    Ok(SegmentPages { first_page: first, page_count, flags: PTE_PRESENT | PTE_USER_ACCESSIBLE | writable })
}

/// What to copy from the file into one page of a segment: `len` bytes from
/// file offset `src_offset` to offset `dst_offset` within the page.
#[derive(Debug, Clone, Copy, PartialEq, Eq, Structural)]
pub struct CopyPlan {
    pub src_offset: usize,
    pub dst_offset: usize,
    pub len: usize,
}

/// The part of segment `p`'s file data that falls into the page at
/// `page_start`, if any, and only when it lies within the `data_len` bytes of
/// the file (the rest of the page stays zero).
pub open spec fn segment_copy_of(p: Elf64ProgramHeader, page_start: int, data_len: int) -> Option<CopyPlan> {
    let page_end = page_start + 4096;
    let file_start = p.p_vaddr as int;
    let file_end = p.p_vaddr + p.p_filesz;
    if page_start < file_end && page_end > file_start {
        let copy_start = if page_start > file_start {
            page_start
        } else {
            file_start
        };
        let copy_end = if page_end < file_end {
            page_end
        } else {
            file_end
        };
        let src = p.p_offset + (copy_start - file_start);
        let n = copy_end - copy_start;
        if src + n <= data_len {
            Some(CopyPlan { src_offset: src as usize, dst_offset: (copy_start - page_start) as usize, len: n as usize })
        } else {
            None
        }
    } else {
        None
    }
}

/// What is copied into a page: only when some of the segment's file data
/// falls into the page and all of that data lies within the file; then
/// exactly that data (from the later of the page's and the data's start to
/// the earlier of their ends), each byte from its own file offset to its own
/// place in the page.
pub proof fn lemma_segment_copy(p: Elf64ProgramHeader, page_start: int, data_len: int)
    requires
        0 <= page_start,
        0 <= data_len <= usize::MAX,
    ensures
        segment_copy_of(p, page_start, data_len) is Some <==> (page_start < p.p_vaddr + p.p_filesz && p.p_vaddr
            < page_start + 4096 && p.p_offset + ((if page_start + 4096 < p.p_vaddr + p.p_filesz {
            page_start + 4096
        } else {
            p.p_vaddr + p.p_filesz
        }) - p.p_vaddr) <= data_len),
        match segment_copy_of(p, page_start, data_len) {
            Some(c) => {
                &&& c.dst_offset + c.len <= 4096
                &&& p.p_vaddr <= page_start + c.dst_offset
                &&& page_start + c.dst_offset + c.len <= p.p_vaddr + p.p_filesz
                &&& c.src_offset == p.p_offset + (page_start + c.dst_offset - p.p_vaddr)
                &&& c.src_offset + c.len <= data_len
                &&& (page_start + c.dst_offset == page_start || page_start + c.dst_offset == p.p_vaddr)
                &&& (page_start + c.dst_offset + c.len == page_start + 4096 || page_start + c.dst_offset + c.len
                    == p.p_vaddr + p.p_filesz)
            },
            None => true,
        },
{
    let page_end = page_start + 4096;
    let file_start = p.p_vaddr as int;
    let file_end = p.p_vaddr + p.p_filesz;
    if page_start < file_end && page_end > file_start {
        let copy_start = if page_start > file_start {
            page_start
        } else {
            file_start
        };
        let copy_end = if page_end < file_end {
            page_end
        } else {
            file_end
        };
        let src = p.p_offset + (copy_start - file_start);
        let n = copy_end - copy_start;
        if src + n <= data_len {
            assert(0 <= src <= usize::MAX);
            assert(0 <= copy_start - page_start < 4096);
            assert(0 <= n <= 4096);
            let c = segment_copy_of(p, page_start, data_len)->Some_0;
            assert(c.src_offset == src);
            assert(c.dst_offset == copy_start - page_start);
            assert(c.len == n);
        }
    }
}

/// Works out what to copy into the page at `page_start` of segment `p`.
pub fn segment_copy(p: &Elf64ProgramHeader, page_start: u64, data_len: usize) -> (r: Option<CopyPlan>)
    ensures
        r == segment_copy_of(*p, page_start as int, data_len as int),
{
    let page_start = page_start as u128;
    let page_end = page_start + 4096;
    let file_start = p.p_vaddr as u128;
    let file_end = p.p_vaddr as u128 + p.p_filesz as u128;
    if page_start < file_end && page_end > file_start {
        let copy_start = if page_start > file_start {
            page_start
        } else {
            file_start
        };
        let copy_end = if page_end < file_end {
            page_end
        } else {
            file_end
        };
        let src = p.p_offset as u128 + (copy_start - file_start);
        let n = copy_end - copy_start;
        if src + n <= data_len as u128 {
            Some(CopyPlan { src_offset: src as usize, dst_offset: (copy_start - page_start) as usize, len: n as usize })
        } else {
            None
        }
    } else {
        None
    }
}

/// Top of the user stack (below kernel space).
pub const USER_STACK_TOP: u64 = 0x0000_7fff_ffff_0000;
/// Size of the user stack: 64 KiB.
pub const USER_STACK_SIZE: u64 = 0x10000;

/// The user stack: `page_count` pages from `first_page` on, mapped with
/// `flags`; `top` is the initial stack pointer.
#[derive(Debug, Clone, Copy, PartialEq, Eq, Structural)]
pub struct StackPlan {
    pub first_page: u64,
    pub page_count: u64,
    pub flags: u64,
    pub top: u64,
}

/// The user stack: the 16 pages below `USER_STACK_TOP`, present, writable
/// and user-accessible, zeroed.
pub fn setup_user_stack() -> (r: StackPlan)
    ensures
        r == (StackPlan {
            first_page: (USER_STACK_TOP - USER_STACK_SIZE) as u64,
            page_count: 16,
            flags: PTE_PRESENT | PTE_WRITABLE | PTE_USER_ACCESSIBLE,
            top: USER_STACK_TOP,
        }),
        r.flags & PTE_PRESENT != 0 && r.flags & PTE_WRITABLE != 0 && r.flags & PTE_USER_ACCESSIBLE != 0,
        r.flags == r.flags & (PTE_PRESENT | PTE_USER_ACCESSIBLE | PTE_WRITABLE),
        r.first_page % 4096 == 0,
        r.first_page + 4096 * r.page_count == r.top,
        4096 * r.page_count == USER_STACK_SIZE,
        r.top < 0x0000_8000_0000_0000,
{
    proof {
        lemma_pte_values();
    }
    let stack_bottom = USER_STACK_TOP - USER_STACK_SIZE;
    StackPlan {
        first_page: stack_bottom,
        page_count: USER_STACK_SIZE / 4096,
        flags: PTE_PRESENT | PTE_WRITABLE | PTE_USER_ACCESSIBLE,
        top: USER_STACK_TOP,
    }
}

/// A parsed ELF image ready to load: its entry point, whether it is position
/// independent (and so has relocations to apply), and its program headers.
pub struct ElfImage {
    pub entry_point: u64,
    pub position_independent: bool,
    pub phdrs: Vec<Elf64ProgramHeader>,
}

/// Parses an ELF file for loading: the header must be valid and the
/// program header table must lie within the data. Its loadable segments are
/// then mapped (`segment_pages`, `segment_copy`), then the relocations of a
/// position-independent image applied (`process_relocations`), then the user
/// stack set up (`setup_user_stack`).
pub fn load_elf(data: &[u8]) -> (r: Result<ElfImage, ElfError>)
    ensures
        match header_error(data@) {
            Some(e) => r is Err && r->Err_0 == e,
            None => {
                let h = choose|h: Elf64Header| header_at(data@, h);
                if !phdrs_fit(h, data@.len() as int) {
                    r is Err && r->Err_0 == ElfError::InvalidProgramHeader
                } else {
                    &&& r is Ok
                    &&& r->Ok_0.entry_point == le64(data@, 24)
                    &&& r->Ok_0.position_independent == (le16(data@, 16) == ET_DYN)
                    &&& r->Ok_0.phdrs@.len() == h.e_phnum
                    &&& forall|i: int|
                        0 <= i < h.e_phnum ==> #[trigger] phdr_at(
                            data@,
                            h.e_phoff + i * h.e_phentsize,
                            r->Ok_0.phdrs@[i],
                        )
                }
            },
        },
{
    let header = match parse_header(data) {
        Ok(h) => h,
        Err(e) => return Err(e),
    };
    proof {
        let h = choose|h: Elf64Header| header_at(data@, h);
        assert(header_at(data@, header));
        assert(h.e_phoff == header.e_phoff && h.e_phnum == header.e_phnum && h.e_phentsize == header.e_phentsize);
    }
    let phdrs = match get_program_headers(data, &header) {
        Ok(p) => p,
        Err(e) => return Err(e),
    };
    Ok(ElfImage { entry_point: header.e_entry, position_independent: header.e_type == ET_DYN, phdrs })
}

/// The loaded program: the image's entry point and the stack's top.
pub fn loaded(image: &ElfImage, stack: &StackPlan) -> (r: LoadedElf)
    ensures
        r == (LoadedElf { entry_point: image.entry_point, stack_top: stack.top }),
{
    LoadedElf { entry_point: image.entry_point, stack_top: stack.top }
}

/// The little-endian encoding of `x` in `n` bytes.
pub open spec fn le_bytes(x: int, n: nat) -> Seq<u8>
    decreases n,
{
    if n == 0 {
        Seq::empty()
    } else {
        seq![(x % 256) as u8] + le_bytes(x / 256, (n - 1) as nat)
    }
}


proof fn lemma_le_bytes_len(x: int, n: nat)
    ensures
        le_bytes(x, n).len() == n,
    decreases n,
{
    if n > 0 {
        lemma_le_bytes_len(x / 256, (n - 1) as nat);
    }
}

proof fn lemma_le16_bytes(x: int)
    requires
        0 <= x < 0x10000,
    ensures
        le16(le_bytes(x, 2), 0) == x,
{
    reveal_with_fuel(le_bytes, 3);
    let b = le_bytes(x, 2);
    assert(b[0] == x % 256);
    assert(b[1] == (x / 256) % 256);
    assert(x % 256 + ((x / 256) % 256) * 256 == x) by (nonlinear_arith)
        requires
            0 <= x < 0x10000,
    ;
}

proof fn lemma_le32_bytes(x: int)
    requires
        0 <= x < 0x1_0000_0000,
    ensures
        le32(le_bytes(x, 4), 0) == x,
{
    reveal_with_fuel(le_bytes, 5);
    let b = le_bytes(x, 4);
    let lo = x % 65536;
    let hi = x / 65536;
    assert(b.subrange(0, 2) =~= le_bytes(lo, 2)) by {
        assert(x % 256 == lo % 256) by (nonlinear_arith)
            requires
                lo == x % 65536,
                x >= 0,
        ;
        assert((x / 256) % 256 == (lo / 256) % 256) by (nonlinear_arith)
            requires
                lo == x % 65536,
                x >= 0,
        ;
    }
    assert(b.subrange(2, 4) =~= le_bytes(hi, 2)) by {
        assert((x / 256) / 256 == hi) by (nonlinear_arith)
            requires
                hi == x / 65536,
                x >= 0,
        ;
    }
    lemma_le16_bytes(lo);
    lemma_le16_bytes(hi);
    assert(lo + hi * 65536 == x) by (nonlinear_arith)
        requires
            lo == x % 65536,
            hi == x / 65536,
    ;
}

proof fn lemma_le64_bytes(x: int)
    requires
        0 <= x <= u64::MAX,
    ensures
        le64(le_bytes(x, 8), 0) == x,
{
    reveal_with_fuel(le_bytes, 9);
    let b = le_bytes(x, 8);
    let lo = x % 0x1_0000_0000;
    let hi = x / 0x1_0000_0000;
    assert(b.subrange(0, 4) =~= le_bytes(lo, 4)) by {
        lemma_le_bytes_prefix(x, lo);
    }
    assert(b.subrange(4, 8) =~= le_bytes(hi, 4)) by {
        lemma_le_bytes_shift(x, hi);
    }
    lemma_le32_bytes(lo);
    lemma_le32_bytes(hi);
    assert(lo + hi * 4294967296 == x) by (nonlinear_arith)
        requires
            lo == x % 0x1_0000_0000,
            hi == x / 0x1_0000_0000,
    ;
}

proof fn lemma_le_bytes_prefix(x: int, lo: int)
    requires
        x >= 0,
        lo == x % 0x1_0000_0000,
    ensures
        le_bytes(x, 8).subrange(0, 4) == le_bytes(lo, 4),
{
    reveal_with_fuel(le_bytes, 9);
    assert(x % 256 == lo % 256) by (nonlinear_arith)
        requires
            lo == x % 0x1_0000_0000,
            x >= 0,
    ;
    assert((x / 256) % 256 == (lo / 256) % 256) by (nonlinear_arith)
        requires
            lo == x % 0x1_0000_0000,
            x >= 0,
    ;
    assert((x / 256 / 256) % 256 == (lo / 256 / 256) % 256) by (nonlinear_arith)
        requires
            lo == x % 0x1_0000_0000,
            x >= 0,
    ;
    assert((x / 256 / 256 / 256) % 256 == (lo / 256 / 256 / 256) % 256) by (nonlinear_arith)
        requires
            lo == x % 0x1_0000_0000,
            x >= 0,
    ;
    assert(le_bytes(x, 8).subrange(0, 4) =~= le_bytes(lo, 4));
}

proof fn lemma_le_bytes_shift(x: int, hi: int)
    requires
        x >= 0,
        hi == x / 0x1_0000_0000,
    ensures
        le_bytes(x, 8).subrange(4, 8) == le_bytes(hi, 4),
{
    reveal_with_fuel(le_bytes, 9);
    assert(x / 256 / 256 / 256 / 256 == hi) by (nonlinear_arith)
        requires
            hi == x / 0x1_0000_0000,
            x >= 0,
    ;
    assert(le_bytes(x, 8).subrange(4, 8) =~= le_bytes(hi, 4));
}

/// Appends the `n`-byte little-endian encoding of `x`.
fn push_le(v: &mut Vec<u8>, x: u64, n: usize)
    requires
        n <= 8,
    ensures
        final(v)@ == old(v)@ + le_bytes(x as int, n as nat),
        final(v)@.len() == old(v)@.len() + n,
{
    proof {
        lemma_le_bytes_len(x as int, n as nat);
    }
    let mut y = x;
    let mut k: usize = 0;
    while k < n
        invariant
            k <= n,
            v@ + le_bytes(y as int, (n - k) as nat) == old(v)@ + le_bytes(x as int, n as nat),
        decreases n - k,
    {
        let ghost before = v@;
        v.push((y % 256) as u8);
        proof {
            assert(le_bytes(y as int, (n - k) as nat) == seq![(y % 256) as u8] + le_bytes(
                (y / 256) as int,
                (n - k - 1) as nat,
            ));
            assert(v@ + le_bytes((y / 256) as int, (n - k - 1) as nat) =~= before + le_bytes(
                y as int,
                (n - k) as nat,
            ));
        }
        y = y / 256;
        k = k + 1;
    }
    proof {
        assert(v@ + le_bytes(y as int, 0) =~= v@);
    }
}

/// The code of the test program: print a greeting (`DebugPrint`), get the
/// process ID, print a farewell, exit with 0, then loop; the two messages
/// follow. Each print's `lea rdi, [rip + d]` addresses its message: the
/// first (code offset 0x07, next instruction 0x0E, d = 0x37) the 34-byte
/// greeting at 0x45, the second (0x27, 0x2E, d = 0x39) the 23-byte farewell
/// at 0x67.
pub open spec fn test_elf_code() -> Seq<u8> {
    seq![
        0x48, 0xc7, 0xc0, 0xf0, 0x00, 0x00, 0x00, 0x48, 0x8d, 0x3d, 0x37, 0x00,
        0x00, 0x00, 0x48, 0xc7, 0xc6, 0x22, 0x00, 0x00, 0x00, 0x0f, 0x05, 0x48,
        0xc7, 0xc0, 0x22, 0x00, 0x00, 0x00, 0x0f, 0x05, 0x48, 0xc7, 0xc0, 0xf0,
        0x00, 0x00, 0x00, 0x48, 0x8d, 0x3d, 0x39, 0x00, 0x00, 0x00, 0x48, 0xc7,
        0xc6, 0x17, 0x00, 0x00, 0x00, 0x0f, 0x05, 0x48, 0xc7, 0xc0, 0x23, 0x00,
        0x00, 0x00, 0x48, 0x31, 0xff, 0x0f, 0x05, 0xeb, 0xfe, 0x49, 0x6e, 0x69,
        0x74, 0x3a, 0x20, 0x43, 0x61, 0x70, 0x61, 0x62, 0x69, 0x6c, 0x69, 0x74,
        0x79, 0x20, 0x6d, 0x61, 0x6e, 0x61, 0x67, 0x65, 0x72, 0x20, 0x73, 0x74,
        0x61, 0x72, 0x74, 0x65, 0x64, 0x21, 0x0a, 0x49, 0x6e, 0x69, 0x74, 0x3a,
        0x20, 0x45, 0x78, 0x69, 0x74, 0x69, 0x6e, 0x67, 0x20, 0x63, 0x6c, 0x65,
        0x61, 0x6e, 0x6c, 0x79, 0x21, 0x0a,
    ]
}

/// The program header of the test ELF: one loadable read/execute segment of
/// the code, at file offset 120, loaded at 0x400000.
pub open spec fn test_elf_phdr() -> Elf64ProgramHeader {
    Elf64ProgramHeader {
        p_type: PT_LOAD,
        p_flags: PF_R | PF_X,
        p_offset: 120,
        p_vaddr: 0x400000,
        p_paddr: 0x400000,
        p_filesz: 126,
        p_memsz: 126,
        p_align: 0x1000,
    }
}

proof fn lemma_field16(s: Seq<u8>, o: int, x: int)
    requires
        0 <= o,
        o + 2 <= s.len(),
        0 <= x < 0x10000,
        s.subrange(o, o + 2) == le_bytes(x, 2),
    ensures
        le16(s, o) == x,
{
    lemma_le16_bytes(x);
    assert(s[o] == s.subrange(o, o + 2)[0]);
    assert(s[o + 1] == s.subrange(o, o + 2)[1]);
}

proof fn lemma_field32(s: Seq<u8>, o: int, x: int)
    requires
        0 <= o,
        o + 4 <= s.len(),
        0 <= x < 0x1_0000_0000,
        s.subrange(o, o + 4) == le_bytes(x, 4),
    ensures
        le32(s, o) == x,
{
    lemma_le32_bytes(x);
    let t = s.subrange(o, o + 4);
    assert(s[o] == t[0] && s[o + 1] == t[1] && s[o + 2] == t[2] && s[o + 3] == t[3]);
}

proof fn lemma_field64(s: Seq<u8>, o: int, x: int)
    requires
        0 <= o,
        o + 8 <= s.len(),
        0 <= x <= u64::MAX,
        s.subrange(o, o + 8) == le_bytes(x, 8),
    ensures
        le64(s, o) == x,
{
    lemma_le64_bytes(x);
    let t = s.subrange(o, o + 8);
    assert(s[o] == t[0] && s[o + 1] == t[1] && s[o + 2] == t[2] && s[o + 3] == t[3]);
    assert(s[o + 4] == t[4] && s[o + 5] == t[5] && s[o + 6] == t[6] && s[o + 7] == t[7]);
}

/// Creates a minimal test ELF executable that makes exokernel system calls:
/// a valid x86_64 executable entered at 0x400000 with one program header,
/// followed by the code.
#[verifier::spinoff_prover]
#[verifier::rlimit(60)]
pub fn create_test_elf() -> (r: Vec<u8>)
    ensures
        r@.len() == 246,
        header_error(r@) is None,
        le16(r@, 16) == ET_EXEC,
        le64(r@, 24) == 0x400000,
        le64(r@, 32) == 64,
        le16(r@, 54) == PHDR_SIZE,
        le16(r@, 56) == 1,
        phdr_at(r@, 64, test_elf_phdr()),
        r@.subrange(120, 246) == test_elf_code(),
{
    let code: [u8; 126] = [
        0x48, 0xc7, 0xc0, 0xf0, 0x00, 0x00, 0x00, 0x48, 0x8d, 0x3d, 0x37, 0x00,
        0x00, 0x00, 0x48, 0xc7, 0xc6, 0x22, 0x00, 0x00, 0x00, 0x0f, 0x05, 0x48,
        0xc7, 0xc0, 0x22, 0x00, 0x00, 0x00, 0x0f, 0x05, 0x48, 0xc7, 0xc0, 0xf0,
        0x00, 0x00, 0x00, 0x48, 0x8d, 0x3d, 0x39, 0x00, 0x00, 0x00, 0x48, 0xc7,
        0xc6, 0x17, 0x00, 0x00, 0x00, 0x0f, 0x05, 0x48, 0xc7, 0xc0, 0x23, 0x00,
        0x00, 0x00, 0x48, 0x31, 0xff, 0x0f, 0x05, 0xeb, 0xfe, 0x49, 0x6e, 0x69,
        0x74, 0x3a, 0x20, 0x43, 0x61, 0x70, 0x61, 0x62, 0x69, 0x6c, 0x69, 0x74,
        0x79, 0x20, 0x6d, 0x61, 0x6e, 0x61, 0x67, 0x65, 0x72, 0x20, 0x73, 0x74,
        0x61, 0x72, 0x74, 0x65, 0x64, 0x21, 0x0a, 0x49, 0x6e, 0x69, 0x74, 0x3a,
        0x20, 0x45, 0x78, 0x69, 0x74, 0x69, 0x6e, 0x67, 0x20, 0x63, 0x6c, 0x65,
        0x61, 0x6e, 0x6c, 0x79, 0x21, 0x0a,
    ];
    let mut elf: Vec<u8> = Vec::new();
    elf.push(0x7f);
    elf.push(0x45);
    elf.push(0x4c);
    elf.push(0x46);
    elf.push(ELFCLASS64);
    elf.push(ELFDATA2LSB);
    elf.push(1);
    elf.push(0);
    let mut k: usize = 0;
    while k < 8
        invariant
            k <= 8,
            elf@ == elf_magic() + seq![ELFCLASS64, ELFDATA2LSB, 1u8, 0u8] + Seq::new(k as nat, |i: int| 0u8),
        decreases 8 - k,
    {
        elf.push(0);
        proof {
            assert(Seq::new((k + 1) as nat, |i: int| 0u8) =~= Seq::new(k as nat, |i: int| 0u8).push(0u8));
        }
        k = k + 1;
    }
    proof {
        assert(Seq::new(8, |i: int| 0u8) =~= seq![0u8, 0u8, 0u8, 0u8, 0u8, 0u8, 0u8, 0u8]);
    }
    let entry_point: u64 = 0x400000;
    let code_size: u64 = 126;
    proof {
        lemma_le_bytes_len(0, 2);
    }
    push_le(&mut elf, ET_EXEC as u64, 2);
    push_le(&mut elf, EM_X86_64 as u64, 2);
    push_le(&mut elf, 1, 4);
    push_le(&mut elf, entry_point, 8);
    push_le(&mut elf, 64, 8);
    push_le(&mut elf, 0, 8);
    push_le(&mut elf, 0, 4);
    push_le(&mut elf, 64, 2);
    push_le(&mut elf, 56, 2);
    push_le(&mut elf, 1, 2);
    push_le(&mut elf, 64, 2);
    push_le(&mut elf, 0, 2);
    push_le(&mut elf, 0, 2);
    push_le(&mut elf, PT_LOAD as u64, 4);
    push_le(&mut elf, (PF_R | PF_X) as u64, 4);
    push_le(&mut elf, 120, 8);
    push_le(&mut elf, entry_point, 8);
    push_le(&mut elf, entry_point, 8);
    push_le(&mut elf, code_size, 8);
    push_le(&mut elf, code_size, 8);
    push_le(&mut elf, 0x1000, 8);
    let ghost head = elf@;
    let mut i: usize = 0;
    while i < 126
        invariant
            i <= 126,
            code@ == test_elf_code(),
            elf@ == head + test_elf_code().take(i as int),
        decreases 126 - i,
    {
        elf.push(code[i]);
        proof {
            assert(test_elf_code().take(i + 1) =~= test_elf_code().take(i as int).push(code@[i as int]));
        }
        i = i + 1;
    }
    proof {
        assert(test_elf_code().take(126) =~= test_elf_code());
        let f = elf@;
        assert(f.len() == 246);
        assert(f.subrange(120, 246) =~= test_elf_code());
        assert(f.subrange(0, 4) =~= elf_magic());
        assert(f.subrange(16, 18) =~= le_bytes(ET_EXEC as int, 2));
        lemma_field16(f, 16, ET_EXEC as int);
        assert(f.subrange(18, 20) =~= le_bytes(EM_X86_64 as int, 2));
        lemma_field16(f, 18, EM_X86_64 as int);
        assert(f.subrange(24, 32) =~= le_bytes(0x400000, 8));
        lemma_field64(f, 24, 0x400000);
        assert(f.subrange(32, 40) =~= le_bytes(64, 8));
        lemma_field64(f, 32, 64);
        assert(f.subrange(54, 56) =~= le_bytes(56, 2));
        lemma_field16(f, 54, 56);
        assert(f.subrange(56, 58) =~= le_bytes(1, 2));
        lemma_field16(f, 56, 1);
        assert(f.subrange(64, 68) =~= le_bytes(PT_LOAD as int, 4));
        lemma_field32(f, 64, PT_LOAD as int);
        assert(f.subrange(68, 72) =~= le_bytes((PF_R | PF_X) as int, 4));
        lemma_field32(f, 68, (PF_R | PF_X) as int);
        assert(f.subrange(72, 80) =~= le_bytes(120, 8));
        lemma_field64(f, 72, 120);
        assert(f.subrange(80, 88) =~= le_bytes(0x400000, 8));
        lemma_field64(f, 80, 0x400000);
        assert(f.subrange(88, 96) =~= le_bytes(0x400000, 8));
        lemma_field64(f, 88, 0x400000);
        assert(f.subrange(96, 104) =~= le_bytes(126, 8));
        lemma_field64(f, 96, 126);
        assert(f.subrange(104, 112) =~= le_bytes(126, 8));
        lemma_field64(f, 104, 126);
        assert(f.subrange(112, 120) =~= le_bytes(0x1000, 8));
        lemma_field64(f, 112, 0x1000);
    }
    elf
}

} // verus!
