use exokernel::kernel::elf::{
    create_test_elf, get_program_headers, load_elf, parse_header, process_relocations, segment_copy, segment_pages,
    setup_user_stack, vaddr_to_file_offset, CopyPlan, Elf64ProgramHeader, ElfError, SegmentPages, PT_DYNAMIC,
    PT_LOAD, USER_STACK_TOP,
};
use exokernel::kernel::syscall::memory::{PTE_PRESENT, PTE_USER_ACCESSIBLE, PTE_WRITABLE};

fn put(v: &mut Vec<u8>, off: usize, bytes: &[u8]) {
    if v.len() < off + bytes.len() {
        v.resize(off + bytes.len(), 0);
    }
    v[off..off + bytes.len()].copy_from_slice(bytes);
}

fn phdr(p_type: u32, flags: u32, offset: u64, vaddr: u64, filesz: u64, memsz: u64) -> Elf64ProgramHeader {
    Elf64ProgramHeader {
        p_type,
        p_flags: flags,
        p_offset: offset,
        p_vaddr: vaddr,
        p_paddr: vaddr,
        p_filesz: filesz,
        p_memsz: memsz,
        p_align: 0x1000,
    }
}

/// A position-independent image with one loadable segment, a dynamic table
/// and two relocations (one relative, one not).
fn pie_image() -> Vec<u8> {
    let mut v = create_test_elf();
    put(&mut v, 16, &3u16.to_le_bytes());
    put(&mut v, 56, &2u16.to_le_bytes());
    // second program header at 120: PT_DYNAMIC, file offset 0x200, 48 bytes
    let mut ph = Vec::new();
    ph.extend_from_slice(&PT_DYNAMIC.to_le_bytes());
    ph.extend_from_slice(&6u32.to_le_bytes());
    ph.extend_from_slice(&0x200u64.to_le_bytes());
    ph.extend_from_slice(&0x200u64.to_le_bytes());
    ph.extend_from_slice(&0x200u64.to_le_bytes());
    ph.extend_from_slice(&48u64.to_le_bytes());
    ph.extend_from_slice(&48u64.to_le_bytes());
    ph.extend_from_slice(&8u64.to_le_bytes());
    put(&mut v, 120, &ph);
    // loadable segment 0 now covers file offset 0x300.. at vaddr 0x400000
    let mut load = Vec::new();
    load.extend_from_slice(&PT_LOAD.to_le_bytes());
    load.extend_from_slice(&5u32.to_le_bytes());
    load.extend_from_slice(&0x300u64.to_le_bytes());
    load.extend_from_slice(&0x400000u64.to_le_bytes());
    load.extend_from_slice(&0x400000u64.to_le_bytes());
    load.extend_from_slice(&0x100u64.to_le_bytes());
    load.extend_from_slice(&0x100u64.to_le_bytes());
    load.extend_from_slice(&0x1000u64.to_le_bytes());
    put(&mut v, 64, &load);
    // dynamic table: RELA = 0x400010, RELASZ = 48, RELAENT = 24, NULL
    let mut dynamic = Vec::new();
    for (tag, val) in [(7u64, 0x400010u64), (8, 48), (9, 24), (0, 0)] {
        dynamic.extend_from_slice(&tag.to_le_bytes());
        dynamic.extend_from_slice(&val.to_le_bytes());
    }
    put(&mut v, 0x200, &dynamic[..48]);
    put(&mut v, 0x230, &dynamic[48..]);
    // relocations at file offset 0x310
    let mut rela = Vec::new();
    rela.extend_from_slice(&0x400100u64.to_le_bytes());
    rela.extend_from_slice(&8u64.to_le_bytes());
    rela.extend_from_slice(&0x1234i64.to_le_bytes());
    rela.extend_from_slice(&0x400108u64.to_le_bytes());
    rela.extend_from_slice(&6u64.to_le_bytes());
    rela.extend_from_slice(&0x99i64.to_le_bytes());
    put(&mut v, 0x310, &rela);
    v.resize(0x400, 0);
    v
}

#[test]
fn test_elf_parses_as_an_executable() {
    let elf = create_test_elf();
    assert_eq!(elf.len(), 246);
    let h = parse_header(&elf).unwrap();
    assert_eq!(h.e_type, 2);
    assert_eq!(h.e_entry, 0x400000);
    let phdrs = get_program_headers(&elf, &h).unwrap();
    assert_eq!(phdrs, vec![phdr(PT_LOAD, 5, 120, 0x400000, 126, 126)]);
    assert_eq!(&elf[0..4], &[0x7f, b'E', b'L', b'F']);
    let image = load_elf(&elf).unwrap();
    assert_eq!(image.entry_point, 0x400000);
    assert!(!image.position_independent);
    assert_eq!(process_relocations(&elf, &image.phdrs).unwrap(), vec![]);
}

#[test]
fn test_elf_messages_are_addressed_by_their_prints() {
    let elf = create_test_elf();
    // first print: lea at code 0x07, next instruction at 0x0E, message 1 at 0x45
    assert_eq!(elf[130], 0x37);
    assert_eq!(0x0E + elf[130] as usize, 0x45);
    assert_eq!(&elf[120 + 0x45..120 + 0x45 + 34], b"Init: Capability manager started!\n");
    // second print: lea at code 0x27, next instruction at 0x2E, message 2 at 0x67
    assert_eq!(elf[162], 0x39);
    assert_eq!(0x2E + elf[162] as usize, 0x67);
    assert_eq!(&elf[223..246], b"Init: Exiting cleanly!\n");
}

#[test]
fn header_errors() {
    let good = create_test_elf();
    assert_eq!(parse_header(&good[..63]).unwrap_err(), ElfError::InvalidMagic);
    let mut v = good.clone();
    v[1] = b'X';
    assert_eq!(parse_header(&v).unwrap_err(), ElfError::InvalidMagic);
    let mut v = good.clone();
    v[4] = 1;
    assert_eq!(parse_header(&v).unwrap_err(), ElfError::InvalidClass);
    let mut v = good.clone();
    v[5] = 2;
    assert_eq!(parse_header(&v).unwrap_err(), ElfError::InvalidEndianness);
    let mut v = good.clone();
    v[16] = 1;
    assert_eq!(parse_header(&v).unwrap_err(), ElfError::InvalidType);
    let mut v = good.clone();
    v[18] = 3;
    assert_eq!(parse_header(&v).unwrap_err(), ElfError::InvalidMachine);
    let mut v = good.clone();
    v[56] = 9;
    let h = parse_header(&v).unwrap();
    assert_eq!(get_program_headers(&v, &h).unwrap_err(), ElfError::InvalidProgramHeader);
    assert_eq!(load_elf(&v).err(), Some(ElfError::InvalidProgramHeader));
}

#[test]
fn relocations_of_a_position_independent_image() {
    let v = pie_image();
    let image = load_elf(&v).unwrap();
    assert!(image.position_independent);
    assert_eq!(image.phdrs.len(), 2);
    assert_eq!(vaddr_to_file_offset(0x400010, &image.phdrs), Some(0x310));
    assert_eq!(vaddr_to_file_offset(0x400100, &image.phdrs), None);
    assert_eq!(process_relocations(&v, &image.phdrs).unwrap(), vec![(0x400100, 0x1234)]);
}

#[test]
fn relocation_table_outside_the_segments_is_refused() {
    let mut v = pie_image();
    put(&mut v, 0x208, &0x900000u64.to_le_bytes());
    let image = load_elf(&v).unwrap();
    assert_eq!(process_relocations(&v, &image.phdrs).unwrap_err(), ElfError::InvalidProgramHeader);
}

#[test]
fn segment_pages_and_copies() {
    let p = phdr(PT_LOAD, 6, 0x100, 0x400800, 0x1000, 0x2000);
    assert_eq!(
        segment_pages(&p).unwrap(),
        SegmentPages { first_page: 0x400000, page_count: 3, flags: PTE_PRESENT | PTE_USER_ACCESSIBLE | PTE_WRITABLE }
    );
    assert_eq!(segment_copy(&p, 0x400000, 0x2000), Some(CopyPlan { src_offset: 0x100, dst_offset: 0x800, len: 0x800 }));
    assert_eq!(segment_copy(&p, 0x401000, 0x2000), Some(CopyPlan { src_offset: 0x900, dst_offset: 0, len: 0x800 }));
    assert_eq!(segment_copy(&p, 0x402000, 0x2000), None);
    assert_eq!(segment_copy(&p, 0x401000, 0x1000), None);
    let empty = phdr(PT_LOAD, 4, 0, 0x1000, 0, 0);
    assert_eq!(segment_pages(&empty).unwrap().page_count, 0);
    let huge = phdr(PT_LOAD, 4, 0, u64::MAX - 10, 0, 100);
    assert_eq!(segment_pages(&huge).unwrap_err(), ElfError::InvalidProgramHeader);
    let noncanonical = phdr(PT_LOAD, 4, 0, 0x0000_9000_0000_0000, 0, 16);
    assert_eq!(segment_pages(&noncanonical).unwrap_err(), ElfError::InvalidProgramHeader);
}

#[test]
fn user_stack_plan() {
    let s = setup_user_stack();
    assert_eq!(s.top, USER_STACK_TOP);
    assert_eq!(s.page_count, 16);
    assert_eq!(s.first_page, USER_STACK_TOP - 0x10000);
}
