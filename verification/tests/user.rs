use exokernel::kernel::elf::create_test_elf;
use exokernel::shared::caps::CapabilityHandle;
use exokernel::shared::error::SysError;
use exokernel::user::elf::{load_elf, parse_elf, segment_load, spawn_stack, ElfError, SegmentLoad, DEFAULT_STACK_TOP};
use exokernel::user::mem::flags;
use exokernel::user::mem::{align_down, align_up, is_aligned, AllocStep, BumpAllocator, PAGE_SIZE};
use exokernel::user::process::{Process, SpawnError};
use exokernel::user::syscall::{decode_handle, decode_len, decode_pid, decode_port_value, decode_unit, decode_value};

#[test]
fn alignment_helpers() {
    assert_eq!(align_up(0, 4096), 0);
    assert_eq!(align_up(1, 4096), 4096);
    assert_eq!(align_up(4096, 4096), 4096);
    assert_eq!(align_up(13, 8), 16);
    assert_eq!(align_down(4097, 4096), 4096);
    assert_eq!(align_down(7, 8), 0);
    assert!(is_aligned(8192, 4096));
    assert!(!is_aligned(8193, 2));
    assert_eq!(align_up(5, 1), 5);
}

#[test]
fn bump_allocator_grows_then_hands_out_memory() {
    let mut a = BumpAllocator::new();
    a.init(0x1000_0000);
    assert_eq!(a.stats(), (0, 0));
    assert_eq!(a.try_alloc(100, 8), Ok(AllocStep::Grow { pages: 1, map_at: 0x1000_0000 }));
    a.grown(1);
    assert_eq!(a.try_alloc(100, 8), Ok(AllocStep::Ready(0x1000_0000)));
    assert_eq!(a.try_alloc(10, 16), Ok(AllocStep::Ready(0x1000_0070)));
    assert_eq!(a.stats(), (110, 4096));
    assert_eq!(a.try_alloc(8000, 8), Ok(AllocStep::Grow { pages: 1, map_at: 0x1000_1000 }));
    a.grown(1);
    assert_eq!(a.try_alloc(8000, 8), Ok(AllocStep::Ready(0x1000_0080)));
    assert_eq!(a.stats(), (8110, 2 * PAGE_SIZE));
}

#[test]
fn bump_allocator_refuses_what_overflows() {
    let mut a = BumpAllocator::new();
    a.init(u64::MAX - 10);
    assert_eq!(a.try_alloc(100, 1), Err(SysError::OutOfMemory));
}

#[test]
fn user_elf_parsing_and_segments() {
    let elf = create_test_elf();
    let info = parse_elf(&elf).unwrap();
    assert_eq!(info.entry_point, 0x400000);
    assert_eq!(info.program_headers.len(), 1);
    let loads = load_elf(&info, elf.len()).unwrap();
    assert_eq!(
        loads,
        vec![SegmentLoad {
            aligned_vaddr: 0x400000,
            num_pages: 1,
            flags: flags::USER | flags::READ | flags::EXECUTE,
            vaddr: 0x400000,
            file_offset: 120,
            file_size: 126,
            bss_start: 0x400000 + 126,
            bss_size: 0,
        }]
    );
    let mut p = info.program_headers[0];
    p.p_memsz = 0x2000;
    p.p_vaddr = 0x400f00;
    let l = segment_load(&p, elf.len()).unwrap();
    assert_eq!((l.aligned_vaddr, l.num_pages, l.bss_start, l.bss_size), (0x400000, 3, 0x400f00 + 126, 0x2000 - 126));
    p.p_offset = 200;
    assert_eq!(segment_load(&p, elf.len()), Err(ElfError::LoadFailed));
}

#[test]
fn user_elf_errors() {
    let elf = create_test_elf();
    assert_eq!(parse_elf(&elf[..10]).err(), Some(ElfError::TooSmall));
    let mut v = elf.clone();
    v[0] = 0;
    assert_eq!(parse_elf(&v).err(), Some(ElfError::BadMagic));
    let mut v = elf.clone();
    v[4] = 1;
    assert_eq!(parse_elf(&v).err(), Some(ElfError::Not64Bit));
    let mut v = elf.clone();
    v[5] = 2;
    assert_eq!(parse_elf(&v).err(), Some(ElfError::BadEndian));
    let mut v = elf.clone();
    v[16] = 3;
    assert_eq!(parse_elf(&v).err(), Some(ElfError::NotExecutable));
    let mut v = elf.clone();
    v[18] = 0;
    assert_eq!(parse_elf(&v).err(), Some(ElfError::WrongArch));
    let mut v = elf.clone();
    v[56] = 5;
    assert_eq!(parse_elf(&v).err(), Some(ElfError::BadProgramHeaders));
    let mut v = elf.clone();
    v[64] = 2;
    let info = parse_elf(&v).unwrap();
    assert_eq!(load_elf(&info, v.len()), Err(ElfError::BadProgramHeaders));
}

#[test]
fn spawn_stack_sits_below_the_default_top() {
    assert_eq!(spawn_stack(), (DEFAULT_STACK_TOP - 0x10000, 16, DEFAULT_STACK_TOP));
}

#[test]
fn syscall_results_are_decoded() {
    assert_eq!(decode_handle(5), Ok(CapabilityHandle(5)));
    assert_eq!(decode_handle(-1), Err(SysError::InvalidCapability));
    assert_eq!(decode_unit(0), Ok(()));
    assert_eq!(decode_unit(-12), Err(SysError::CapabilityTableFull));
    assert_eq!(decode_value(0x1000), Ok(0x1000));
    assert_eq!(decode_port_value(0x1_0000_00ff), Ok(0xff));
    assert_eq!(decode_len(7), Ok(7));
    assert_eq!(decode_pid(3), 3);
}

#[test]
fn process_handles_and_spawn_errors() {
    let p = Process::from_cap(CapabilityHandle(4));
    assert_eq!(p.cap(), CapabilityHandle(4));
    assert_eq!(SpawnError::from(ElfError::TooSmall), SpawnError::Elf(ElfError::TooSmall));
    assert_eq!(SpawnError::from(SysError::NotFound), SpawnError::Sys(SysError::NotFound));
}
