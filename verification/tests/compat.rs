use exokernel::kernel::syscall::compat::{
    compat_route, sys_brk, sys_debug_print_check, sys_getpid, sys_mmap, sys_read, sys_write_check, CompatCall,
    CompatState, BRK_BASE, EBADF, EFAULT, ENOMEM, ENOSYS, MAP_ANONYMOUS, MMAP_BASE, SYS_BRK, SYS_DEBUG_PRINT,
    SYS_EXIT, SYS_GETPID, SYS_MMAP, SYS_WRITE,
};

#[test]
fn compat_numbers_decode() {
    assert_eq!(compat_route(SYS_EXIT, 3, 0, 0, 0, 0), CompatCall::Exit(3));
    assert_eq!(compat_route(SYS_WRITE, 1, 0x1000, 5, 0, 0), CompatCall::Write { fd: 1, buf: 0x1000, count: 5 });
    assert_eq!(compat_route(SYS_BRK, 7, 0, 0, 0, 0), CompatCall::Brk(7));
    assert_eq!(
        compat_route(SYS_MMAP, 0, 100, 3, 0x22, u64::MAX),
        CompatCall::Mmap { addr: 0, length: 100, prot: 3, flags: 0x22, fd: -1 }
    );
    assert_eq!(compat_route(SYS_GETPID, 0, 0, 0, 0, 0), CompatCall::GetPid);
    assert_eq!(compat_route(SYS_DEBUG_PRINT, 8, 9, 0, 0, 0), CompatCall::DebugPrint { buf: 8, len: 9 });
    assert_eq!(compat_route(77, 0, 0, 0, 0, 0), CompatCall::Unknown(77));
}

#[test]
fn compat_write_and_read() {
    assert_eq!(sys_write_check(1, 0x1000, 12), Ok(12));
    assert_eq!(sys_write_check(2, 0x1000, 0), Ok(0));
    assert_eq!(sys_write_check(3, 0x1000, 12), Err(EBADF));
    assert_eq!(sys_write_check(1, 0x0000_8000_0000_0000, 12), Err(EFAULT));
    assert_eq!(sys_read(0), 0);
    assert_eq!(sys_read(1), EBADF);
    assert_eq!(sys_getpid(), 1);
    assert_eq!(sys_debug_print_check(0x2000, 4), Ok(4));
    assert_eq!(sys_debug_print_check(0xFFFF_8000_0000_0000, 4), Err(EFAULT));
}

#[test]
fn compat_brk_moves_within_its_window() {
    let mut st = CompatState::new();
    assert_eq!(sys_brk(&mut st, 0), BRK_BASE as i64);
    assert_eq!(sys_brk(&mut st, BRK_BASE + 0x5000), (BRK_BASE + 0x5000) as i64);
    assert_eq!(sys_brk(&mut st, 0), (BRK_BASE + 0x5000) as i64);
    assert_eq!(sys_brk(&mut st, 0x1000), ENOMEM);
    assert_eq!(sys_brk(&mut st, 0x0000_0020_0000_0000), ENOMEM);
    assert_eq!(st.brk, BRK_BASE + 0x5000);
}

#[test]
fn compat_mmap_places_anonymous_mappings() {
    let mut st = CompatState::new();
    assert_eq!(sys_mmap(&mut st, 0, 100, 3, MAP_ANONYMOUS, -1, 0), MMAP_BASE as i64);
    assert_eq!(st.mmap_next, MMAP_BASE + 0x1000);
    assert_eq!(sys_mmap(&mut st, 0, 0x2000, 3, 0, -1, 0), (MMAP_BASE + 0x1000) as i64);
    assert_eq!(st.mmap_next, MMAP_BASE + 0x3000);
    assert_eq!(sys_mmap(&mut st, 0x7000, 0x2000, 3, MAP_ANONYMOUS, -1, 0), 0x7000);
    assert_eq!(st.mmap_next, MMAP_BASE + 0x3000);
    assert_eq!(sys_mmap(&mut st, 0, 0x2000, 3, 0, 4, 0), ENOSYS);
}
