//! A Linux-flavoured set of system calls (read, write, brk, mmap, getpid,
//! exit) beside a debug print: which call a number names, and what each
//! answers. Reading and printing user buffers is done by the caller.
use vstd::prelude::*;
use crate::kernel::syscall::USER_SPACE_END;

verus! {

pub const SYS_READ: u64 = 0;
pub const SYS_WRITE: u64 = 1;
pub const SYS_OPEN: u64 = 2;
pub const SYS_CLOSE: u64 = 3;
pub const SYS_MMAP: u64 = 9;
pub const SYS_MUNMAP: u64 = 11;
pub const SYS_BRK: u64 = 12;
pub const SYS_EXIT: u64 = 60;
pub const SYS_GETPID: u64 = 39;
/// Debug print, for testing.
pub const SYS_DEBUG_PRINT: u64 = 1000;

/// Bad file descriptor.
pub const EBADF: i64 = -9;
/// Out of memory.
pub const ENOMEM: i64 = -12;
/// Bad address.
pub const EFAULT: i64 = -14;
/// Call not provided.
pub const ENOSYS: i64 = -38;
/// The answer to an unknown call number.
pub const UNKNOWN_CALL: i64 = -1;

/// Where the program break starts.
pub const BRK_BASE: u64 = 0x0000_0010_0000_0000;
/// The program break stays below this address.
pub const BRK_LIMIT: u64 = 0x0000_0020_0000_0000;
/// Where anonymous mappings are placed from.
pub const MMAP_BASE: u64 = 0x0000_0030_0000_0000;
/// The anonymous-mapping flag of `mmap`.
pub const MAP_ANONYMOUS: i32 = 0x20;

/// The program break and the next free anonymous-mapping address.
#[derive(Debug, Clone, Copy, PartialEq, Eq, Structural)]
pub struct CompatState {
    pub brk: u64,
    pub mmap_next: u64,
}

impl CompatState {
    /// The break at its base, mappings from their base.
    pub fn new() -> (r: CompatState)
        ensures
            r == (CompatState { brk: BRK_BASE, mmap_next: MMAP_BASE }),
    {
        CompatState { brk: BRK_BASE, mmap_next: MMAP_BASE }
    }
}

/// A call of this set, with its arguments.
#[derive(Debug, Clone, Copy, PartialEq, Eq, Structural)]
pub enum CompatCall {
    Exit(i32),
    Write { fd: u64, buf: u64, count: u64 },
    Read { fd: u64, buf: u64, count: u64 },
    Brk(u64),
    Mmap { addr: u64, length: u64, prot: i32, flags: i32, fd: i32 },
    GetPid,
    DebugPrint { buf: u64, len: u64 },
    Unknown(u64),
}

/// The call that number `number` with arguments `a1`..`a5` makes.
pub open spec fn compat_call_of(number: u64, a1: u64, a2: u64, a3: u64, a4: u64, a5: u64) -> CompatCall {
    if number == SYS_EXIT {
        CompatCall::Exit(a1 as i32)
    } else if number == SYS_WRITE {
        CompatCall::Write { fd: a1, buf: a2, count: a3 }
    } else if number == SYS_READ {
        CompatCall::Read { fd: a1, buf: a2, count: a3 }
    } else if number == SYS_BRK {
        CompatCall::Brk(a1)
    } else if number == SYS_MMAP {
        CompatCall::Mmap { addr: a1, length: a2, prot: a3 as i32, flags: a4 as i32, fd: a5 as i32 }
    } else if number == SYS_GETPID {
        CompatCall::GetPid
    } else if number == SYS_DEBUG_PRINT {
        CompatCall::DebugPrint { buf: a1, len: a2 }
    } else {
        CompatCall::Unknown(number)
    }
}

/// Decodes a call: its number and arguments.
pub fn compat_route(number: u64, a1: u64, a2: u64, a3: u64, a4: u64, a5: u64) -> (r: CompatCall)
    ensures
        r == compat_call_of(number, a1, a2, a3, a4, a5),
{
    if number == SYS_EXIT {
        CompatCall::Exit(a1 as i32)
    } else if number == SYS_WRITE {
        CompatCall::Write { fd: a1, buf: a2, count: a3 }
    } else if number == SYS_READ {
        CompatCall::Read { fd: a1, buf: a2, count: a3 }
    } else if number == SYS_BRK {
        CompatCall::Brk(a1)
    } else if number == SYS_MMAP {
        CompatCall::Mmap { addr: a1, length: a2, prot: a3 as i32, flags: a4 as i32, fd: a5 as i32 }
    } else if number == SYS_GETPID {
        CompatCall::GetPid
    } else if number == SYS_DEBUG_PRINT {
        CompatCall::DebugPrint { buf: a1, len: a2 }
    } else {
        CompatCall::Unknown(number)
    }
}

/// Checks a write of `count` bytes at `buf` to `fd`: only standard output
/// and standard error, from a user address. On success the bytes up to the
/// first NUL are printed and `count` is answered.
pub fn sys_write_check(fd: u64, buf: u64, count: u64) -> (r: Result<i64, i64>)
    ensures
        r == if fd != 1 && fd != 2 {
            Err::<i64, i64>(EBADF)
        } else if buf >= USER_SPACE_END {
            Err::<i64, i64>(EFAULT)
        } else {
            Ok::<i64, i64>(count as i64)
        },
{
    if fd != 1 && fd != 2 {
        return Err(EBADF);
    }
    if buf >= USER_SPACE_END {
        return Err(EFAULT);
    }
    Ok(count as i64)
}

/// Reads from `fd`: only standard input, which has nothing to give yet.
pub fn sys_read(fd: u64) -> (r: i64)
    ensures
        r == if fd != 0 {
            EBADF
        } else {
            0
        },
{
    if fd != 0 {
        return EBADF;
    }
    0
}

/// Moves the program break: 0 asks for the current break; an address from
/// `BRK_BASE` up to (not including) `BRK_LIMIT` becomes the break and is
/// answered; any other address answers `ENOMEM`, the break unchanged.
pub fn sys_brk(state: &mut CompatState, addr: u64) -> (r: i64)
    ensures
        addr == 0 ==> r == old(state).brk as i64 && *final(state) == *old(state),
        addr != 0 && BRK_BASE <= addr < BRK_LIMIT ==> r == addr as i64 && *final(state) == (CompatState {
            brk: addr,
            ..*old(state)
        }),
        addr != 0 && !(BRK_BASE <= addr < BRK_LIMIT) ==> r == ENOMEM && *final(state) == *old(state),
{
    if addr == 0 {
        state.brk as i64
    } else if addr >= BRK_BASE && addr < BRK_LIMIT {
        state.brk = addr;
        addr as i64
    } else {
        ENOMEM
    }
}

/// The length of a mapping rounded up to whole pages.
pub open spec fn page_rounded(length: u64) -> int {
    ((length + 0xFFF) as u64 & !0xFFFu64) as int
}

/// Maps anonymous memory: a file-backed mapping (no `MAP_ANONYMOUS` and a
/// descriptor other than -1) answers `ENOSYS`. At address 0 the mapping is
/// placed at the next free address, which moves on by the page-rounded
/// length; otherwise `addr` is answered as it is.
pub fn sys_mmap(state: &mut CompatState, addr: u64, length: u64, prot: i32, flags: i32, fd: i32, offset: u64) -> (r:
    i64)
    requires
        length + 0xFFF <= u64::MAX,
        (flags & MAP_ANONYMOUS != 0 || fd == -1) && addr == 0 ==> old(state).mmap_next + page_rounded(length)
            <= u64::MAX,
    ensures
        flags & MAP_ANONYMOUS == 0 && fd != -1 ==> r == ENOSYS && *final(state) == *old(state),
        (flags & MAP_ANONYMOUS != 0 || fd == -1) && addr == 0 ==> r == old(state).mmap_next as i64
            && *final(state) == (CompatState {
            mmap_next: (old(state).mmap_next + page_rounded(length)) as u64,
            ..*old(state)
        }),
        (flags & MAP_ANONYMOUS != 0 || fd == -1) && addr != 0 ==> r == addr as i64 && *final(state)
            == *old(state),
{
    if flags & MAP_ANONYMOUS == 0 && fd != -1 {
        return ENOSYS;
    }
    let result = if addr == 0 {
        let region = state.mmap_next;
        state.mmap_next = state.mmap_next + ((length + 0xFFF) & !0xFFF);
        region
    } else {
        addr
    };
    result as i64
}

/// The caller's process ID, as this set reports it.
pub fn sys_getpid() -> (r: i64)
    ensures
        r == 1,
{
    1
}

/// Checks a debug print of `len` bytes at `buf`: the buffer must be a user
/// address; on success the bytes up to the first NUL are printed after a
/// "[USER] " prefix and `len` is answered.
pub fn sys_debug_print_check(buf: u64, len: u64) -> (r: Result<i64, i64>)
    ensures
        r == if buf >= USER_SPACE_END {
            Err::<i64, i64>(EFAULT)
        } else {
            Ok::<i64, i64>(len as i64)
        },
{
    if buf >= USER_SPACE_END {
        return Err(EFAULT);
    }
    Ok(len as i64)
}

} // verus!
