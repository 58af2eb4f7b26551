//! The exokernel's system calls.
//!
//! The interface is minimal: capability management, memory binding,
//! process/CPU management, IPC and I/O binding. Each call works on the kernel
//! state it is handed and answers a `Result<i64, SysError>`, which the
//! dispatcher turns into the value returned to user space.
pub mod caps;
pub mod compat;
pub mod io;
pub mod ipc;
pub mod memory;
pub mod process;

use vstd::prelude::*;
use crate::kernel::process::ProcessTable;
use crate::shared::syscall::{syscall_from_number, Syscall};
use crate::shared::error::{error_code, SysError};

verus! {

/// First address above user space (canonical lower half).
pub const USER_SPACE_END: u64 = 0x0000_8000_0000_0000;

/// The process making a call: the current one, or the kernel (PID 0) when
/// there is none.
pub open spec fn caller(t: &ProcessTable) -> u64 {
    match t.current_proc() {
        Some(p) => p.pid.0,
        None => 0,
    }
}

/// The value a call's result gives back in `rax`: the value itself on
/// success, the (negative) error code on failure.
pub open spec fn result_value(r: Result<i64, SysError>) -> i64 {
    match r {
        Ok(v) => v,
        Err(e) => error_code(e),
    }
}

/// Encodes a call's result as the value returned to user space.
pub fn encode_result(r: Result<i64, SysError>) -> (v: i64)
    ensures
        v == result_value(r),
{
    match r {
        Ok(val) => val,
        Err(e) => e.as_code(),
    }
}

/// Where a system call goes.
#[derive(Debug, Clone, Copy, PartialEq, Eq, Structural)]
pub enum Route {
    /// One of the kernel's own calls.
    Kernel(Syscall),
    /// An unknown call, forwarded to the caller's user-space handler at this
    /// address.
    Forward(u64),
    /// An unknown call with no handler: answered `InvalidSyscall`.
    Unknown,
}

/// Routes call number `num` of a caller whose unknown-call handler is
/// `handler`: the kernel's calls go to the kernel; any other number goes to
/// the handler when there is one.
pub fn route(num: u64, handler: Option<u64>) -> (r: Route)
    ensures
        r == match syscall_from_number(num) {
            Some(s) => Route::Kernel(s),
            None => match handler {
                Some(h) => Route::Forward(h),
                None => Route::Unknown,
            },
        },
{
    match Syscall::from_num(num) {
        Some(s) => Route::Kernel(s),
        None => match handler {
            Some(h) => Route::Forward(h),
            None => Route::Unknown,
        },
    }
}

/// The caller's handler for unknown calls, if it registered one.
pub fn forward_handler(procs: &ProcessTable) -> (r: Option<u64>)
    requires
        procs.wf(),
    ensures
        r == match procs.current_proc() {
            Some(p) => p.syscall_handler,
            None => None::<u64>,
        },
{
    match procs.current() {
        Some(p) => p.syscall_handler,
        None => None,
    }
}

/// Checks a debug print (args: buffer address, length): the buffer must lie
/// in user space. Gives the length, which the call answers.
pub fn sys_debug_print_check(buf_ptr: u64, len: u64) -> (r: Result<u64, SysError>)
    ensures
        r == if buf_ptr >= USER_SPACE_END {
            Err(SysError::BadAddress)
        } else {
            Ok(len)
        },
{
    if buf_ptr >= USER_SPACE_END {
        return Err(SysError::BadAddress);
    }
    Ok(len)
}

/// Position of the first NUL byte of `s`, or its length when there is none.
pub open spec fn nul_position(s: Seq<u8>) -> int
    decreases s.len(),
{
    if s.len() == 0 {
        0
    } else if s[0] == 0 {
        0
    } else {
        1 + nul_position(s.drop_first())
    }
}

/// The text a debug print shows: the bytes before the first NUL.
pub fn debug_text(bytes: &[u8]) -> (r: Vec<u8>)
    ensures
        r@ == bytes@.take(nul_position(bytes@)),
{
    let mut out: Vec<u8> = Vec::new();
    let mut i: usize = 0;
    while i < bytes.len() && bytes[i] != 0
        invariant
            i <= bytes@.len(),
            out@ == bytes@.take(i as int),
            forall|k: int| 0 <= k < i ==> bytes@[k] != 0,
        decreases bytes@.len() - i,
    {
        out.push(bytes[i]);
        proof {
            assert(bytes@.take(i + 1) =~= bytes@.take(i as int).push(bytes@[i as int]));
        }
        i = i + 1;
    }
    proof {
        lemma_nul_position(bytes@, i as int);
    }
    out
}

proof fn lemma_nul_position(s: Seq<u8>, i: int)
    requires
        0 <= i <= s.len(),
        forall|k: int| 0 <= k < i ==> s[k] != 0,
        i == s.len() || s[i] == 0,
    ensures
        nul_position(s) == i,
    decreases i,
{
    if i > 0 {
        lemma_nul_position(s.drop_first(), i - 1);
    }
}

} // verus!
