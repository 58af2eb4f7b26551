//! Process system calls.
//!
//! Process creation is minimal: the kernel makes an empty process and a
//! capability to it; the parent maps memory into it, loads the binary (in
//! user space) and starts it.
use vstd::prelude::*;
use crate::kernel::caps::{create_root_cap, validate, GlobalCapTable};
use crate::kernel::process::scheduler::{schedule_step, start_process, yield_now, SchedulerState};
use crate::kernel::process::{
    created, current_pid, initial_context_set, pid_index, Process, ProcessId, ProcessState, ProcessTable,
    wrapping_next,
};
use crate::kernel::process::context::Context;
use crate::kernel::syscall::{caller, USER_SPACE_END};
use crate::shared::caps::{CapabilityHandle, ResourceDescriptor, ResourceType, Rights};
use crate::shared::error::SysError;

verus! {

/// Creates a process (args: entry point, stack top, flags; a zero address is
/// set later) and gives the caller a capability to it (read, write, kill,
/// suspend, resume). Nonzero addresses must lie in user space.
pub fn sys_process_create(
    procs: &mut ProcessTable,
    caps: &mut GlobalCapTable,
    entry_point: u64,
    stack_top: u64,
    flags: u64,
) -> (r: Result<i64, SysError>)
    requires
        old(procs).wf(),
        old(caps).wf(),
    ensures
        final(procs).wf(),
        final(caps).wf(),
        final(procs).current_index() == old(procs).current_index(),
        old(procs).ids_fresh() && old(procs).next_id() < u64::MAX ==> final(procs).ids_fresh(),
        if (entry_point != 0 && entry_point >= USER_SPACE_END) || (stack_top != 0 && stack_top
            >= USER_SPACE_END) {
            r == Err::<i64, SysError>(SysError::BadAddress) && *final(procs) == *old(procs)
                && GlobalCapTable::same(old(caps), final(caps))
        } else {
            let pid = old(procs).next_id();
            &&& final(procs).next_id() == wrapping_next(pid)
            &&& exists|mid: Seq<Process>|
                created(old(procs).procs(), mid, pid, "child") && final(procs).procs() == if entry_point
                    != 0 || stack_top != 0 {
                    initial_context_set(mid, ProcessId(pid), entry_point, stack_top)
                } else {
                    mid
                }
            &&& old(caps).free_list().len() == 0 ==> r == Err::<i64, SysError>(
                SysError::CapabilityTableFull,
            ) && GlobalCapTable::same(old(caps), final(caps))
            &&& old(caps).free_list().len() > 0 ==> r == Ok::<i64, SysError>(
                old(caps).free_list().last() as i64,
            ) && GlobalCapTable::placed(
                old(caps),
                final(caps),
                old(caps).new_cap(
                    ResourceDescriptor { resource_type: ResourceType::Process, base: pid, size: 1 },
                    Rights(Rights::READ | Rights::WRITE | Rights::KILL | Rights::SUSPEND | Rights::RESUME),
                    CapabilityHandle(0),
                    caller(old(procs)),
                ),
                CapabilityHandle(old(caps).free_list().last() as u64),
            )
        },
{
    let parent_pid = current_pid(procs);
    if entry_point != 0 && entry_point >= USER_SPACE_END {
        return Err(SysError::BadAddress);
    }
    if stack_top != 0 && stack_top >= USER_SPACE_END {
        return Err(SysError::BadAddress);
    }
    let new_pid = match procs.create_process("child") {
        Some(p) => p,
        None => return Err(SysError::OutOfMemory),
    };
    let ghost mid = procs.procs();
    if entry_point != 0 || stack_top != 0 {
        procs.set_initial_context(new_pid, entry_point, stack_top);
    }
    let resource = ResourceDescriptor::process(new_pid.as_u64());
    let rights = Rights(Rights::READ | Rights::WRITE | Rights::KILL | Rights::SUSPEND | Rights::RESUME);
    let result = match create_root_cap(caps, resource, rights, parent_pid.as_u64()) {
        Ok(h) => Ok(h.as_raw() as i64),
        Err(e) => Err(e),
    };
    proof {
        assert(created(old(procs).procs(), mid, old(procs).next_id(), "child"));
    }
    result
}

/// Destroying a process: not provided.
pub fn sys_process_destroy(process_cap: u64) -> (r: Result<i64, SysError>)
    ensures
        r == Err::<i64, SysError>(SysError::NotPermitted),
{
    Err(SysError::NotPermitted)
}

/// Why starting the process named by `process_cap` is refused, or its PID.
pub open spec fn start_target(caps: &GlobalCapTable, pid: u64, process_cap: u64, entry_point: u64, stack_top: u64) -> Result<u64, SysError> {
    match caps.validate_result(CapabilityHandle(process_cap), pid, Rights(Rights::WRITE)) {
        Err(e) => Err(e),
        Ok(cap) => if cap.resource.resource_type != ResourceType::Process {
            Err(SysError::InvalidArgument)
        } else if entry_point >= USER_SPACE_END || stack_top >= USER_SPACE_END {
            Err(SysError::BadAddress)
        } else {
            Ok(cap.resource.base)
        },
    }
}

/// Starts a created process (args: process capability with WRITE, entry
/// point, stack top): it gets a user-mode context at those addresses with
/// interrupts enabled, becomes ready and joins the scheduler.
pub fn sys_process_start(
    procs: &mut ProcessTable,
    sched: &mut SchedulerState,
    caps: &GlobalCapTable,
    process_cap: u64,
    entry_point: u64,
    stack_top: u64,
) -> (r: Result<i64, SysError>)
    requires
        old(procs).wf(),
        caps.wf(),
    ensures
        final(procs).wf(),
        final(procs).current_index() == old(procs).current_index(),
        final(procs).next_id() == old(procs).next_id(),
        match start_target(caps, caller(old(procs)), process_cap, entry_point, stack_top) {
            Err(e) => r == Err::<i64, SysError>(e) && *final(procs) == *old(procs) && *final(sched)
                == *old(sched),
            Ok(target) => match pid_index(old(procs).procs(), ProcessId(target)) {
                None => r == Err::<i64, SysError>(SysError::ProcessNotFound) && *final(procs) == *old(procs)
                    && *final(sched) == *old(sched),
                Some(i) => {
                    let p = old(procs).procs()[i];
                    let ctx = Context {
                        rip: entry_point,
                        rsp: stack_top,
                        rflags: 0x202,
                        cs: 0x23,
                        ss: 0x1b,
                        ..p.context
                    };
                    &&& r == Ok::<i64, SysError>(0)
                    &&& final(procs).procs() == old(procs).procs().update(
                        i,
                        Process { context: ctx, state: ProcessState::Ready, ..p },
                    )
                    &&& final(sched).queue() == old(sched).queue().push(ProcessId(target))
                    &&& final(sched).ticks() == 10
                },
            },
        },
{
    let caller_pid = current_pid(procs);
    let cap = match validate(caps, CapabilityHandle::from_raw(process_cap), caller_pid.as_u64(), Rights(Rights::WRITE)) {
        Ok(c) => c,
        Err(e) => return Err(e),
    };
    match cap.resource.resource_type {
        ResourceType::Process => {},
        _ => return Err(SysError::InvalidArgument),
    }
    let target_pid = ProcessId(cap.resource.base);
    if entry_point >= USER_SPACE_END || stack_top >= USER_SPACE_END {
        return Err(SysError::BadAddress);
    }
    if !procs.prepare_start(target_pid, entry_point, stack_top) {
        return Err(SysError::ProcessNotFound);
    }
    start_process(sched, target_pid);
    Ok(0)
}

/// The caller's process ID.
pub fn sys_process_get_pid(procs: &ProcessTable) -> (r: Result<i64, SysError>)
    requires
        procs.wf(),
    ensures
        r == Ok::<i64, SysError>(caller(procs) as i64),
{
    Ok(current_pid(procs).as_u64() as i64)
}

/// Exits the caller with `exit_code`: its process terminates (the caller then
/// halts).
pub fn sys_process_exit(procs: &mut ProcessTable, exit_code: i32)
    requires
        old(procs).wf(),
    ensures
        final(procs).wf(),
        final(procs).current_index() == old(procs).current_index(),
        final(procs).next_id() == old(procs).next_id(),
        final(procs).procs() == match pid_index(old(procs).procs(), ProcessId(caller(old(procs)))) {
            Some(i) => old(procs).procs().update(
                i,
                Process { state: ProcessState::Terminated, exit_code: Some(exit_code), ..old(procs).procs()[i] },
            ),
            None => old(procs).procs(),
        },
{
    let pid = current_pid(procs);
    procs.terminate_pid(pid, exit_code);
}

/// Yields the CPU: the scheduler picks the next process.
pub fn sys_process_yield(sched: &mut SchedulerState, procs: &mut ProcessTable) -> (r: Result<i64, SysError>)
    requires
        old(procs).wf(),
    ensures
        final(procs).wf(),
        final(procs).next_id() == old(procs).next_id(),
        r == Ok::<i64, SysError>(0),
        exists|next: Option<ProcessId>|
            schedule_step(
                old(procs).procs(),
                old(procs).current_index(),
                old(sched).queue(),
                old(sched).ticks(),
                final(procs).procs(),
                final(procs).current_index(),
                final(sched).queue(),
                final(sched).ticks(),
                next,
            ),
{
    yield_now(sched, procs);
    Ok(0)
}

/// Records the caller's upcall handler and its stack (args: handler address,
/// stack address, both in user space).
pub fn sys_process_set_upcall(procs: &mut ProcessTable, handler_addr: u64, stack_addr: u64) -> (r: Result<
    i64,
    SysError,
>)
    requires
        old(procs).wf(),
    ensures
        final(procs).wf(),
        final(procs).current_index() == old(procs).current_index(),
        final(procs).next_id() == old(procs).next_id(),
        if handler_addr >= USER_SPACE_END || stack_addr >= USER_SPACE_END {
            r == Err::<i64, SysError>(SysError::BadAddress) && *final(procs) == *old(procs)
        } else {
            match pid_index(old(procs).procs(), ProcessId(caller(old(procs)))) {
                None => r == Err::<i64, SysError>(SysError::ProcessNotFound) && final(procs).procs() == old(
                    procs,
                ).procs(),
                Some(i) => r == Ok::<i64, SysError>(0) && final(procs).procs() == old(procs).procs().update(
                    i,
                    Process {
                        upcall_handler: Some(handler_addr),
                        upcall_stack: Some(stack_addr),
                        ..old(procs).procs()[i]
                    },
                ),
            }
        },
{
    let pid = current_pid(procs);
    if handler_addr >= USER_SPACE_END || stack_addr >= USER_SPACE_END {
        return Err(SysError::BadAddress);
    }
    if procs.set_upcall(pid, handler_addr, stack_addr) {
        Ok(0)
    } else {
        Err(SysError::ProcessNotFound)
    }
}

/// Records the caller's handler for system calls the kernel does not know
/// (args: handler address, stack address, both in user space): such calls
/// are then forwarded to it, which lets a library OS emulate another
/// interface.
pub fn sys_process_set_syscall_handler(procs: &mut ProcessTable, handler_addr: u64, stack_addr: u64) -> (r:
    Result<i64, SysError>)
    requires
        old(procs).wf(),
    ensures
        final(procs).wf(),
        final(procs).current_index() == old(procs).current_index(),
        final(procs).next_id() == old(procs).next_id(),
        if handler_addr >= USER_SPACE_END || stack_addr >= USER_SPACE_END {
            r == Err::<i64, SysError>(SysError::BadAddress) && *final(procs) == *old(procs)
        } else {
            match pid_index(old(procs).procs(), ProcessId(caller(old(procs)))) {
                None => r == Err::<i64, SysError>(SysError::ProcessNotFound) && final(procs).procs() == old(
                    procs,
                ).procs(),
                Some(i) => r == Ok::<i64, SysError>(0) && final(procs).procs() == old(procs).procs().update(
                    i,
                    Process {
                        syscall_handler: Some(handler_addr),
                        syscall_handler_stack: Some(stack_addr),
                        ..old(procs).procs()[i]
                    },
                ),
            }
        },
{
    let pid = current_pid(procs);
    if handler_addr >= USER_SPACE_END || stack_addr >= USER_SPACE_END {
        return Err(SysError::BadAddress);
    }
    if procs.set_syscall_handler(pid, handler_addr, stack_addr) {
        Ok(0)
    } else {
        Err(SysError::ProcessNotFound)
    }
}

} // verus!
