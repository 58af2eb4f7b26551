//! Capability system calls.
use vstd::prelude::*;
use crate::kernel::caps::{create_root_cap, orphaned, GlobalCapTable};
use crate::kernel::process::{current_pid, ProcessTable};
use crate::kernel::syscall::{caller, USER_SPACE_END};
use crate::shared::caps::{
    CapabilityHandle, CapabilityInfo, ResourceDescriptor, ResourceType, Rights,
};
use crate::shared::error::SysError;

verus! {

/// The resource type that the grant call numbers `n`.
pub open spec fn resource_type_of(n: u64) -> Option<ResourceType> {
    if n == 1 {
        Some(ResourceType::PhysicalMemory)
    } else if n == 2 {
        Some(ResourceType::VirtualMemory)
    } else if n == 3 {
        Some(ResourceType::IoPort)
    } else if n == 4 {
        Some(ResourceType::Irq)
    } else if n == 5 {
        Some(ResourceType::IpcEndpoint)
    } else if n == 6 {
        Some(ResourceType::Process)
    } else if n == 7 {
        Some(ResourceType::DmaBuffer)
    } else if n == 8 {
        Some(ResourceType::DeviceMmio)
    } else {
        None
    }
}

fn decode_resource_type(n: u64) -> (r: Option<ResourceType>)
    ensures
        r == resource_type_of(n),
{
    match n {
        1 => Some(ResourceType::PhysicalMemory),
        2 => Some(ResourceType::VirtualMemory),
        3 => Some(ResourceType::IoPort),
        4 => Some(ResourceType::Irq),
        5 => Some(ResourceType::IpcEndpoint),
        6 => Some(ResourceType::Process),
        7 => Some(ResourceType::DmaBuffer),
        8 => Some(ResourceType::DeviceMmio),
        _ => None,
    }
}

/// Grants a root capability (args: resource type, base, size, rights) and
/// gives its handle. Only the kernel (PID 0) can create root capabilities;
/// user processes delegate.
pub fn sys_cap_grant(
    caps: &mut GlobalCapTable,
    procs: &ProcessTable,
    resource_type: u64,
    base: u64,
    size: u64,
    rights: u64,
) -> (r: Result<i64, SysError>)
    requires
        old(caps).wf(),
        procs.wf(),
    ensures
        final(caps).wf(),
        match resource_type_of(resource_type) {
            None => r == Err::<i64, SysError>(SysError::InvalidArgument) && GlobalCapTable::same(
                old(caps),
                final(caps),
            ),
            Some(t) => if caller(procs) != 0 {
                r == Err::<i64, SysError>(SysError::NotPermitted) && GlobalCapTable::same(
                    old(caps),
                    final(caps),
                )
            } else if old(caps).free_list().len() == 0 {
                r == Err::<i64, SysError>(SysError::CapabilityTableFull) && GlobalCapTable::same(
                    old(caps),
                    final(caps),
                )
            } else {
                r == Ok::<i64, SysError>(old(caps).free_list().last() as i64) && GlobalCapTable::placed(
                    old(caps),
                    final(caps),
                    old(caps).new_cap(
                        ResourceDescriptor { resource_type: t, base, size },
                        Rights(rights as u32),
                        CapabilityHandle(0),
                        0,
                    ),
                    CapabilityHandle(old(caps).free_list().last() as u64),
                )
            },
        },
{
    let pid = current_pid(procs).as_u64();
    let res_type = match decode_resource_type(resource_type) {
        Some(t) => t,
        None => return Err(SysError::InvalidArgument),
    };
    let resource = ResourceDescriptor { resource_type: res_type, base, size };
    let rights = Rights(rights as u32);
    if pid != 0 {
        return Err(SysError::NotPermitted);
    }
    match create_root_cap(caps, resource, rights, pid) {
        Ok(handle) => Ok(handle.as_raw() as i64),
        Err(e) => Err(e),
    }
}

/// Revokes a capability (and all derived from it).
pub fn sys_cap_revoke(caps: &mut GlobalCapTable, procs: &ProcessTable, handle: u64) -> (r: Result<
    i64,
    SysError,
>)
    requires
        old(caps).wf(),
        procs.wf(),
    ensures
        final(caps).wf(),
        match old(caps).revoke_check(CapabilityHandle(handle), caller(procs)) {
            Err(e) => r == Err::<i64, SysError>(e) && GlobalCapTable::same(old(caps), final(caps)),
            Ok(_) => r == Ok::<i64, SysError>(0) && GlobalCapTable::revoked(
                old(caps),
                final(caps),
                handle as int,
            ),
        },
{
    let pid = current_pid(procs).as_u64();
    let handle = CapabilityHandle::from_raw(handle);
    match caps.revoke(handle, pid) {
        Ok(()) => Ok(0),
        Err(e) => Err(e),
    }
}

/// Delegates a capability to another process (args: handle, target PID,
/// new rights) and gives the new handle.
pub fn sys_cap_delegate(
    caps: &mut GlobalCapTable,
    procs: &ProcessTable,
    handle: u64,
    target_pid: u64,
    new_rights: u64,
) -> (r: Result<i64, SysError>)
    requires
        old(caps).wf(),
        procs.wf(),
    ensures
        final(caps).wf(),
        match old(caps).delegate_check(CapabilityHandle(handle), caller(procs), Rights(new_rights as u32)) {
            Err(e) => r == Err::<i64, SysError>(e) && GlobalCapTable::same(old(caps), final(caps)),
            Ok(cap) => r == Ok::<i64, SysError>(old(caps).free_list().last() as i64)
                && GlobalCapTable::placed(
                old(caps),
                final(caps),
                old(caps).new_cap(cap.resource, Rights(new_rights as u32), CapabilityHandle(handle), target_pid),
                CapabilityHandle(old(caps).free_list().last() as u64),
            ),
        },
{
    let pid = current_pid(procs).as_u64();
    let handle = CapabilityHandle::from_raw(handle);
    let rights = Rights(new_rights as u32);
    match caps.delegate(handle, pid, target_pid, rights) {
        Ok(h) => Ok(h.as_raw() as i64),
        Err(e) => Err(e),
    }
}

/// Inspects a capability (args: handle, address of the caller's buffer) and
/// gives the information to write there. The buffer must be a nonzero user
/// address.
pub fn sys_cap_inspect(caps: &GlobalCapTable, procs: &ProcessTable, handle: u64, info_ptr: u64) -> (r:
    Result<CapabilityInfo, SysError>)
    requires
        caps.wf(),
        procs.wf(),
    ensures
        r == if info_ptr >= USER_SPACE_END || info_ptr == 0 {
            Err(SysError::BadAddress)
        } else {
            caps.inspect_result(CapabilityHandle(handle), caller(procs))
        },
{
    let pid = current_pid(procs).as_u64();
    let handle = CapabilityHandle::from_raw(handle);
    if info_ptr >= USER_SPACE_END || info_ptr == 0 {
        return Err(SysError::BadAddress);
    }
    caps.inspect(handle, pid)
}

/// Drops a capability (arg: handle owned by the caller); every other
/// capability stays valid and unchanged, and those it was the parent of
/// leave the derivation tree as roots.
pub fn sys_cap_drop(caps: &mut GlobalCapTable, procs: &ProcessTable, handle: u64) -> (r: Result<
    i64,
    SysError,
>)
    requires
        old(caps).wf(),
        procs.wf(),
    ensures
        final(caps).wf(),
        match old(caps).drop_check(CapabilityHandle(handle), caller(procs)) {
            Err(e) => r == Err::<i64, SysError>(e) && GlobalCapTable::same(old(caps), final(caps)),
            Ok(_) => r == Ok::<i64, SysError>(0) && final(caps).slots() == old(caps).slots().update(
                handle as int,
                None,
            ) && final(caps).tree() == orphaned(old(caps).tree().update(handle as int, None), handle as int)
                && final(caps).free_list() == old(caps).free_list().push(handle as usize)
                && final(caps).generation() == old(caps).generation(),
        },
{
    let pid = current_pid(procs).as_u64();
    let handle = CapabilityHandle::from_raw(handle);
    match caps.drop_cap(handle, pid) {
        Ok(()) => Ok(0),
        Err(e) => Err(e),
    }
}

} // verus!
