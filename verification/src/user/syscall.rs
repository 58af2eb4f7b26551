//! Decoding what a system call returns: a negative value is an error code,
//! anything else the call's result.
use vstd::prelude::*;
use crate::shared::caps::CapabilityHandle;
use crate::shared::error::{error_from_code, SysError};

verus! {

/// Decodes a call that gives a capability handle.
pub fn decode_handle(ret: i64) -> (r: Result<CapabilityHandle, SysError>)
    ensures
        ret < 0 ==> r == Err::<CapabilityHandle, SysError>(error_from_code(ret)),
        ret >= 0 ==> r == Ok::<CapabilityHandle, SysError>(CapabilityHandle(ret as u64)),
{
    if ret < 0 {
        Err(SysError::from_code(ret))
    } else {
        Ok(CapabilityHandle::from_raw(ret as u64))
    }
}

/// Decodes a call that gives nothing but success.
pub fn decode_unit(ret: i64) -> (r: Result<(), SysError>)
    ensures
        ret < 0 ==> r == Err::<(), SysError>(error_from_code(ret)),
        ret >= 0 ==> r == Ok::<(), SysError>(()),
{
    if ret < 0 {
        Err(SysError::from_code(ret))
    } else {
        Ok(())
    }
}

/// Decodes a call that gives a 64-bit value (an address).
pub fn decode_value(ret: i64) -> (r: Result<u64, SysError>)
    ensures
        ret < 0 ==> r == Err::<u64, SysError>(error_from_code(ret)),
        ret >= 0 ==> r == Ok::<u64, SysError>(ret as u64),
{
    if ret < 0 {
        Err(SysError::from_code(ret))
    } else {
        Ok(ret as u64)
    }
}

/// Decodes a port read: the value read (its low 32 bits).
pub fn decode_port_value(ret: i64) -> (r: Result<u32, SysError>)
    ensures
        ret < 0 ==> r == Err::<u32, SysError>(error_from_code(ret)),
        ret >= 0 ==> r == Ok::<u32, SysError>(ret as u32),
{
    if ret < 0 {
        Err(SysError::from_code(ret))
    } else {
        Ok(ret as u32)
    }
}

/// Decodes a receive: the number of bytes received.
pub fn decode_len(ret: i64) -> (r: Result<usize, SysError>)
    ensures
        ret < 0 ==> r == Err::<usize, SysError>(error_from_code(ret)),
        ret >= 0 ==> r == Ok::<usize, SysError>(ret as usize),
{
    if ret < 0 {
        Err(SysError::from_code(ret))
    } else {
        Ok(ret as usize)
    }
}

/// The process ID that the get-PID call returns.
pub fn decode_pid(ret: i64) -> (r: u64)
    ensures
        r == ret as u64,
{
    ret as u64
}

} // verus!
