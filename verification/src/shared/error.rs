//! Error codes of the system-call interface.
use vstd::prelude::*;

verus! {

/// System error codes. Each has a fixed negative code (success is 0) that the
/// system-call interface returns to user space.
#[derive(Debug, Clone, Copy, PartialEq, Eq, Structural)]
pub enum SysError {
    /// Operation succeeded (not an error)
    Success,
    /// Invalid capability handle
    InvalidCapability,
    /// Capability has been revoked
    RevokedCapability,
    /// Insufficient rights for operation
    InsufficientRights,
    /// Resource not found
    NotFound,
    /// Resource already exists
    AlreadyExists,
    /// Out of memory
    OutOfMemory,
    /// Invalid argument
    InvalidArgument,
    /// Operation not permitted
    NotPermitted,
    /// Resource busy
    Busy,
    /// Would block (for non-blocking operations)
    WouldBlock,
    /// Invalid address
    BadAddress,
    /// Capability table full
    CapabilityTableFull,
    /// Cannot delegate (missing DELEGATE right)
    CannotDelegate,
    /// Resource range overflow
    RangeOverflow,
    /// Invalid syscall number
    InvalidSyscall,
    /// Process not found
    ProcessNotFound,
    /// IPC endpoint not found
    EndpointNotFound,
    /// Message too large
    MessageTooLarge,
    /// No message available
    NoMessage,
    /// IRQ already bound
    IrqAlreadyBound,
    /// Port access denied
    PortAccessDenied,
    /// Page fault during operation
    PageFault,
    /// Alignment error
    AlignmentError,
    /// Internal kernel error (should not happen)
    InternalError,
}

/// The code of each error.
pub open spec fn error_code(e: SysError) -> i64 {
    match e {
        SysError::Success => 0i64,
        SysError::InvalidCapability => -1i64,
        SysError::RevokedCapability => -2i64,
        SysError::InsufficientRights => -3i64,
        SysError::NotFound => -4i64,
        SysError::AlreadyExists => -5i64,
        SysError::OutOfMemory => -6i64,
        SysError::InvalidArgument => -7i64,
        SysError::NotPermitted => -8i64,
        SysError::Busy => -9i64,
        SysError::WouldBlock => -10i64,
        SysError::BadAddress => -11i64,
        SysError::CapabilityTableFull => -12i64,
        SysError::CannotDelegate => -13i64,
        SysError::RangeOverflow => -14i64,
        SysError::InvalidSyscall => -15i64,
        SysError::ProcessNotFound => -16i64,
        SysError::EndpointNotFound => -17i64,
        SysError::MessageTooLarge => -18i64,
        SysError::NoMessage => -19i64,
        SysError::IrqAlreadyBound => -20i64,
        SysError::PortAccessDenied => -21i64,
        SysError::PageFault => -22i64,
        SysError::AlignmentError => -23i64,
        SysError::InternalError => -99i64,
    }
}

/// The error that a code stands for; unknown codes are internal errors.
pub open spec fn error_from_code(code: i64) -> SysError {
    if code == 0 {
        SysError::Success
    } else if code == -1 {
        SysError::InvalidCapability
    } else if code == -2 {
        SysError::RevokedCapability
    } else if code == -3 {
        SysError::InsufficientRights
    } else if code == -4 {
        SysError::NotFound
    } else if code == -5 {
        SysError::AlreadyExists
    } else if code == -6 {
        SysError::OutOfMemory
    } else if code == -7 {
        SysError::InvalidArgument
    } else if code == -8 {
        SysError::NotPermitted
    } else if code == -9 {
        SysError::Busy
    } else if code == -10 {
        SysError::WouldBlock
    } else if code == -11 {
        SysError::BadAddress
    } else if code == -12 {
        SysError::CapabilityTableFull
    } else if code == -13 {
        SysError::CannotDelegate
    } else if code == -14 {
        SysError::RangeOverflow
    } else if code == -15 {
        SysError::InvalidSyscall
    } else if code == -16 {
        SysError::ProcessNotFound
    } else if code == -17 {
        SysError::EndpointNotFound
    } else if code == -18 {
        SysError::MessageTooLarge
    } else if code == -19 {
        SysError::NoMessage
    } else if code == -20 {
        SysError::IrqAlreadyBound
    } else if code == -21 {
        SysError::PortAccessDenied
    } else if code == -22 {
        SysError::PageFault
    } else if code == -23 {
        SysError::AlignmentError
    } else {
        SysError::InternalError
    }
}

/// The codes that name an error.
pub open spec fn is_error_code(code: i64) -> bool {
    ||| -23 <= code <= 0
    ||| code == -99
}

/// Result of a system call.
pub type SysResult<T> = Result<T, SysError>;

impl SysError {
    pub fn from_code(code: i64) -> (r: SysError)
        ensures
            r == error_from_code(code),
    {
        match code {
            0 => SysError::Success,
            -1 => SysError::InvalidCapability,
            -2 => SysError::RevokedCapability,
            -3 => SysError::InsufficientRights,
            -4 => SysError::NotFound,
            -5 => SysError::AlreadyExists,
            -6 => SysError::OutOfMemory,
            -7 => SysError::InvalidArgument,
            -8 => SysError::NotPermitted,
            -9 => SysError::Busy,
            -10 => SysError::WouldBlock,
            -11 => SysError::BadAddress,
            -12 => SysError::CapabilityTableFull,
            -13 => SysError::CannotDelegate,
            -14 => SysError::RangeOverflow,
            -15 => SysError::InvalidSyscall,
            -16 => SysError::ProcessNotFound,
            -17 => SysError::EndpointNotFound,
            -18 => SysError::MessageTooLarge,
            -19 => SysError::NoMessage,
            -20 => SysError::IrqAlreadyBound,
            -21 => SysError::PortAccessDenied,
            -22 => SysError::PageFault,
            -23 => SysError::AlignmentError,
            _ => SysError::InternalError,
        }
    }

    pub fn as_code(&self) -> (r: i64)
        ensures
            r == error_code(*self),
    {
        match self {
            SysError::Success => 0,
            SysError::InvalidCapability => -1,
            SysError::RevokedCapability => -2,
            SysError::InsufficientRights => -3,
            SysError::NotFound => -4,
            SysError::AlreadyExists => -5,
            SysError::OutOfMemory => -6,
            SysError::InvalidArgument => -7,
            SysError::NotPermitted => -8,
            SysError::Busy => -9,
            SysError::WouldBlock => -10,
            SysError::BadAddress => -11,
            SysError::CapabilityTableFull => -12,
            SysError::CannotDelegate => -13,
            SysError::RangeOverflow => -14,
            SysError::InvalidSyscall => -15,
            SysError::ProcessNotFound => -16,
            SysError::EndpointNotFound => -17,
            SysError::MessageTooLarge => -18,
            SysError::NoMessage => -19,
            SysError::IrqAlreadyBound => -20,
            SysError::PortAccessDenied => -21,
            SysError::PageFault => -22,
            SysError::AlignmentError => -23,
            SysError::InternalError => -99,
        }
    }

    pub fn is_success(&self) -> (r: bool)
        ensures
            r == (*self == SysError::Success),
    {
        match self {
            SysError::Success => true,
            _ => false,
        }
    }
}

/// Encoding an error and decoding its code gives the error back, and decoding
/// a known code and encoding it gives the code back; no two errors share a code.
pub proof fn lemma_error_code_roundtrip(e: SysError, f: SysError, code: i64)
    ensures
        error_from_code(error_code(e)) == e,
        is_error_code(code) ==> error_code(error_from_code(code)) == code,
        is_error_code(error_code(e)),
        error_code(e) == error_code(f) ==> e == f,
        error_code(e) <= 0,
        error_code(e) == 0 <==> e == SysError::Success,
{
}

} // verus!
