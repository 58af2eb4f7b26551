use exokernel::shared::caps::{CapabilityHandle, Rights};
use exokernel::shared::error::SysError;
use exokernel::shared::ipc::{EndpointId, MessageBuffer, MAX_CAPS_PER_MESSAGE, MAX_MESSAGE_SIZE};
use exokernel::shared::syscall::{MemFlags, Syscall};

#[test]
fn error_codes_round_trip() {
    let all = [
        SysError::Success,
        SysError::InvalidCapability,
        SysError::RevokedCapability,
        SysError::InsufficientRights,
        SysError::NotFound,
        SysError::OutOfMemory,
        SysError::InvalidArgument,
        SysError::NotPermitted,
        SysError::BadAddress,
        SysError::CapabilityTableFull,
        SysError::InvalidSyscall,
        SysError::EndpointNotFound,
        SysError::MessageTooLarge,
        SysError::PortAccessDenied,
        SysError::AlignmentError,
        SysError::InternalError,
    ];
    for e in all {
        assert_eq!(SysError::from_code(e.as_code()), e);
    }
    assert_eq!(SysError::Success.as_code(), 0);
    assert_eq!(SysError::InvalidCapability.as_code(), -1);
    assert_eq!(SysError::RevokedCapability.as_code(), -2);
    assert!(SysError::Success.is_success());
    assert!(!SysError::NotFound.is_success());
}

#[test]
fn unknown_error_codes_are_internal_errors() {
    assert_eq!(SysError::from_code(-9999), SysError::InternalError);
    assert_eq!(SysError::from_code(17), SysError::InternalError);
}

#[test]
fn syscall_numbers_round_trip() {
    assert_eq!(Syscall::from_num(0x00), Some(Syscall::CapGrant));
    assert_eq!(Syscall::from_num(0x22), Some(Syscall::ProcessGetPid));
    assert_eq!(Syscall::from_num(0xf0), Some(Syscall::DebugPrint));
    assert_eq!(Syscall::from_num(0x05), None);
    assert_eq!(Syscall::from_num(0xffff), None);
    for n in 0u64..0x100 {
        if let Some(s) = Syscall::from_num(n) {
            assert_eq!(s.as_num(), n);
        }
    }
    assert_eq!(Syscall::IpcSend.as_num(), 0x31);
}

#[test]
fn mem_flags_contains() {
    assert!(MemFlags(MemFlags::CONTIGUOUS | MemFlags::ZEROED).contains(MemFlags(MemFlags::ZEROED)));
    assert!(!MemFlags(MemFlags::ZEROED).contains(MemFlags(MemFlags::DMA32)));
}

#[test]
fn message_buffer_holds_data_and_caps() {
    let mut m = MessageBuffer::new();
    assert_eq!(m.get_data().len(), 0);
    assert!(m.set_data(b"hello"));
    assert_eq!(m.get_data(), b"hello");
    let big = vec![1u8; MAX_MESSAGE_SIZE + 1];
    assert!(!m.set_data(&big));
    assert_eq!(m.get_data(), b"hello");
    for i in 0..MAX_CAPS_PER_MESSAGE {
        assert!(m.add_cap(CapabilityHandle(i as u64 + 1)));
    }
    assert!(!m.add_cap(CapabilityHandle(99)));
    assert_eq!(m.cap_count, MAX_CAPS_PER_MESSAGE);
    assert_eq!(EndpointId::new(4).0, 4);
}

#[test]
fn flag_sets_combine_with_operators() {
    let rw = Rights(Rights::READ) | Rights(Rights::WRITE);
    assert_eq!(rw.0, 0x3);
    assert_eq!((rw & Rights(Rights::WRITE | Rights::MAP)).0, Rights::WRITE);
    let f = MemFlags(MemFlags::CONTIGUOUS) | MemFlags(MemFlags::ZEROED);
    assert_eq!(f.0, 0x5);
    assert!(f.contains(MemFlags(MemFlags::ZEROED)));
}
