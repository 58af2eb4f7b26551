use exokernel::kernel::caps::{create_root_cap, GlobalCapTable};
use exokernel::kernel::memory::frame_allocator::{BootInfoFrameAllocator, PhysRegion};
use exokernel::kernel::process::scheduler::{dequeue, enqueue, schedule, SchedulerState};
use exokernel::kernel::process::{init, spawn, ProcessId, ProcessState, ProcessTable};
use exokernel::kernel::syscall::caps::{sys_cap_delegate, sys_cap_drop, sys_cap_grant, sys_cap_inspect, sys_cap_revoke};
use exokernel::kernel::syscall::io::{
    dispatch_irq, irq_is_bound, sys_dma_alloc, sys_io_bind_port, sys_io_port, sys_irq_ack, sys_irq_bind, IrqTable,
    PortOp,
};
use exokernel::kernel::syscall::ipc::{
    sys_ipc_call, sys_ipc_create_endpoint, sys_ipc_recv, sys_ipc_recv_check, sys_ipc_recv_step, sys_ipc_send,
    sys_ipc_send_check, IpcState, RecvStep,
};
use exokernel::kernel::syscall::memory::{
    map_page_at, query_answer, sys_mem_alloc_phys, sys_mem_map, sys_mem_protect, sys_mem_query, sys_mem_unmap,
    MapRequest, PageRange, PTE_NO_EXECUTE, PTE_PRESENT, PTE_USER_ACCESSIBLE, PTE_WRITABLE,
};
use exokernel::kernel::syscall::process::{
    sys_process_create, sys_process_exit, sys_process_get_pid, sys_process_set_syscall_handler,
    sys_process_set_upcall, sys_process_start,
};
use exokernel::kernel::syscall::{debug_text, encode_result, forward_handler, route, sys_debug_print_check, Route};
use exokernel::shared::caps::{CapabilityHandle, ResourceDescriptor, ResourceType, Rights};
use exokernel::shared::error::SysError;
use exokernel::shared::ipc::EndpointId;
use exokernel::shared::syscall::Syscall;

/// A table where user process `pid` (the only one) is current.
fn running_user() -> (ProcessTable, SchedulerState, ProcessId) {
    let mut t = init();
    let pid = spawn(&mut t, "user", 0x400000, 0x7000, 0);
    let mut s = SchedulerState::new();
    enqueue(&mut s, pid);
    assert_eq!(schedule(&mut s, &mut t), Some(pid));
    (t, s, pid)
}

#[test]
fn results_are_encoded_as_values_or_error_codes() {
    assert_eq!(encode_result(Ok(42)), 42);
    assert_eq!(encode_result(Err(SysError::NotPermitted)), -8);
}

#[test]
fn routing_of_known_and_unknown_calls() {
    assert_eq!(route(0x22, None), Route::Kernel(Syscall::ProcessGetPid));
    assert_eq!(route(0x22, Some(0x9000)), Route::Kernel(Syscall::ProcessGetPid));
    assert_eq!(route(60, Some(0x9000)), Route::Forward(0x9000));
    assert_eq!(route(60, None), Route::Unknown);
    let (mut t, _, pid) = running_user();
    assert_eq!(forward_handler(&t), None);
    t.set_syscall_handler(pid, 0x9000, 0xA000);
    assert_eq!(forward_handler(&t), Some(0x9000));
}

#[test]
fn debug_print_checks_and_text() {
    assert_eq!(sys_debug_print_check(0x1000, 5), Ok(5));
    assert_eq!(sys_debug_print_check(0x8000_0000_0000, 5), Err(SysError::BadAddress));
    assert_eq!(debug_text(b"hi\0there"), b"hi".to_vec());
    assert_eq!(debug_text(b"abc"), b"abc".to_vec());
}

#[test]
fn cap_grant_is_for_the_kernel_only() {
    let mut caps = GlobalCapTable::new();
    let kernel = init();
    let h = sys_cap_grant(&mut caps, &kernel, 3, 0x60, 4, Rights::READ as u64).unwrap();
    let info = sys_cap_inspect(&caps, &kernel, h as u64, 0x1000).unwrap();
    assert_eq!(info.resource, ResourceDescriptor { resource_type: ResourceType::IoPort, base: 0x60, size: 4 });
    assert_eq!(sys_cap_grant(&mut caps, &kernel, 9, 0, 1, 0), Err(SysError::InvalidArgument));
    let (user, _, _) = running_user();
    assert_eq!(sys_cap_grant(&mut caps, &user, 3, 0, 1, 0), Err(SysError::NotPermitted));
    assert_eq!(sys_cap_inspect(&caps, &kernel, h as u64, 0).err(), Some(SysError::BadAddress));
}

#[test]
fn cap_delegate_revoke_drop_calls() {
    let mut caps = GlobalCapTable::new();
    let (t, _, pid) = running_user();
    let all = Rights(Rights::READ | Rights::DELEGATE | Rights::GRANT);
    let root = create_root_cap(&mut caps, ResourceDescriptor::irq(4), all, pid.0).unwrap();
    let d = sys_cap_delegate(&mut caps, &t, root.0, 5, Rights::READ as u64).unwrap();
    assert_eq!(caps.get(CapabilityHandle(d as u64)).unwrap().owner, 5);
    assert_eq!(sys_cap_drop(&mut caps, &t, d as u64), Err(SysError::NotPermitted));
    assert_eq!(sys_cap_revoke(&mut caps, &t, root.0), Ok(0));
    assert!(caps.get(CapabilityHandle(d as u64)).is_err());
    assert_eq!(sys_cap_revoke(&mut caps, &t, root.0), Err(SysError::InvalidCapability));
}

#[test]
fn ipc_send_then_receive() {
    let mut caps = GlobalCapTable::new();
    let mut ipc = IpcState::new();
    let (mut t, mut s, pid) = running_user();
    let h = sys_ipc_create_endpoint(&mut ipc, &mut caps, &t, 0).unwrap() as u64;
    let ep = sys_ipc_send_check(&caps, &t, h, 0x1000, 3, 0, 0).unwrap();
    assert_eq!(ep, EndpointId(1));
    assert_eq!(sys_ipc_send(&mut ipc, &mut t, &mut s, ep, pid.0, vec![1, 2, 3], vec![]), Ok(0));
    let rep = sys_ipc_recv_check(&caps, &t, h).unwrap();
    match sys_ipc_recv_step(&mut ipc, &mut t, &mut s, rep, pid.0, 0x2000, 2, 0, 0).unwrap() {
        RecvStep::Received { message, copy_len, caps_copy_len } => {
            assert_eq!(message.data, vec![1, 2, 3]);
            assert_eq!(message.sender_pid, pid.0);
            assert_eq!(copy_len, 2);
            assert_eq!(caps_copy_len, 0);
        },
        _ => panic!("a message was queued"),
    }
}

#[test]
fn ipc_receive_blocks_and_a_send_wakes_the_receiver() {
    let mut caps = GlobalCapTable::new();
    let mut ipc = IpcState::new();
    let (mut t, mut s, pid) = running_user();
    let h = sys_ipc_create_endpoint(&mut ipc, &mut caps, &t, 0).unwrap() as u64;
    let ep = sys_ipc_recv_check(&caps, &t, h).unwrap();
    match sys_ipc_recv_step(&mut ipc, &mut t, &mut s, ep, pid.0, 0x2000, 8, 0, 0).unwrap() {
        RecvStep::Blocked => {},
        _ => panic!("no message was queued"),
    }
    assert_eq!(t.get(pid).unwrap().state, ProcessState::BlockedRecv);
    assert_eq!(sys_ipc_send(&mut ipc, &mut t, &mut s, ep, 0, vec![9], vec![]), Ok(0));
    assert_eq!(t.get(pid).unwrap().state, ProcessState::Ready);
    assert_eq!(dequeue(&mut s), Some(pid));
}

#[test]
fn ipc_errors() {
    let mut caps = GlobalCapTable::new();
    let mut ipc = IpcState::new();
    let (mut t, mut s, pid) = running_user();
    let h = sys_ipc_create_endpoint(&mut ipc, &mut caps, &t, 0).unwrap() as u64;
    assert_eq!(sys_ipc_send_check(&caps, &t, h, 0x1000, 5000, 0, 0), Err(SysError::MessageTooLarge));
    assert_eq!(sys_ipc_send_check(&caps, &t, h, 0x1000, 1, 0x1000, 9), Err(SysError::MessageTooLarge));
    assert_eq!(sys_ipc_send_check(&caps, &t, h, 0x8000_0000_0000, 1, 0, 0), Err(SysError::BadAddress));
    assert_eq!(sys_ipc_send_check(&caps, &t, 999, 0, 0, 0, 0), Err(SysError::InvalidCapability));
    let irq = create_root_cap(&mut caps, ResourceDescriptor::irq(1), Rights(Rights::SEND), pid.0).unwrap();
    assert_eq!(sys_ipc_send_check(&caps, &t, irq.0, 0, 0, 0, 0), Err(SysError::InvalidArgument));
    assert_eq!(
        sys_ipc_send(&mut ipc, &mut t, &mut s, EndpointId(42), 0, vec![], vec![]),
        Err(SysError::EndpointNotFound)
    );
    assert_eq!(sys_ipc_send(&mut ipc, &mut t, &mut s, EndpointId(1), 0, vec![1, 2], vec![]), Ok(0));
    let r = sys_ipc_recv_step(&mut ipc, &mut t, &mut s, EndpointId(1), pid.0, 0x8000_0000_0000, 8, 0, 0);
    assert!(matches!(r, Err(SysError::BadAddress)));
    assert_eq!(sys_ipc_call(0, 0, 0, 0, 0), Err(SysError::NotPermitted));
}

#[test]
fn port_io_needs_a_covering_capability() {
    let mut caps = GlobalCapTable::new();
    let (t, _, pid) = running_user();
    assert_eq!(sys_io_port(&caps, &t, 0x60, 0, 0, 1), Err(SysError::PortAccessDenied));
    create_root_cap(&mut caps, ResourceDescriptor::io_port(0x60, 4), Rights(Rights::READ), pid.0).unwrap();
    assert_eq!(sys_io_port(&caps, &t, 0x61, 0, 0, 1), Ok(PortOp::Read8(0x61)));
    assert_eq!(sys_io_port(&caps, &t, 0x63, 0, 0, 4), Ok(PortOp::Read32(0x63)));
    assert_eq!(sys_io_port(&caps, &t, 0x64, 0, 0, 1), Err(SysError::PortAccessDenied));
    assert_eq!(sys_io_port(&caps, &t, 0x60, 5, 1, 1), Err(SysError::PortAccessDenied));
    assert_eq!(sys_io_port(&caps, &t, 0x60, 0, 0, 3), Err(SysError::InvalidArgument));
    create_root_cap(&mut caps, ResourceDescriptor::io_port(0x70, 2), Rights(Rights::WRITE), pid.0).unwrap();
    assert_eq!(sys_io_port(&caps, &t, 0x71, 0x1ff, 1, 1), Ok(PortOp::Write8(0x71, 0xff)));
    assert_eq!(sys_io_port(&caps, &t, 0x70, 0x12345, 1, 2), Ok(PortOp::Write16(0x70, 0x2345)));
    let ports = create_root_cap(&mut caps, ResourceDescriptor::io_port(0x3F8, 8), Rights(Rights::READ), pid.0).unwrap();
    assert_eq!(sys_io_bind_port(&caps, &t, ports.0, 0x3F8, 8), Ok(0));
    assert_eq!(sys_io_bind_port(&caps, &t, ports.0, 0x3FA, 2), Ok(0));
    assert_eq!(sys_io_bind_port(&caps, &t, ports.0, 0x3F8, 9), Err(SysError::InvalidArgument));
    assert_eq!(sys_io_bind_port(&caps, &t, ports.0, 0x3F0, 1), Err(SysError::InvalidArgument));
    assert_eq!(sys_io_bind_port(&caps, &t, 4000, 0x3F8, 1), Err(SysError::InvalidCapability));
    let irq = create_root_cap(&mut caps, ResourceDescriptor::irq(3), Rights(Rights::BIND), pid.0).unwrap();
    assert_eq!(sys_io_bind_port(&caps, &t, irq.0, 3, 1), Err(SysError::InvalidArgument));
    let theirs = create_root_cap(&mut caps, ResourceDescriptor::io_port(0x100, 8), Rights(Rights::READ), pid.0 + 1).unwrap();
    assert_eq!(sys_io_bind_port(&caps, &t, theirs.0, 0x100, 1), Err(SysError::NotPermitted));
    assert_eq!(sys_dma_alloc(4096, 0), Err(SysError::NotPermitted));
}

#[test]
fn any_covering_capability_with_the_right_allows_access() {
    let mut caps = GlobalCapTable::new();
    let (t, _, pid) = running_user();
    create_root_cap(&mut caps, ResourceDescriptor::io_port(0x60, 4), Rights(Rights::READ), pid.0).unwrap();
    create_root_cap(&mut caps, ResourceDescriptor::io_port(0x60, 4), Rights(Rights::WRITE), pid.0).unwrap();
    assert_eq!(sys_io_port(&caps, &t, 0x60, 0, 0, 1), Ok(PortOp::Read8(0x60)));
    assert_eq!(sys_io_port(&caps, &t, 0x60, 7, 1, 1), Ok(PortOp::Write8(0x60, 7)));
    // another process's capability does not count
    create_root_cap(&mut caps, ResourceDescriptor::io_port(0x80, 1), Rights(Rights::READ), pid.0 + 1).unwrap();
    assert_eq!(sys_io_port(&caps, &t, 0x80, 0, 0, 1), Err(SysError::PortAccessDenied));
}

#[test]
fn irq_bind_dispatch_ack() {
    let mut caps = GlobalCapTable::new();
    let mut irqs = IrqTable::new();
    let (t, _, pid) = running_user();
    let cap = create_root_cap(&mut caps, ResourceDescriptor::irq(5), Rights(Rights::BIND | Rights::ACK), pid.0).unwrap();
    assert!(!irq_is_bound(&irqs, 5));
    assert_eq!(sys_irq_ack(&mut irqs, &caps, &t, cap.0), Err(SysError::InvalidArgument));
    assert_eq!(sys_irq_bind(&mut irqs, &caps, &t, cap.0, 0x8000_0000_0000), Err(SysError::BadAddress));
    assert_eq!(sys_irq_bind(&mut irqs, &caps, &t, cap.0, 0x4000), Ok(0));
    assert!(irq_is_bound(&irqs, 5));
    assert_eq!(dispatch_irq(&mut irqs, 5), Some((pid, 0x4000)));
    assert_eq!(dispatch_irq(&mut irqs, 6), None);
    assert_eq!(dispatch_irq(&mut irqs, 16), None);
    assert!(!irq_is_bound(&irqs, 99));
    assert_eq!(sys_irq_ack(&mut irqs, &caps, &t, cap.0), Ok(0));
    let big = create_root_cap(&mut caps, ResourceDescriptor::irq(16), Rights(Rights::BIND), pid.0).unwrap();
    assert_eq!(sys_irq_bind(&mut irqs, &caps, &t, big.0, 0x4000), Err(SysError::InvalidArgument));
    let port = create_root_cap(&mut caps, ResourceDescriptor::io_port(1, 1), Rights(Rights::BIND), pid.0).unwrap();
    assert_eq!(sys_irq_bind(&mut irqs, &caps, &t, port.0, 0x4000), Err(SysError::InvalidArgument));
}

#[test]
fn irq_bound_to_another_process_stays_bound() {
    let mut caps = GlobalCapTable::new();
    let mut irqs = IrqTable::new();
    let (t, _, pid) = running_user();
    let kernel = init();
    let mine = create_root_cap(&mut caps, ResourceDescriptor::irq(3), Rights(Rights::BIND | Rights::ACK), pid.0).unwrap();
    let kernels = create_root_cap(&mut caps, ResourceDescriptor::irq(3), Rights(Rights::BIND | Rights::ACK), 0).unwrap();
    assert_eq!(sys_irq_bind(&mut irqs, &caps, &kernel, kernels.0, 0x1000), Ok(0));
    assert_eq!(sys_irq_bind(&mut irqs, &caps, &t, mine.0, 0x2000), Err(SysError::IrqAlreadyBound));
    assert_eq!(sys_irq_ack(&mut irqs, &caps, &t, mine.0), Err(SysError::NotPermitted));
}

#[test]
fn memory_allocation_and_mapping() {
    let mut caps = GlobalCapTable::new();
    let (t, _, _) = running_user();
    let regions = vec![
        PhysRegion { start: 0x1000, end: 0x3000, usable: true },
        PhysRegion { start: 0x10000, end: 0x20000, usable: false },
        PhysRegion { start: 0x100000, end: 0x102000, usable: true },
    ];
    let mut alloc = BootInfoFrameAllocator::new(regions);
    assert_eq!(sys_mem_alloc_phys(&mut alloc, &mut caps, &t, 0, 0), Err(SysError::InvalidArgument));
    assert_eq!(sys_mem_alloc_phys(&mut alloc, &mut caps, &t, 1025, 0), Err(SysError::InvalidArgument));
    let h = sys_mem_alloc_phys(&mut alloc, &mut caps, &t, 3, 0).unwrap() as u64;
    let cap = *caps.get(CapabilityHandle(h)).unwrap();
    assert_eq!(cap.resource, ResourceDescriptor::physical_memory(1, 3));
    assert_eq!(sys_mem_alloc_phys(&mut alloc, &mut caps, &t, 2, 0), Err(SysError::OutOfMemory));
    let req = sys_mem_map(&caps, &t, h, 0x40_0000, 0xB).unwrap();
    assert_eq!(
        req,
        MapRequest { base_frame: 1, frame_count: 3, virt_addr: 0x40_0000, flags: PTE_PRESENT | PTE_USER_ACCESSIBLE | PTE_WRITABLE }
    );
    assert_eq!(map_page_at(&req, 2), Some((0x40_2000, 0x3000)));
    // READ alone, or READ and EXECUTE: present and user-accessible, not writable
    assert_eq!(sys_mem_map(&caps, &t, h, 0x40_0000, 0x1).unwrap().flags, PTE_PRESENT | PTE_USER_ACCESSIBLE);
    assert_eq!(sys_mem_map(&caps, &t, h, 0x40_0000, 0xD).unwrap().flags, PTE_PRESENT | PTE_USER_ACCESSIBLE);
    assert_eq!(sys_mem_map(&caps, &t, h, 0x40_0000, 0x2).unwrap().flags, PTE_PRESENT | PTE_USER_ACCESSIBLE | PTE_WRITABLE);
    assert_eq!(sys_mem_map(&caps, &t, h, 0x40_0001, 0), Err(SysError::AlignmentError));
    assert_eq!(sys_mem_map(&caps, &t, h, 0x8000_0000_0000, 0), Err(SysError::BadAddress));
}

#[test]
fn unmap_protect_query_checks() {
    assert_eq!(sys_mem_unmap(0x1000, 0x3000), Ok(PageRange { virt_addr: 0x1000, page_count: 3 }));
    assert_eq!(sys_mem_unmap(0x1001, 0x1000), Err(SysError::AlignmentError));
    assert_eq!(sys_mem_unmap(0x8000_0000_0000, 0), Err(SysError::BadAddress));
    assert_eq!(
        sys_mem_protect(0x2000, 0x1000, 0x4),
        Ok((PageRange { virt_addr: 0x2000, page_count: 1 }, PTE_PRESENT | PTE_USER_ACCESSIBLE))
    );
    assert_eq!(
        sys_mem_protect(0x2000, 0x1000, 0x3),
        Ok((
            PageRange { virt_addr: 0x2000, page_count: 1 },
            PTE_PRESENT | PTE_USER_ACCESSIBLE | PTE_WRITABLE | PTE_NO_EXECUTE
        ))
    );
    assert_eq!(sys_mem_query(0x1234), Ok(0x1234));
    assert_eq!(query_answer(Some(0x5000)), Ok(0x5000));
    assert_eq!(query_answer(None), Err(SysError::NotFound));
}

#[test]
fn process_create_and_start() {
    let mut caps = GlobalCapTable::new();
    let mut t = init();
    let mut s = SchedulerState::new();
    assert_eq!(sys_process_create(&mut t, &mut caps, 0x8000_0000_0000, 0, 0), Err(SysError::BadAddress));
    let h = sys_process_create(&mut t, &mut caps, 0x401000, 0, 0).unwrap() as u64;
    let cap = *caps.get(CapabilityHandle(h)).unwrap();
    assert_eq!(cap.resource, ResourceDescriptor::process(1));
    let child = t.get(ProcessId(1)).unwrap();
    assert_eq!(child.context.rip, 0x401000);
    assert_eq!(child.context.rsp, 0);
    assert_eq!(sys_process_start(&mut t, &mut s, &caps, h, 0x8000_0000_0000, 0), Err(SysError::BadAddress));
    assert_eq!(sys_process_start(&mut t, &mut s, &caps, h, 0x402000, 0x7fff_0000), Ok(0));
    let child = t.get(ProcessId(1)).unwrap();
    assert_eq!((child.context.rip, child.context.cs), (0x402000, 0x23));
    assert_eq!(dequeue(&mut s), Some(ProcessId(1)));
    assert_eq!(sys_process_get_pid(&t), Ok(0));
}

#[test]
fn process_handlers_and_exit() {
    let (mut t, _, pid) = running_user();
    assert_eq!(sys_process_set_upcall(&mut t, 0x8000_0000_0000, 0), Err(SysError::BadAddress));
    assert_eq!(sys_process_set_upcall(&mut t, 0x1000, 0x2000), Ok(0));
    assert_eq!(t.get(pid).unwrap().upcall_stack, Some(0x2000));
    assert_eq!(sys_process_set_syscall_handler(&mut t, 0x3000, 0x4000), Ok(0));
    assert_eq!(sys_process_get_pid(&t), Ok(pid.0 as i64));
    sys_process_exit(&mut t, 7);
    assert_eq!(t.get(pid).unwrap().state, ProcessState::Terminated);
    assert_eq!(t.get(pid).unwrap().exit_code, Some(7));
}

#[test]
fn ipc_receive_checks_the_capability_then_takes_the_first_message() {
    let mut caps = GlobalCapTable::new();
    let mut ipc = IpcState::new();
    let (mut t, mut s, pid) = running_user();
    let h = sys_ipc_create_endpoint(&mut ipc, &mut caps, &t, 0).unwrap() as u64;
    match sys_ipc_recv(&mut ipc, &mut t, &mut s, &caps, 999, 0x2000, 8, 0, 0) {
        Err(e) => assert_eq!(e, SysError::InvalidCapability),
        Ok(_) => panic!("the capability does not exist"),
    }
    let ep = EndpointId(1);
    assert_eq!(sys_ipc_send(&mut ipc, &mut t, &mut s, ep, pid.0, vec![4, 5], vec![]), Ok(0));
    assert_eq!(sys_ipc_send(&mut ipc, &mut t, &mut s, ep, pid.0, vec![6], vec![]), Ok(0));
    match sys_ipc_recv(&mut ipc, &mut t, &mut s, &caps, h, 0x2000, 8, 0, 0).unwrap() {
        RecvStep::Received { message, copy_len, .. } => {
            assert_eq!(message.data, vec![4, 5]);
            assert_eq!(copy_len, 2);
        },
        _ => panic!("two messages were queued"),
    }
    match sys_ipc_recv(&mut ipc, &mut t, &mut s, &caps, h, 0, 0, 0, 0).unwrap() {
        RecvStep::Received { message, copy_len, .. } => {
            assert_eq!(message.data, vec![6]);
            assert_eq!(copy_len, 0);
        },
        _ => panic!("one message was queued"),
    }
}

#[test]
fn ipc_receive_delivers_the_data_before_a_bad_capability_buffer() {
    let mut caps = GlobalCapTable::new();
    let mut ipc = IpcState::new();
    let (mut t, mut s, pid) = running_user();
    let h = sys_ipc_create_endpoint(&mut ipc, &mut caps, &t, 0).unwrap() as u64;
    let ep = EndpointId(1);
    assert_eq!(sys_ipc_send(&mut ipc, &mut t, &mut s, ep, pid.0, vec![1, 2, 3], vec![CapabilityHandle(7)]), Ok(0));
    match sys_ipc_recv(&mut ipc, &mut t, &mut s, &caps, h, 0x2000, 8, 0x8000_0000_0000, 4).unwrap() {
        RecvStep::DataOnly { message, copy_len } => {
            assert_eq!(message.data, vec![1, 2, 3]);
            assert_eq!(copy_len, 3);
        },
        _ => panic!("the capability buffer is outside user space"),
    }
    // the message left the queue
    match sys_ipc_recv(&mut ipc, &mut t, &mut s, &caps, h, 0x2000, 8, 0, 0).unwrap() {
        RecvStep::Blocked => {},
        _ => panic!("the queue is empty"),
    }
}
