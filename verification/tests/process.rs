use exokernel::kernel::process::scheduler::{
    block_current, dequeue, enqueue, schedule, start_process, timer_tick, unblock, yield_now, SchedulerState,
    DEFAULT_TIME_SLICE,
};
use exokernel::kernel::process::{current_pid, init, spawn, Process, ProcessId, ProcessState, ProcessTable};

fn table_with_users(n: u64) -> (ProcessTable, Vec<ProcessId>) {
    let mut t = init();
    let mut pids = Vec::new();
    for _ in 0..n {
        pids.push(spawn(&mut t, "user", 0x400000, 0x7000, 0));
    }
    (t, pids)
}

#[test]
fn init_has_the_running_kernel_process() {
    let t = init();
    assert_eq!(current_pid(&t), ProcessId(0));
    assert_eq!(t.current().unwrap().state, ProcessState::Running);
    assert_eq!(t.current_pid(), Some(ProcessId(0)));
}

#[test]
fn new_process_ids_count_up_and_wrap() {
    let mut next = 5u64;
    assert_eq!(ProcessId::new(&mut next), ProcessId(5));
    assert_eq!(next, 6);
    let mut last = u64::MAX;
    assert_eq!(ProcessId::new(&mut last).as_u64(), u64::MAX);
    assert_eq!(last, 0);
    assert_eq!(ProcessId::kernel().as_u64(), 0);
}

#[test]
fn user_process_context() {
    let mut next = 9u64;
    let p = Process::new_user("p", 0x1000, 0x2000, 0x3000, &mut next);
    assert_eq!(p.pid, ProcessId(9));
    assert_eq!(p.context.rip, 0x1000);
    assert_eq!(p.context.rsp, 0x2000);
    assert_eq!(p.context.rflags, 0x202);
    assert_eq!((p.context.cs, p.context.ss), (0x23, 0x1b));
    assert_eq!(p.state, ProcessState::Ready);
    assert!(p.is_runnable());
    let mut q = p;
    q.terminate(3);
    assert_eq!(q.state, ProcessState::Terminated);
    assert_eq!(q.exit_code, Some(3));
    assert!(!q.is_runnable());
}

#[test]
fn create_process_and_cleanup() {
    let mut t = ProcessTable::new();
    let a = t.create_process("a").unwrap();
    let b = t.create_process("b").unwrap();
    assert_eq!((a, b), (ProcessId(1), ProcessId(2)));
    t.terminate_pid(a, 1);
    assert_eq!(t.get(a).unwrap().state, ProcessState::Terminated);
    t.cleanup();
    assert!(t.get(a).is_none());
    assert!(t.get(b).is_some());
    assert!(t.current().is_none());
}

#[test]
fn schedule_is_round_robin() {
    let (mut t, pids) = table_with_users(3);
    let mut s = SchedulerState::new();
    for p in &pids {
        enqueue(&mut s, *p);
    }
    assert_eq!(schedule(&mut s, &mut t), Some(pids[0]));
    assert_eq!(current_pid(&t), pids[0]);
    assert_eq!(t.get(pids[0]).unwrap().state, ProcessState::Running);
    assert_eq!(schedule(&mut s, &mut t), Some(pids[1]));
    assert_eq!(t.get(pids[0]).unwrap().state, ProcessState::Ready);
    assert_eq!(schedule(&mut s, &mut t), Some(pids[2]));
    assert_eq!(schedule(&mut s, &mut t), Some(pids[0]));
}

#[test]
fn schedule_skips_processes_that_cannot_run() {
    let (mut t, pids) = table_with_users(2);
    let mut s = SchedulerState::new();
    t.terminate_pid(pids[0], 0);
    enqueue(&mut s, pids[0]);
    enqueue(&mut s, ProcessId(77));
    enqueue(&mut s, pids[1]);
    assert_eq!(schedule(&mut s, &mut t), Some(pids[1]));
    assert_eq!(dequeue(&mut s), None);
}

#[test]
fn schedule_with_nothing_runnable_empties_the_queue() {
    let (mut t, pids) = table_with_users(1);
    let mut s = SchedulerState::new();
    t.terminate_pid(pids[0], 0);
    enqueue(&mut s, pids[0]);
    assert_eq!(schedule(&mut s, &mut t), None);
    assert_eq!(dequeue(&mut s), None);
    assert_eq!(current_pid(&t), ProcessId(0));
}

#[test]
fn the_kernel_is_not_requeued() {
    let (mut t, pids) = table_with_users(1);
    let mut s = SchedulerState::new();
    enqueue(&mut s, pids[0]);
    assert_eq!(schedule(&mut s, &mut t), Some(pids[0]));
    assert_eq!(dequeue(&mut s), None);
}

#[test]
fn timer_ticks_count_down_the_slice() {
    let (mut t, pids) = table_with_users(2);
    let mut s = SchedulerState::new();
    start_process(&mut s, pids[0]);
    enqueue(&mut s, pids[1]);
    for _ in 0..(DEFAULT_TIME_SLICE - 1) {
        assert!(!timer_tick(&mut s, &mut t));
    }
    assert_eq!(current_pid(&t), ProcessId(0));
    assert!(timer_tick(&mut s, &mut t));
    assert_eq!(current_pid(&t), pids[0]);
}

#[test]
fn no_time_slice_means_no_preemption() {
    let (mut t, pids) = table_with_users(1);
    let mut s = SchedulerState::new();
    enqueue(&mut s, pids[0]);
    assert!(!timer_tick(&mut s, &mut t));
    assert_eq!(dequeue(&mut s), Some(pids[0]));
}

#[test]
fn block_and_unblock() {
    let (mut t, pids) = table_with_users(2);
    let mut s = SchedulerState::new();
    enqueue(&mut s, pids[0]);
    enqueue(&mut s, pids[1]);
    yield_now(&mut s, &mut t);
    assert_eq!(current_pid(&t), pids[0]);
    block_current(&mut s, &mut t, ProcessState::BlockedRecv);
    assert_eq!(t.get(pids[0]).unwrap().state, ProcessState::BlockedRecv);
    assert_eq!(current_pid(&t), pids[1]);
    unblock(&mut s, &mut t, pids[0]);
    assert_eq!(t.get(pids[0]).unwrap().state, ProcessState::Ready);
    assert_eq!(dequeue(&mut s), Some(pids[0]));
    unblock(&mut s, &mut t, pids[1]);
    assert_eq!(dequeue(&mut s), None);
}

#[test]
fn process_setup_calls() {
    let (mut t, pids) = table_with_users(1);
    assert!(t.set_upcall(pids[0], 0x5000, 0x6000));
    assert_eq!(t.get(pids[0]).unwrap().upcall_handler, Some(0x5000));
    assert!(t.set_syscall_handler(pids[0], 0x7000, 0x8000));
    assert_eq!(t.get(pids[0]).unwrap().syscall_handler_stack, Some(0x8000));
    assert!(!t.set_upcall(ProcessId(99), 1, 2));
    assert!(t.prepare_start(pids[0], 0x1234, 0x5678));
    let p = t.get(pids[0]).unwrap();
    assert_eq!((p.context.rip, p.context.rsp, p.context.cs, p.context.ss), (0x1234, 0x5678, 0x23, 0x1b));
    assert!(!t.prepare_start(ProcessId(99), 0, 0));
}

#[test]
fn spawned_and_created_processes_share_one_id_counter() {
    let mut t = init();
    let a = spawn(&mut t, "a", 0x400000, 0x7000, 0);
    let b = t.create_process("b").unwrap();
    let c = spawn(&mut t, "c", 0x400000, 0x7000, 0);
    assert_eq!((a, b, c), (ProcessId(1), ProcessId(2), ProcessId(3)));
    assert_ne!(a, ProcessId::kernel());
}

#[test]
fn making_a_process_current_leaves_it_the_only_running_one() {
    let mut t = init();
    let a = spawn(&mut t, "a", 0x400000, 0x7000, 0);
    let b = spawn(&mut t, "b", 0x400000, 0x7000, 0);
    assert!(t.set_current(a));
    assert!(t.set_current(b));
    assert_eq!(t.get(ProcessId(0)).unwrap().state, ProcessState::Ready);
    assert_eq!(t.get(a).unwrap().state, ProcessState::Ready);
    assert_eq!(t.get(b).unwrap().state, ProcessState::Running);
    assert_eq!(t.current_pid(), Some(b));
}

#[test]
fn a_created_process_starts_with_no_capability() {
    let mut t = init();
    let pid = t.create_process("child").unwrap();
    let p = t.get(pid).unwrap();
    assert_eq!(p.cap_table.count(), 0);
    assert_eq!(p.state, ProcessState::Ready);
}

#[test]
fn ids_from_a_counter_starting_at_one_increase_and_are_never_the_kernels() {
    let mut next = 1u64;
    let mut last = ProcessId::kernel();
    for _ in 0..5 {
        let id = ProcessId::new(&mut next);
        assert_ne!(id, ProcessId::kernel());
        assert!(id.as_u64() > last.as_u64());
        last = id;
    }
    assert_eq!(last, ProcessId(5));
}
