//! Tasks and their identifiers.
use vstd::prelude::*;
use crate::kernel::process::wrapping_next;
use crate::kernel::task::context::{task_context, Context};

verus! {

/// Unique task identifier.
#[derive(Debug, Clone, Copy, PartialEq, Eq, Structural, Hash)]
pub struct ProcessId(pub u64);

impl ProcessId {
    /// A new identifier, taken from the counter `next_pid` (which then moves
    /// on, wrapping at `u64::MAX`).
    pub fn new(next_pid: &mut u64) -> (r: ProcessId)
        ensures
            r.0 == *old(next_pid),
            *final(next_pid) == wrapping_next(*old(next_pid)),
    {
        let pid = *next_pid;
        *next_pid = next_pid.wrapping_add(1);
        ProcessId(pid)
    }

    /// The kernel's identifier (always 0).
    pub fn kernel() -> (r: ProcessId)
        ensures
            r.0 == 0,
    {
        ProcessId(0)
    }
}

/// Task state.
#[derive(Debug, Clone, Copy, PartialEq, Eq, Structural)]
pub enum ProcessState {
    /// Ready to run
    Ready,
    /// Running
    Running,
    /// Blocked waiting for something
    Blocked,
    /// Terminated
    Terminated,
}

/// Size of each task's kernel stack (16 KiB).
pub const TASK_KERNEL_STACK_SIZE: usize = 16384;

/// A task.
pub struct Process {
    pub pid: ProcessId,
    pub state: ProcessState,
    /// Saved CPU context
    pub context: Context,
    /// Kernel stack (used during system calls)
    pub kernel_stack: Vec<u8>,
    /// User stack top (user tasks)
    pub user_stack_top: u64,
    /// Kernel or user task
    pub is_kernel: bool,
    /// Page table root (CR3)
    pub page_table_root: u64,
    /// Name (for debugging)
    pub name: &'static str,
}

impl Process {
    /// A new kernel task, ready, entered at `entry_point` on its own zeroed
    /// kernel stack whose top is `stack_top`, sharing the kernel page table
    /// `page_table_root`.
    pub fn new_kernel(
        name: &'static str,
        entry_point: u64,
        stack_top: u64,
        page_table_root: u64,
        next_pid: &mut u64,
    ) -> (r: Process)
        ensures
            r.pid.0 == *old(next_pid),
            *final(next_pid) == wrapping_next(*old(next_pid)),
            r.state == ProcessState::Ready,
            r.context == task_context(entry_point, stack_top, 0x08, 0x10),
            r.kernel_stack@ == Seq::new(TASK_KERNEL_STACK_SIZE as nat, |i: int| 0u8),
            r.user_stack_top == 0,
            r.is_kernel,
            r.page_table_root == page_table_root,
            r.name == name,
    {
        let kernel_stack = vec![0u8; TASK_KERNEL_STACK_SIZE];
        Process {
            pid: ProcessId::new(next_pid),
            state: ProcessState::Ready,
            context: Context::new_kernel(entry_point, stack_top),
            kernel_stack,
            user_stack_top: 0,
            is_kernel: true,
            page_table_root,
            name,
        }
    }

    /// A new user task, ready, entered at `entry_point` with user stack
    /// `user_stack_top` and page table `page_table_root` (both set up
    /// separately).
    pub fn new_user(
        name: &'static str,
        entry_point: u64,
        user_stack_top: u64,
        page_table_root: u64,
        next_pid: &mut u64,
    ) -> (r: Process)
        ensures
            r.pid.0 == *old(next_pid),
            *final(next_pid) == wrapping_next(*old(next_pid)),
            r.state == ProcessState::Ready,
            r.context == task_context(entry_point, user_stack_top, 0x1b, 0x23),
            r.kernel_stack@ == Seq::new(TASK_KERNEL_STACK_SIZE as nat, |i: int| 0u8),
            r.user_stack_top == user_stack_top,
            !r.is_kernel,
            r.page_table_root == page_table_root,
            r.name == name,
    {
        let kernel_stack = vec![0u8; TASK_KERNEL_STACK_SIZE];
        Process {
            pid: ProcessId::new(next_pid),
            state: ProcessState::Ready,
            context: Context::new_user(entry_point, user_stack_top),
            kernel_stack,
            user_stack_top,
            is_kernel: false,
            page_table_root,
            name,
        }
    }
}

} // verus!
