//! CPU context saved across context switches.
use vstd::prelude::*;

verus! {

/// CPU context saved during context switches.
#[derive(Debug, Clone, Copy, PartialEq, Eq, Structural)]
pub struct Context {
    // Callee-saved registers
    pub r15: u64,
    pub r14: u64,
    pub r13: u64,
    pub r12: u64,
    pub rbx: u64,
    pub rbp: u64,
    /// Instruction pointer
    pub rip: u64,
    /// Stack pointer
    pub rsp: u64,
    /// Flags
    pub rflags: u64,
    /// Code segment selector
    pub cs: u64,
    /// Stack segment selector
    pub ss: u64,
}

/// A context with every general register zero, interrupts enabled, and the
/// given instruction pointer, stack pointer and segment selectors.
pub open spec fn fresh_context(rip: u64, rsp: u64, cs: u64, ss: u64) -> Context {
    Context { r15: 0, r14: 0, r13: 0, r12: 0, rbx: 0, rbp: 0, rip, rsp, rflags: 0x202, cs, ss }
}

impl Context {
    /// An empty kernel-mode context (kernel code and data selectors).
    pub fn new() -> (r: Context)
        ensures
            r == fresh_context(0, 0, 0x08, 0x10),
    {
        Context {
            r15: 0,
            r14: 0,
            r13: 0,
            r12: 0,
            rbx: 0,
            rbp: 0,
            rip: 0,
            rsp: 0,
            rflags: 0x202,
            cs: 0x08,
            ss: 0x10,
        }
    }

    /// A user-mode (ring 3) context that starts at `entry_point` with stack `stack_top`.
    pub fn new_user(entry_point: u64, stack_top: u64) -> (r: Context)
        ensures
            r == fresh_context(entry_point, stack_top, 0x23, 0x1b),
    {
        Context {
            r15: 0,
            r14: 0,
            r13: 0,
            r12: 0,
            rbx: 0,
            rbp: 0,
            rip: entry_point,
            rsp: stack_top,
            rflags: 0x202,
            cs: 0x23,
            ss: 0x1b,
        }
    }
}

} // verus!
