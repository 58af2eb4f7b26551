//! The user-space library (library OS side): memory helpers and a heap
//! allocator, ELF loading of child processes, and the decoding of system-call
//! results.
pub mod elf;
pub mod mem;
pub mod process;
pub mod syscall;
