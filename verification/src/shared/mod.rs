pub mod caps;
pub mod error;
pub mod syscall;
pub mod ipc;
