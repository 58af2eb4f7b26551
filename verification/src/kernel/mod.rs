pub mod allocator;
pub mod caps;
pub mod elf;
pub mod init;
pub mod interrupts;
pub mod memory;
pub mod pci;
pub mod process;
pub mod syscall;
pub mod task;
pub mod userspace;
