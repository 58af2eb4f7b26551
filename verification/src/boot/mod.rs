//! The BIOS bootloader's computations: disk address packets and read
//! planning, console output text, VESA mode choice, the unreal-mode GDT, and
//! the boot information handed to the kernel. BIOS calls are made by the
//! caller with what these give.
pub mod info;
pub mod stage1;
pub mod stage2;
