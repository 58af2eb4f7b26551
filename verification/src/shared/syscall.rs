//! System-call numbers and flag types.
//!
//! The exokernel's system-call interface is minimal: capability management,
//! memory binding, process/CPU management, IPC and I/O binding.
use vstd::prelude::*;

verus! {

/// System-call numbers.
#[derive(Debug, Clone, Copy, PartialEq, Eq, Structural)]
pub enum Syscall {
    /// Grant a new capability. Args: resource_type, base, size, rights
    CapGrant,
    /// Revoke a capability and all derived capabilities. Args: cap_handle
    CapRevoke,
    /// Delegate a capability to another process with possible attenuation. Args: cap_handle, target_pid, new_rights
    CapDelegate,
    /// Inspect a capability's properties. Args: cap_handle, info_ptr
    CapInspect,
    /// Drop a capability voluntarily. Args: cap_handle
    CapDrop,
    /// Allocate physical memory frames. Args: frame_count, flags
    MemAllocPhys,
    /// Map physical frames at a virtual address. Args: phys_cap, virt_addr, flags
    MemMap,
    /// Unmap a virtual address range. Args: virt_addr, size
    MemUnmap,
    /// Change protection on a virtual address range. Args: virt_addr, size, flags
    MemProtect,
    /// Query the physical address of a virtual address. Args: virt_addr
    MemQuery,
    /// Create a new process. Args: entry_point, stack_top, flags
    ProcessCreate,
    /// Destroy a process. Args: process_cap
    ProcessDestroy,
    /// Get the current process ID
    ProcessGetPid,
    /// Exit the current process. Args: exit_code
    ProcessExit,
    /// Yield the CPU to the scheduler
    ProcessYield,
    /// Set the upcall handler for async events. Args: handler_addr, stack_addr
    ProcessSetUpcall,
    /// Start a created process. Args: process_cap, entry_point, stack_top
    ProcessStart,
    /// Set the handler that unknown system calls are forwarded to. Args: handler_addr, stack_addr
    ProcessSetSyscallHandler,
    /// Create an IPC endpoint. Args: flags
    IpcCreateEndpoint,
    /// Send a message to an endpoint. Args: endpoint_cap, msg_ptr, msg_len, caps_ptr, caps_count
    IpcSend,
    /// Receive a message from an endpoint. Args: endpoint_cap, buf_ptr, buf_len, caps_buf_ptr, caps_buf_len
    IpcRecv,
    /// Synchronous call (send and wait for the reply)
    IpcCall,
    /// Reply to a call
    IpcReply,
    /// Bind I/O port access. Args: port_cap, base_port, count
    IoBindPort,
    /// Port I/O. Args: port, value, is_write, size
    IoPort,
    /// Bind an IRQ to an upcall. Args: irq_cap, handler_addr
    IrqBind,
    /// Acknowledge an IRQ. Args: irq_cap
    IrqAck,
    /// Allocate a DMA buffer. Args: size, flags
    DmaAlloc,
    /// Physical address of a DMA buffer. Args: dma_cap
    DmaGetPhys,
    /// Debug print. Args: string_ptr, length
    DebugPrint,
    /// Debug: dump the capability table
    DebugDumpCaps,
}

/// The number of each system call.
pub open spec fn syscall_number(s: Syscall) -> u64 {
    match s {
        Syscall::CapGrant => 0x00u64,
        Syscall::CapRevoke => 0x01u64,
        Syscall::CapDelegate => 0x02u64,
        Syscall::CapInspect => 0x03u64,
        Syscall::CapDrop => 0x04u64,
        Syscall::MemAllocPhys => 0x10u64,
        Syscall::MemMap => 0x11u64,
        Syscall::MemUnmap => 0x12u64,
        Syscall::MemProtect => 0x13u64,
        Syscall::MemQuery => 0x14u64,
        Syscall::ProcessCreate => 0x20u64,
        Syscall::ProcessDestroy => 0x21u64,
        Syscall::ProcessGetPid => 0x22u64,
        Syscall::ProcessExit => 0x23u64,
        Syscall::ProcessYield => 0x24u64,
        Syscall::ProcessSetUpcall => 0x25u64,
        Syscall::ProcessStart => 0x26u64,
        Syscall::ProcessSetSyscallHandler => 0x27u64,
        Syscall::IpcCreateEndpoint => 0x30u64,
        Syscall::IpcSend => 0x31u64,
        Syscall::IpcRecv => 0x32u64,
        Syscall::IpcCall => 0x33u64,
        Syscall::IpcReply => 0x34u64,
        Syscall::IoBindPort => 0x40u64,
        Syscall::IoPort => 0x41u64,
        Syscall::IrqBind => 0x42u64,
        Syscall::IrqAck => 0x43u64,
        Syscall::DmaAlloc => 0x44u64,
        Syscall::DmaGetPhys => 0x45u64,
        Syscall::DebugPrint => 0xf0u64,
        Syscall::DebugDumpCaps => 0xf1u64,
    }
}

/// The system call a number stands for, if any.
pub open spec fn syscall_from_number(num: u64) -> Option<Syscall> {
    if num == 0x00 {
        Some(Syscall::CapGrant)
    } else if num == 0x01 {
        Some(Syscall::CapRevoke)
    } else if num == 0x02 {
        Some(Syscall::CapDelegate)
    } else if num == 0x03 {
        Some(Syscall::CapInspect)
    } else if num == 0x04 {
        Some(Syscall::CapDrop)
    } else if num == 0x10 {
        Some(Syscall::MemAllocPhys)
    } else if num == 0x11 {
        Some(Syscall::MemMap)
    } else if num == 0x12 {
        Some(Syscall::MemUnmap)
    } else if num == 0x13 {
        Some(Syscall::MemProtect)
    } else if num == 0x14 {
        Some(Syscall::MemQuery)
    } else if num == 0x20 {
        Some(Syscall::ProcessCreate)
    } else if num == 0x21 {
        Some(Syscall::ProcessDestroy)
    } else if num == 0x22 {
        Some(Syscall::ProcessGetPid)
    } else if num == 0x23 {
        Some(Syscall::ProcessExit)
    } else if num == 0x24 {
        Some(Syscall::ProcessYield)
    } else if num == 0x25 {
        Some(Syscall::ProcessSetUpcall)
    } else if num == 0x26 {
        Some(Syscall::ProcessStart)
    } else if num == 0x27 {
        Some(Syscall::ProcessSetSyscallHandler)
    } else if num == 0x30 {
        Some(Syscall::IpcCreateEndpoint)
    } else if num == 0x31 {
        Some(Syscall::IpcSend)
    } else if num == 0x32 {
        Some(Syscall::IpcRecv)
    } else if num == 0x33 {
        Some(Syscall::IpcCall)
    } else if num == 0x34 {
        Some(Syscall::IpcReply)
    } else if num == 0x40 {
        Some(Syscall::IoBindPort)
    } else if num == 0x41 {
        Some(Syscall::IoPort)
    } else if num == 0x42 {
        Some(Syscall::IrqBind)
    } else if num == 0x43 {
        Some(Syscall::IrqAck)
    } else if num == 0x44 {
        Some(Syscall::DmaAlloc)
    } else if num == 0x45 {
        Some(Syscall::DmaGetPhys)
    } else if num == 0xf0 {
        Some(Syscall::DebugPrint)
    } else if num == 0xf1 {
        Some(Syscall::DebugDumpCaps)
    } else {
        None
    }
}

impl Syscall {
    pub fn from_num(num: u64) -> (r: Option<Syscall>)
        ensures
            r == syscall_from_number(num),
    {
        match num {
            0x00 => Some(Syscall::CapGrant),
            0x01 => Some(Syscall::CapRevoke),
            0x02 => Some(Syscall::CapDelegate),
            0x03 => Some(Syscall::CapInspect),
            0x04 => Some(Syscall::CapDrop),
            0x10 => Some(Syscall::MemAllocPhys),
            0x11 => Some(Syscall::MemMap),
            0x12 => Some(Syscall::MemUnmap),
            0x13 => Some(Syscall::MemProtect),
            0x14 => Some(Syscall::MemQuery),
            0x20 => Some(Syscall::ProcessCreate),
            0x21 => Some(Syscall::ProcessDestroy),
            0x22 => Some(Syscall::ProcessGetPid),
            0x23 => Some(Syscall::ProcessExit),
            0x24 => Some(Syscall::ProcessYield),
            0x25 => Some(Syscall::ProcessSetUpcall),
            0x26 => Some(Syscall::ProcessStart),
            0x27 => Some(Syscall::ProcessSetSyscallHandler),
            0x30 => Some(Syscall::IpcCreateEndpoint),
            0x31 => Some(Syscall::IpcSend),
            0x32 => Some(Syscall::IpcRecv),
            0x33 => Some(Syscall::IpcCall),
            0x34 => Some(Syscall::IpcReply),
            0x40 => Some(Syscall::IoBindPort),
            0x41 => Some(Syscall::IoPort),
            0x42 => Some(Syscall::IrqBind),
            0x43 => Some(Syscall::IrqAck),
            0x44 => Some(Syscall::DmaAlloc),
            0x45 => Some(Syscall::DmaGetPhys),
            0xf0 => Some(Syscall::DebugPrint),
            0xf1 => Some(Syscall::DebugDumpCaps),
            _ => None,
        }
    }

    pub fn as_num(&self) -> (r: u64)
        ensures
            r == syscall_number(*self),
    {
        match self {
            Syscall::CapGrant => 0x00,
            Syscall::CapRevoke => 0x01,
            Syscall::CapDelegate => 0x02,
            Syscall::CapInspect => 0x03,
            Syscall::CapDrop => 0x04,
            Syscall::MemAllocPhys => 0x10,
            Syscall::MemMap => 0x11,
            Syscall::MemUnmap => 0x12,
            Syscall::MemProtect => 0x13,
            Syscall::MemQuery => 0x14,
            Syscall::ProcessCreate => 0x20,
            Syscall::ProcessDestroy => 0x21,
            Syscall::ProcessGetPid => 0x22,
            Syscall::ProcessExit => 0x23,
            Syscall::ProcessYield => 0x24,
            Syscall::ProcessSetUpcall => 0x25,
            Syscall::ProcessStart => 0x26,
            Syscall::ProcessSetSyscallHandler => 0x27,
            Syscall::IpcCreateEndpoint => 0x30,
            Syscall::IpcSend => 0x31,
            Syscall::IpcRecv => 0x32,
            Syscall::IpcCall => 0x33,
            Syscall::IpcReply => 0x34,
            Syscall::IoBindPort => 0x40,
            Syscall::IoPort => 0x41,
            Syscall::IrqBind => 0x42,
            Syscall::IrqAck => 0x43,
            Syscall::DmaAlloc => 0x44,
            Syscall::DmaGetPhys => 0x45,
            Syscall::DebugPrint => 0xf0,
            Syscall::DebugDumpCaps => 0xf1,
        }
    }
}

/// Numbering and decoding are inverse: every system call decodes from its own
/// number, a number decodes only to the call that has it, and no two calls
/// share a number.
pub proof fn lemma_syscall_number_roundtrip(s: Syscall, t: Syscall, num: u64)
    ensures
        syscall_from_number(syscall_number(s)) == Some(s),
        syscall_from_number(num) == Some(t) ==> syscall_number(t) == num,
        syscall_number(s) == syscall_number(t) ==> s == t,
{
}

/// Flags for memory allocation.
#[derive(Debug, Clone, Copy)]
pub struct MemFlags(pub u64);

impl core::ops::BitOr for MemFlags {
    type Output = MemFlags;

    /// Both sets of flags.
    fn bitor(self, rhs: MemFlags) -> (r: MemFlags)
        ensures
            r.0 == self.0 | rhs.0,
    {
        MemFlags(self.0 | rhs.0)
    }
}

impl vstd::std_specs::ops::BitOrSpecImpl for MemFlags {
    open spec fn obeys_bitor_spec() -> bool {
        true
    }

    open spec fn bitor_req(self, rhs: MemFlags) -> bool {
        true
    }

    open spec fn bitor_spec(self, rhs: MemFlags) -> MemFlags {
        MemFlags(self.0 | rhs.0)
    }
}

impl MemFlags {
    pub const NONE: u64 = 0x0;
    /// Memory must be contiguous in physical space
    pub const CONTIGUOUS: u64 = 0x1;
    /// Memory must be below 4GB (for legacy DMA)
    pub const DMA32: u64 = 0x2;
    /// Memory should be zeroed
    pub const ZEROED: u64 = 0x4;
    /// Memory is uncacheable (for MMIO)
    pub const UNCACHEABLE: u64 = 0x8;
    /// Memory is write-combining
    pub const WRITE_COMBINING: u64 = 0x10;

    pub fn contains(&self, other: MemFlags) -> (r: bool)
        ensures
            r == (self.0 & other.0 == other.0),
    {
        (self.0 & other.0) == other.0
    }
}

/// Flags for process creation.
#[derive(Debug, Clone, Copy)]
pub struct ProcessFlags(pub u64);

impl ProcessFlags {
    pub const NONE: u64 = 0x0;
    /// The process should start suspended
    pub const SUSPENDED: u64 = 0x1;
    /// The process has access to all I/O ports
    pub const IOPL3: u64 = 0x2;
}

/// IPC message header (used in shared memory).
#[derive(Debug, Clone, Copy)]
pub struct IpcMessage {
    /// Length of message data
    pub data_len: u32,
    /// Number of capabilities being transferred
    pub cap_count: u32,
    /// Sender PID (filled in by the kernel)
    pub sender_pid: u64,
    /// Message tag (application-defined)
    pub tag: u64,
}

} // verus!
