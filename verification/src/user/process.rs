//! Process handles and spawn errors.
use vstd::prelude::*;
use crate::shared::caps::CapabilityHandle;
use crate::shared::error::SysError;
use crate::user::elf::ElfError;

verus! {

/// A process handle: a capability to the process.
#[derive(Debug, Clone, Copy, PartialEq, Eq, Structural)]
pub struct Process {
    cap: CapabilityHandle,
}

impl Process {
    /// The capability the handle holds.
    pub closed spec fn capability(&self) -> CapabilityHandle {
        self.cap
    }

    /// A handle for the process that `cap` designates.
    pub fn from_cap(cap: CapabilityHandle) -> (r: Process)
        ensures
            r.capability() == cap,
    {
        Process { cap }
    }

    /// The underlying capability.
    pub fn cap(&self) -> (r: CapabilityHandle)
        ensures
            r == self.capability(),
    {
        self.cap
    }
}

/// Why spawning a process failed.
#[derive(Debug, Clone, Copy, PartialEq, Eq, Structural)]
pub enum SpawnError {
    /// ELF parsing or loading failed
    Elf(ElfError),
    /// A system call failed
    Sys(SysError),
}

impl From<ElfError> for SpawnError {
    fn from(e: ElfError) -> (r: SpawnError) {
        SpawnError::Elf(e)
    }
}

impl vstd::std_specs::convert::FromSpecImpl<ElfError> for SpawnError {
    open spec fn obeys_from_spec() -> bool {
        true
    }

    open spec fn from_spec(e: ElfError) -> SpawnError {
        SpawnError::Elf(e)
    }
}

impl From<SysError> for SpawnError {
    fn from(e: SysError) -> (r: SpawnError) {
        SpawnError::Sys(e)
    }
}

impl vstd::std_specs::convert::FromSpecImpl<SysError> for SpawnError {
    open spec fn obeys_from_spec() -> bool {
        true
    }

    open spec fn from_spec(e: SysError) -> SpawnError {
        SpawnError::Sys(e)
    }
}

} // verus!
