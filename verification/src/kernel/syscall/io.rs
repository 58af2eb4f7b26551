//! I/O system calls.
//!
//! Hardware access is delegated to user space through capabilities: IRQ lines
//! are bound to user-space upcalls, and port I/O is checked against the
//! caller's I/O-port capabilities before it is performed.
use vstd::prelude::*;
use crate::kernel::caps::{validate, GlobalCapTable, MAX_TOTAL_CAPS};
use crate::kernel::process::{current_pid, ProcessId, ProcessTable};
use crate::kernel::syscall::{caller, USER_SPACE_END};
use crate::shared::caps::{bits_contain, CapabilityHandle, ResourceType, Rights};
use crate::shared::error::SysError;

verus! {

/// Number of IRQ lines.
pub const MAX_IRQS: usize = 16;

/// An IRQ line bound to a process.
#[derive(Debug, Clone, Copy, PartialEq, Eq, Structural)]
pub struct IrqBinding {
    /// Process that owns this IRQ
    pub owner: ProcessId,
    /// User-space handler address
    pub handler: u64,
    /// Whether the IRQ fired and awaits acknowledgment
    pub pending: bool,
}

/// The IRQ binding table: one entry per line.
pub struct IrqTable {
    bindings: Vec<Option<IrqBinding>>,
}

impl IrqTable {
    /// The binding of each line.
    pub closed spec fn lines(&self) -> Seq<Option<IrqBinding>> {
        self.bindings@
    }

    /// One entry per line.
    pub closed spec fn wf(&self) -> bool {
        self.bindings@.len() == MAX_IRQS
    }

    /// What a well-formed table guarantees: one entry for each of the
    /// `MAX_IRQS` lines.
    pub proof fn lemma_wf_lines(&self)
        requires
            self.wf(),
        ensures
            self.lines().len() == MAX_IRQS,
    {
    }

    /// No line bound.
    pub fn new() -> (r: IrqTable)
        ensures
            r.wf(),
            r.lines() == Seq::new(MAX_IRQS as nat, |i: int| None::<IrqBinding>),
    {
        let mut bindings: Vec<Option<IrqBinding>> = Vec::new();
        let mut i: usize = 0;
        while i < MAX_IRQS
            invariant
                i <= MAX_IRQS,
                bindings@ == Seq::new(i as nat, |k: int| None::<IrqBinding>),
            decreases MAX_IRQS - i,
        {
            bindings.push(None);
            i = i + 1;
        }
        IrqTable { bindings }
    }
}

/// What binding ports `base_port .. base_port + count` through `port_cap`
/// answers for `pid`: the capability must be a current one of `pid`'s, for
/// I/O ports, and cover the range.
pub open spec fn bind_port_result(caps: &GlobalCapTable, pid: u64, port_cap: u64, base_port: u64, count: u64) -> Result<
    i64,
    SysError,
> {
    match caps.validate_result(CapabilityHandle(port_cap), pid, Rights(Rights::NONE)) {
        Err(e) => Err(e),
        Ok(cap) => if cap.resource.resource_type != ResourceType::IoPort {
            Err(SysError::InvalidArgument)
        } else if base_port < cap.resource.base || base_port + count > cap.resource.base + cap.resource.size {
            Err(SysError::InvalidArgument)
        } else {
            Ok(0)
        },
    }
}

/// Binds an I/O port range (args: I/O-port capability, first port, count):
/// the capability is validated and the range must lie within it; the I/O
/// permission bitmap itself is not managed, so nothing else changes.
pub fn sys_io_bind_port(caps: &GlobalCapTable, procs: &ProcessTable, port_cap: u64, base_port: u64, count: u64) -> (r:
    Result<i64, SysError>)
    requires
        caps.wf(),
        procs.wf(),
    ensures
        r == bind_port_result(caps, caller(procs), port_cap, base_port, count),
{
    let pid = current_pid(procs).as_u64();
    let cap = match validate(caps, CapabilityHandle::from_raw(port_cap), pid, Rights(Rights::NONE)) {
        Ok(c) => c,
        Err(e) => return Err(e),
    };
    match cap.resource.resource_type {
        ResourceType::IoPort => {},
        _ => return Err(SysError::InvalidArgument),
    }
    if base_port < cap.resource.base || base_port as u128 + count as u128 > cap.resource.base as u128
        + cap.resource.size as u128 {
        return Err(SysError::InvalidArgument);
    }
    Ok(0)
}

/// Slot `i` holds a current I/O-port capability of `pid` that covers `port`.
pub open spec fn covers_port(caps: &GlobalCapTable, pid: u64, port: u64, i: int) -> bool {
    &&& 0 <= i < MAX_TOTAL_CAPS
    &&& caps.slots()[i] is Some
    &&& caps.slots()[i].unwrap().owner == pid
    &&& caps.lookup(CapabilityHandle(i as u64)) is Ok
    &&& caps.slots()[i].unwrap().resource.resource_type == ResourceType::IoPort
    &&& caps.slots()[i].unwrap().resource.base <= port
    &&& port < caps.slots()[i].unwrap().resource.base + caps.slots()[i].unwrap().resource.size
}

/// Slot `i` holds a current I/O-port capability of `pid` that covers `port`
/// and holds WRITE for a write or READ for a read.
pub open spec fn grants_port(caps: &GlobalCapTable, pid: u64, port: u64, is_write: bool, i: int) -> bool {
    &&& covers_port(caps, pid, port, i)
    &&& bits_contain(
        caps.slots()[i].unwrap().rights.0,
        if is_write {
            Rights::WRITE
        } else {
            Rights::READ
        },
    )
}

/// Whether `pid` may perform a port access: some current I/O-port
/// capability of its own covers the port and holds WRITE for a write or
/// READ for a read.
pub open spec fn port_access(caps: &GlobalCapTable, pid: u64, port: u64, is_write: bool) -> bool {
    exists|i: int| #[trigger] grants_port(caps, pid, port, is_write, i)
}

/// Whether `pid` holds a capability allowing the access.
fn has_port_access(caps: &GlobalCapTable, pid: u64, port: u64, is_write: bool) -> (r: bool)
    requires
        caps.wf(),
    ensures
        r == port_access(caps, pid, port, is_write),
{
    let handles = caps.get_process_caps(pid);
    let mut k: usize = 0;
    while k < handles.len()
        invariant
            caps.wf(),
            k <= handles@.len(),
            forall|m: int| 0 <= m < handles@.len() ==> #[trigger] handles@[m].0 < MAX_TOTAL_CAPS,
            forall|i: int|
                0 <= i < MAX_TOTAL_CAPS ==> (handles@.contains(CapabilityHandle(i as u64)) <==> (
                #[trigger] caps.slots()[i] is Some && caps.slots()[i].unwrap().owner == pid)),
            forall|p: int| 0 <= p < k ==> !grants_port(caps, pid, port, is_write, #[trigger] handles@[p].0 as int),
        decreases handles@.len() - k,
    {
        let h = handles[k];
        let mut allowed = false;
        match caps.get(h) {
            Ok(cap) => {
                match cap.resource.resource_type {
                    ResourceType::IoPort => {
                        let start = cap.resource.base;
                        if port >= start && port - start < cap.resource.size {
                            allowed = if is_write {
                                cap.rights.contains(Rights(Rights::WRITE))
                            } else {
                                cap.rights.contains(Rights(Rights::READ))
                            };
                        }
                    },
                    _ => {},
                }
            },
            Err(_) => {},
        }
        proof {
            assert(handles@.contains(h));
        }
        if allowed {
            proof {
                assert(grants_port(caps, pid, port, is_write, h.0 as int));
            }
            return true;
        }
        proof {
            assert(!grants_port(caps, pid, port, is_write, handles@[k as int].0 as int));
        }
        k = k + 1;
    }
    proof {
        assert forall|x: int| !#[trigger] grants_port(caps, pid, port, is_write, x) by {
            if grants_port(caps, pid, port, is_write, x) {
                assert(handles@.contains(CapabilityHandle(x as u64)));
                let p = choose|p: int| 0 <= p < handles@.len() && handles@[p] == CapabilityHandle(x as u64);
                assert(!grants_port(caps, pid, port, is_write, handles@[p].0 as int));
            }
        }
    }
    false
}

/// A port access to perform once it has been allowed.
#[derive(Debug, Clone, Copy, PartialEq, Eq, Structural)]
pub enum PortOp {
    Write8(u16, u8),
    Write16(u16, u16),
    Write32(u16, u32),
    Read8(u16),
    Read16(u16),
    Read32(u16),
}

/// The access that port I/O of `size` bytes asks for, if the size is one the
/// hardware has (1, 2 or 4).
pub open spec fn port_op_of(port: u64, value: u64, is_write: bool, size: u64) -> Option<PortOp> {
    if size == 1 {
        Some(
            if is_write {
                PortOp::Write8(port as u16, value as u8)
            } else {
                PortOp::Read8(port as u16)
            },
        )
    } else if size == 2 {
        Some(
            if is_write {
                PortOp::Write16(port as u16, value as u16)
            } else {
                PortOp::Read16(port as u16)
            },
        )
    } else if size == 4 {
        Some(
            if is_write {
                PortOp::Write32(port as u16, value as u32)
            } else {
                PortOp::Read32(port as u16)
            },
        )
    } else {
        None
    }
}

/// Truncating a port number to 16 bits and a value to 8, 16 or 32 bits
/// keeps its low bits.
proof fn lemma_truncations(port: u64, value: u64)
    by (bit_vector)
    ensures
        (port as u16) as u64 == port % 0x10000,
        (value as u8) as u64 == value % 0x100,
        (value as u16) as u64 == value % 0x10000,
        (value as u32) as u64 == value % 0x1_0000_0000,
{
}

/// Port I/O happens in the sizes the hardware has, 1, 2 or 4 bytes, and no
/// other; it reads when asked to read and writes when asked to write, on the
/// 16-bit port number given, and a write of `n` bytes carries the low `8n`
/// bits of the value.
pub proof fn lemma_port_op(port: u64, value: u64, is_write: bool, size: u64)
    ensures
        port_op_of(port, value, is_write, size) is Some <==> (size == 1 || size == 2 || size == 4),
        match port_op_of(port, value, is_write, size) {
            Some(PortOp::Write8(p, v)) => is_write && size == 1 && p == port % 0x10000 && v == value % 0x100,
            Some(PortOp::Write16(p, v)) => is_write && size == 2 && p == port % 0x10000 && v == value % 0x10000,
            Some(PortOp::Write32(p, v)) => is_write && size == 4 && p == port % 0x10000 && v == value
                % 0x1_0000_0000,
            Some(PortOp::Read8(p)) => !is_write && size == 1 && p == port % 0x10000,
            Some(PortOp::Read16(p)) => !is_write && size == 2 && p == port % 0x10000,
            Some(PortOp::Read32(p)) => !is_write && size == 4 && p == port % 0x10000,
            None => true,
        },
{
    lemma_truncations(port, value);
}

/// Port I/O (args: port, value, write flag, size 1/2/4): checks that the
/// caller holds a capability covering the port with the right to read or
/// write it, and gives the access to perform (a write answers 0, a read the
/// value read).
pub fn sys_io_port(caps: &GlobalCapTable, procs: &ProcessTable, port: u64, value: u64, is_write: u64, size: u64) -> (r:
    Result<PortOp, SysError>)
    requires
        caps.wf(),
        procs.wf(),
    ensures
        !port_access(caps, caller(procs), port, is_write != 0) ==> r == Err::<PortOp, SysError>(
            SysError::PortAccessDenied,
        ),
        port_access(caps, caller(procs), port, is_write != 0) ==> r == match port_op_of(
            port,
            value,
            is_write != 0,
            size,
        ) {
            Some(op) => Ok::<PortOp, SysError>(op),
            None => Err(SysError::InvalidArgument),
        },
{
    let pid = current_pid(procs).as_u64();
    let write = is_write != 0;
    if !has_port_access(caps, pid, port, write) {
        return Err(SysError::PortAccessDenied);
    }
    let port_num = port as u16;
    match size {
        1 => Ok(
            if write {
                PortOp::Write8(port_num, value as u8)
            } else {
                PortOp::Read8(port_num)
            },
        ),
        2 => Ok(
            if write {
                PortOp::Write16(port_num, value as u16)
            } else {
                PortOp::Read16(port_num)
            },
        ),
        4 => Ok(
            if write {
                PortOp::Write32(port_num, value as u32)
            } else {
                PortOp::Read32(port_num)
            },
        ),
        _ => Err(SysError::InvalidArgument),
    }
}

/// Why the capability `irq_cap` does not name a usable IRQ line for `pid`
/// with `right`, or the line it names.
pub open spec fn irq_line_of(caps: &GlobalCapTable, pid: u64, irq_cap: u64, right: u32) -> Result<u64, SysError> {
    match caps.validate_result(CapabilityHandle(irq_cap), pid, Rights(right)) {
        Err(e) => Err(e),
        Ok(cap) => if cap.resource.resource_type != ResourceType::Irq {
            Err(SysError::InvalidArgument)
        } else if cap.resource.base >= MAX_IRQS {
            Err(SysError::InvalidArgument)
        } else {
            Ok(cap.resource.base)
        },
    }
}

fn irq_line(caps: &GlobalCapTable, pid: u64, irq_cap: u64, right: u32) -> (r: Result<usize, SysError>)
    requires
        caps.wf(),
    ensures
        match irq_line_of(caps, pid, irq_cap, right) {
            Ok(n) => r == Ok::<usize, SysError>(n as usize),
            Err(e) => r == Err::<usize, SysError>(e),
        },
{
    let cap = match validate(caps, CapabilityHandle::from_raw(irq_cap), pid, Rights(right)) {
        Ok(c) => c,
        Err(e) => return Err(e),
    };
    match cap.resource.resource_type {
        ResourceType::Irq => {},
        _ => return Err(SysError::InvalidArgument),
    }
    if cap.resource.base >= MAX_IRQS as u64 {
        return Err(SysError::InvalidArgument);
    }
    Ok(cap.resource.base as usize)
}

/// What binding through `irq_cap` with `handler` by `pid` answers, and the
/// lines after: a line bound to another process stays so; the caller may
/// bind its own line again.
pub open spec fn irq_bind_outcome(
    caps: &GlobalCapTable,
    pid: u64,
    irq_cap: u64,
    handler: u64,
    lines: Seq<Option<IrqBinding>>,
) -> (Result<i64, SysError>, Seq<Option<IrqBinding>>) {
    match irq_line_of(caps, pid, irq_cap, Rights::BIND) {
        Err(e) => (Err(e), lines),
        Ok(n) => if handler >= USER_SPACE_END {
            (Err(SysError::BadAddress), lines)
        } else if lines[n as int] matches Some(b) && b.owner.0 != pid {
            (Err(SysError::IrqAlreadyBound), lines)
        } else {
            (Ok(0), lines.update(n as int, Some(IrqBinding { owner: ProcessId(pid), handler, pending: false })))
        },
    }
}

/// What acknowledging through `irq_cap` by `pid` answers, and the lines
/// after: only the owner of a bound line may, and the line stops pending.
pub open spec fn irq_ack_outcome(caps: &GlobalCapTable, pid: u64, irq_cap: u64, lines: Seq<Option<IrqBinding>>) -> (
    Result<i64, SysError>,
    Seq<Option<IrqBinding>>,
) {
    match irq_line_of(caps, pid, irq_cap, Rights::ACK) {
        Err(e) => (Err(e), lines),
        Ok(n) => match lines[n as int] {
            None => (Err(SysError::InvalidArgument), lines),
            Some(b) => if b.owner.0 != pid {
                (Err(SysError::NotPermitted), lines)
            } else {
                (Ok(0), lines.update(n as int, Some(IrqBinding { pending: false, ..b })))
            },
        },
    }
}

/// Where interrupt `irq_num` is delivered (the owner and handler of a bound
/// line, none otherwise), and the lines after: a bound line becomes pending.
pub open spec fn irq_dispatch_outcome(lines: Seq<Option<IrqBinding>>, irq_num: int) -> (
    Option<(ProcessId, u64)>,
    Seq<Option<IrqBinding>>,
) {
    if irq_num < 0 || irq_num >= MAX_IRQS {
        (None, lines)
    } else {
        match lines[irq_num] {
            None => (None, lines),
            Some(b) => (Some((b.owner, b.handler)), lines.update(irq_num, Some(IrqBinding { pending: true, ..b }))),
        }
    }
}

/// Binding a line delivers it: after `pid` binds the line its capability
/// names with `handler`, an interrupt on that line goes to `pid` at
/// `handler`, and leaves the line pending until `pid` acknowledges it.
pub proof fn lemma_bind_then_dispatch(
    caps: &GlobalCapTable,
    pid: u64,
    irq_cap: u64,
    handler: u64,
    lines: Seq<Option<IrqBinding>>,
)
    requires
        lines.len() == MAX_IRQS,
        irq_bind_outcome(caps, pid, irq_cap, handler, lines).0 == Ok::<i64, SysError>(0),
    ensures
        ({
            let n = irq_line_of(caps, pid, irq_cap, Rights::BIND)->Ok_0 as int;
            let bound = irq_bind_outcome(caps, pid, irq_cap, handler, lines).1;
            let fired = irq_dispatch_outcome(bound, n);
            &&& fired.0 == Some((ProcessId(pid), handler))
            &&& fired.1[n] == Some(IrqBinding { owner: ProcessId(pid), handler, pending: true })
        }),
{
}

/// Acknowledging re-arms a delivered line: after an interrupt on a line
/// bound to `pid`, `pid`'s acknowledgement through a capability naming that
/// line succeeds and the line is bound as before, no longer pending.
pub proof fn lemma_dispatch_then_ack(
    caps: &GlobalCapTable,
    pid: u64,
    irq_cap: u64,
    lines: Seq<Option<IrqBinding>>,
    b: IrqBinding,
)
    requires
        lines.len() == MAX_IRQS,
        irq_line_of(caps, pid, irq_cap, Rights::ACK) is Ok,
        lines[irq_line_of(caps, pid, irq_cap, Rights::ACK)->Ok_0 as int] == Some(b),
        b.owner.0 == pid,
    ensures
        ({
            let n = irq_line_of(caps, pid, irq_cap, Rights::ACK)->Ok_0 as int;
            let fired = irq_dispatch_outcome(lines, n);
            let acked = irq_ack_outcome(caps, pid, irq_cap, fired.1);
            &&& acked.0 == Ok::<i64, SysError>(0)
            &&& acked.1[n] == Some(IrqBinding { pending: false, ..b })
        }),
{
}

/// Binding keeps other processes' lines: a line bound to another process is
/// refused and nothing changes.
pub proof fn lemma_bound_line_is_kept(
    caps: &GlobalCapTable,
    pid: u64,
    irq_cap: u64,
    handler: u64,
    lines: Seq<Option<IrqBinding>>,
)
    requires
        lines.len() == MAX_IRQS,
        irq_line_of(caps, pid, irq_cap, Rights::BIND) is Ok,
        handler < USER_SPACE_END,
        lines[irq_line_of(caps, pid, irq_cap, Rights::BIND)->Ok_0 as int] matches Some(b) && b.owner.0 != pid,
    ensures
        irq_bind_outcome(caps, pid, irq_cap, handler, lines) == (Err::<i64, SysError>(SysError::IrqAlreadyBound), lines),
{
}

/// Binds an IRQ line to the caller (args: IRQ capability with BIND, handler
/// address in user space). A line bound to another process stays so; the
/// caller may bind its own line again. When the IRQ fires, the process gets
/// an upcall.
pub fn sys_irq_bind(
    irqs: &mut IrqTable,
    caps: &GlobalCapTable,
    procs: &ProcessTable,
    irq_cap: u64,
    handler_addr: u64,
) -> (r: Result<i64, SysError>)
    requires
        old(irqs).wf(),
        caps.wf(),
        procs.wf(),
    ensures
        final(irqs).wf(),
        r == irq_bind_outcome(caps, caller(procs), irq_cap, handler_addr, old(irqs).lines()).0,
        final(irqs).lines() == irq_bind_outcome(caps, caller(procs), irq_cap, handler_addr, old(irqs).lines()).1,
{
    let pid = current_pid(procs);
    let irq_num = match irq_line(caps, pid.as_u64(), irq_cap, Rights::BIND) {
        Ok(n) => n,
        Err(e) => return Err(e),
    };
    if handler_addr >= USER_SPACE_END {
        return Err(SysError::BadAddress);
    }
    if let Some(existing) = irqs.bindings[irq_num] {
        if existing.owner.0 != pid.0 {
            return Err(SysError::IrqAlreadyBound);
        }
    }
    irqs.bindings.set(irq_num, Some(IrqBinding { owner: pid, handler: handler_addr, pending: false }));
    Ok(0)
}

/// Acknowledges an IRQ (arg: IRQ capability with ACK): the line, bound to the
/// caller, is no longer pending, and the next interrupt can be delivered.
pub fn sys_irq_ack(irqs: &mut IrqTable, caps: &GlobalCapTable, procs: &ProcessTable, irq_cap: u64) -> (r:
    Result<i64, SysError>)
    requires
        old(irqs).wf(),
        caps.wf(),
        procs.wf(),
    ensures
        final(irqs).wf(),
        r == irq_ack_outcome(caps, caller(procs), irq_cap, old(irqs).lines()).0,
        final(irqs).lines() == irq_ack_outcome(caps, caller(procs), irq_cap, old(irqs).lines()).1,
{
    let pid = current_pid(procs);
    let irq_num = match irq_line(caps, pid.as_u64(), irq_cap, Rights::ACK) {
        Ok(n) => n,
        Err(e) => return Err(e),
    };
    match irqs.bindings[irq_num] {
        Some(binding) => {
            if binding.owner.0 != pid.0 {
                return Err(SysError::NotPermitted);
            }
            irqs.bindings.set(irq_num, Some(IrqBinding { pending: false, ..binding }));
            Ok(0)
        },
        None => Err(SysError::InvalidArgument),
    }
}

/// Dispatches an IRQ to user space (from the interrupt handlers): a bound
/// line becomes pending and its owner and handler are given.
pub fn dispatch_irq(irqs: &mut IrqTable, irq_num: usize) -> (r: Option<(ProcessId, u64)>)
    requires
        old(irqs).wf(),
    ensures
        final(irqs).wf(),
        r == irq_dispatch_outcome(old(irqs).lines(), irq_num as int).0,
        final(irqs).lines() == irq_dispatch_outcome(old(irqs).lines(), irq_num as int).1,
{
    if irq_num >= MAX_IRQS {
        return None;
    }
    match irqs.bindings[irq_num] {
        Some(binding) => {
            irqs.bindings.set(irq_num, Some(IrqBinding { pending: true, ..binding }));
            Some((binding.owner, binding.handler))
        },
        None => None,
    }
}

/// Whether an IRQ line is bound to user space.
pub fn irq_is_bound(irqs: &IrqTable, irq_num: usize) -> (r: bool)
    requires
        irqs.wf(),
    ensures
        r == (irq_num < MAX_IRQS && irqs.lines()[irq_num as int] is Some),
{
    if irq_num >= MAX_IRQS {
        return false;
    }
    irqs.bindings[irq_num].is_some()
}

/// DMA buffer allocation: not provided.
pub fn sys_dma_alloc(size: u64, flags: u64) -> (r: Result<i64, SysError>)
    ensures
        r == Err::<i64, SysError>(SysError::NotPermitted),
{
    Err(SysError::NotPermitted)
}

/// Physical address of a DMA buffer: not provided.
pub fn sys_dma_get_phys(dma_cap: u64) -> (r: Result<i64, SysError>)
    ensures
        r == Err::<i64, SysError>(SysError::NotPermitted),
{
    Err(SysError::NotPermitted)
}

} // verus!
