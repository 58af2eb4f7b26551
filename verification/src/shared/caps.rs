//! Capability system types.
//!
//! Capabilities are unforgeable tokens that grant specific rights to specific
//! resources. The kernel tracks them in a capability table, and every access to
//! a resource goes through a capability check.
use vstd::prelude::*;

verus! {

/// A capability handle: an index into a capability table.
#[derive(Debug, Clone, Copy, PartialEq, Eq, Structural, Hash)]
pub struct CapabilityHandle(pub u64);

impl CapabilityHandle {
    /// Raw value of the null handle.
    pub const NULL_RAW: u64 = 0;

    /// The null handle (slot 0 is never a capability).
    pub fn null() -> (r: CapabilityHandle)
        ensures
            r.0 == 0,
    {
        CapabilityHandle(0)
    }

    pub fn is_null(&self) -> (r: bool)
        ensures
            r == (self.0 == 0),
    {
        self.0 == 0
    }

    pub fn from_raw(raw: u64) -> (r: CapabilityHandle)
        ensures
            r.0 == raw,
    {
        CapabilityHandle(raw)
    }

    pub fn as_raw(&self) -> (r: u64)
        ensures
            r == self.0,
    {
        self.0
    }
}

/// Generation counter for capability revocation: bumping the table's
/// generation invalidates every capability created under an older one.
#[derive(Debug, Clone, Copy, PartialEq, Eq, Structural)]
pub struct Generation(pub u64);

/// The value that follows `g`, wrapping at `u64::MAX`.
pub open spec fn next_generation(g: u64) -> u64 {
    if g == u64::MAX {
        0
    } else {
        (g + 1) as u64
    }
}

impl Generation {
    /// Raw value of the first generation.
    pub const INITIAL_RAW: u64 = 1;

    pub fn initial() -> (r: Generation)
        ensures
            r.0 == 1,
    {
        Generation(1)
    }

    pub fn next(&self) -> (r: Generation)
        ensures
            r.0 == next_generation(self.0),
    {
        Generation(self.0.wrapping_add(1))
    }

    pub fn is_valid(&self, current: Generation) -> (r: bool)
        ensures
            r == (self.0 == current.0),
    {
        self.0 == current.0
    }
}

/// Kinds of resources that capabilities protect.
#[derive(Debug, Clone, Copy, PartialEq, Eq, Structural)]
pub enum ResourceType {
    /// Null/invalid capability
    Null,
    /// Physical memory frames
    PhysicalMemory,
    /// Virtual address space region
    VirtualMemory,
    /// I/O port range
    IoPort,
    /// IRQ line
    Irq,
    /// IPC endpoint
    IpcEndpoint,
    /// Process handle
    Process,
    /// DMA buffer
    DmaBuffer,
    /// Device MMIO region
    DeviceMmio,
}

/// Rights that a capability grants on its resource, as a bit set.
#[derive(Debug, Clone, Copy, PartialEq, Eq, Structural)]
pub struct Rights(pub u32);

/// `a` holds every bit of `b`.
pub open spec fn bits_contain(a: u32, b: u32) -> bool {
    a & b == b
}

impl core::ops::BitOr for Rights {
    type Output = Rights;

    /// The union of two sets of rights.
    fn bitor(self, rhs: Rights) -> (r: Rights)
        ensures
            r.0 == self.0 | rhs.0,
    {
        Rights(self.0 | rhs.0)
    }
}

impl vstd::std_specs::ops::BitOrSpecImpl for Rights {
    open spec fn obeys_bitor_spec() -> bool {
        true
    }

    open spec fn bitor_req(self, rhs: Rights) -> bool {
        true
    }

    open spec fn bitor_spec(self, rhs: Rights) -> Rights {
        Rights(self.0 | rhs.0)
    }
}

impl core::ops::BitAnd for Rights {
    type Output = Rights;

    /// The rights two sets share.
    fn bitand(self, rhs: Rights) -> (r: Rights)
        ensures
            r.0 == self.0 & rhs.0,
    {
        Rights(self.0 & rhs.0)
    }
}

impl vstd::std_specs::ops::BitAndSpecImpl for Rights {
    open spec fn obeys_bitand_spec() -> bool {
        true
    }

    open spec fn bitand_req(self, rhs: Rights) -> bool {
        true
    }

    open spec fn bitand_spec(self, rhs: Rights) -> Rights {
        Rights(self.0 & rhs.0)
    }
}

impl Rights {
    pub const NONE: u32 = 0x0;
    pub const READ: u32 = 0x1;
    pub const WRITE: u32 = 0x2;
    pub const EXECUTE: u32 = 0x4;
    pub const MAP: u32 = 0x8;
    /// Can grant to others
    pub const GRANT: u32 = 0x10;
    /// Can delegate with attenuation
    pub const DELEGATE: u32 = 0x20;
    pub const KILL: u32 = 0x40;
    pub const SUSPEND: u32 = 0x80;
    pub const RESUME: u32 = 0x100;
    pub const SEND: u32 = 0x200;
    pub const RECEIVE: u32 = 0x400;
    /// Synchronous call
    pub const CALL: u32 = 0x800;
    pub const BIND: u32 = 0x1000;
    pub const ACK: u32 = 0x2000;
    /// Can revoke this capability and derived ones
    pub const REVOKE: u32 = 0x4000;
    pub const READ_WRITE: u32 = 0x3;
    pub const ALL: u32 = 0xFFFF_FFFF;

    pub fn contains(&self, other: Rights) -> (r: bool)
        ensures
            r == bits_contain(self.0, other.0),
    {
        (self.0 & other.0) == other.0
    }

    pub fn union(&self, other: Rights) -> (r: Rights)
        ensures
            r.0 == self.0 | other.0,
    {
        Rights(self.0 | other.0)
    }

    pub fn intersection(&self, other: Rights) -> (r: Rights)
        ensures
            r.0 == self.0 & other.0,
    {
        Rights(self.0 & other.0)
    }

    pub fn subtract(&self, other: Rights) -> (r: Rights)
        ensures
            r.0 == self.0 & !other.0,
    {
        Rights(self.0 & !other.0)
    }

    pub fn bits(&self) -> (r: u64)
        ensures
            r == self.0 as u64,
    {
        self.0 as u64
    }

    /// Keeps the low 32 bits of `bits`.
    pub fn from_bits(bits: u64) -> (r: Rights)
        ensures
            r.0 == bits % 0x1_0000_0000,
    {
        let r = Rights(bits as u32);
        assert(bits as u32 == bits % 0x1_0000_0000) by (bit_vector);
        r
    }
}

/// `contains` is reflexive and transitive, and every right set contains the
/// empty one: it is a partial order on right sets.
pub proof fn lemma_rights_contains_order(a: Rights, b: Rights, c: Rights)
    ensures
        bits_contain(a.0, a.0),
        bits_contain(a.0, 0),
        bits_contain(0xFFFF_FFFF, a.0),
        bits_contain(a.0, b.0) && bits_contain(b.0, c.0) ==> bits_contain(a.0, c.0),
        bits_contain(a.0, b.0) && bits_contain(b.0, a.0) ==> a == b,
{
    let (x, y, z) = (a.0, b.0, c.0);
    assert(x & x == x) by (bit_vector);
    assert(x & 0 == 0) by (bit_vector);
    assert(0xFFFF_FFFFu32 & x == x) by (bit_vector);
    assert((x & y == y) && (y & z == z) ==> (x & z == z)) by (bit_vector);
    assert((x & y == y) && (y & x == x) ==> x == y) by (bit_vector);
}

/// The union of two right sets is the least set that contains both; the
/// intersection is the greatest set contained in both; subtracting a set
/// leaves nothing of it.
pub proof fn lemma_rights_algebra(a: Rights, b: Rights, c: Rights)
    ensures
        bits_contain(a.0 | b.0, a.0),
        bits_contain(a.0 | b.0, b.0),
        bits_contain(c.0, a.0) && bits_contain(c.0, b.0) ==> bits_contain(c.0, a.0 | b.0),
        bits_contain(a.0, a.0 & b.0),
        bits_contain(b.0, a.0 & b.0),
        bits_contain(a.0, c.0) && bits_contain(b.0, c.0) ==> bits_contain(a.0 & b.0, c.0),
        bits_contain(a.0, a.0 & !b.0),
        (a.0 & !b.0) & b.0 == 0,
        (a.0 & !b.0) | (a.0 & b.0) == a.0,
{
    let (x, y, z) = (a.0, b.0, c.0);
    assert((x | y) & x == x) by (bit_vector);
    assert((x | y) & y == y) by (bit_vector);
    assert((z & x == x) && (z & y == y) ==> (z & (x | y) == (x | y))) by (bit_vector);
    assert(x & (x & y) == x & y) by (bit_vector);
    assert(y & (x & y) == x & y) by (bit_vector);
    assert((x & z == z) && (y & z == z) ==> ((x & y) & z == z)) by (bit_vector);
    assert(x & (x & !y) == x & !y) by (bit_vector);
    assert((x & !y) & y == 0) by (bit_vector);
    assert((x & !y) | (x & y) == x) by (bit_vector);
}

/// Identifies a specific resource.
#[derive(Debug, Clone, Copy, PartialEq, Eq, Structural)]
pub struct ResourceDescriptor {
    /// Type of resource
    pub resource_type: ResourceType,
    /// Resource-specific identifier: base frame, base port, IRQ number,
    /// endpoint ID or process ID
    pub base: u64,
    /// Size or count (frames, ports; typically 1 for others)
    pub size: u64,
}

/// `outer` covers `inner`: same type, and `inner`'s range lies within `outer`'s.
pub open spec fn resource_covers(outer: ResourceDescriptor, inner: ResourceDescriptor) -> bool {
    &&& outer.resource_type == inner.resource_type
    &&& inner.base >= outer.base
    &&& inner.base + inner.size <= outer.base + outer.size
}

/// `contains` compares two range ends with `+`, which overflows (and panics)
/// on these inputs.
pub open spec fn contains_overflows(outer: ResourceDescriptor, inner: ResourceDescriptor) -> bool {
    &&& outer.resource_type == inner.resource_type
    &&& inner.base >= outer.base
    &&& (inner.base + inner.size > u64::MAX || outer.base + outer.size > u64::MAX)
}

impl ResourceDescriptor {
    pub fn null() -> (r: ResourceDescriptor)
        ensures
            r == (ResourceDescriptor { resource_type: ResourceType::Null, base: 0, size: 0 }),
    {
        ResourceDescriptor { resource_type: ResourceType::Null, base: 0, size: 0 }
    }

    pub fn physical_memory(base_frame: u64, frame_count: u64) -> (r: ResourceDescriptor)
        ensures
            r == (ResourceDescriptor {
                resource_type: ResourceType::PhysicalMemory,
                base: base_frame,
                size: frame_count,
            }),
    {
        ResourceDescriptor {
            resource_type: ResourceType::PhysicalMemory,
            base: base_frame,
            size: frame_count,
        }
    }

    pub fn io_port(base_port: u64, port_count: u64) -> (r: ResourceDescriptor)
        ensures
            r == (ResourceDescriptor {
                resource_type: ResourceType::IoPort,
                base: base_port,
                size: port_count,
            }),
    {
        ResourceDescriptor { resource_type: ResourceType::IoPort, base: base_port, size: port_count }
    }

    pub fn irq(irq_num: u64) -> (r: ResourceDescriptor)
        ensures
            r == (ResourceDescriptor { resource_type: ResourceType::Irq, base: irq_num, size: 1 }),
    {
        ResourceDescriptor { resource_type: ResourceType::Irq, base: irq_num, size: 1 }
    }

    pub fn ipc_endpoint(endpoint_id: u64) -> (r: ResourceDescriptor)
        ensures
            r == (ResourceDescriptor {
                resource_type: ResourceType::IpcEndpoint,
                base: endpoint_id,
                size: 1,
            }),
    {
        ResourceDescriptor { resource_type: ResourceType::IpcEndpoint, base: endpoint_id, size: 1 }
    }

    pub fn process(pid: u64) -> (r: ResourceDescriptor)
        ensures
            r == (ResourceDescriptor { resource_type: ResourceType::Process, base: pid, size: 1 }),
    {
        ResourceDescriptor { resource_type: ResourceType::Process, base: pid, size: 1 }
    }

    pub fn virtual_memory(base_addr: u64, size_bytes: u64) -> (r: ResourceDescriptor)
        ensures
            r == (ResourceDescriptor {
                resource_type: ResourceType::VirtualMemory,
                base: base_addr,
                size: size_bytes,
            }),
    {
        ResourceDescriptor {
            resource_type: ResourceType::VirtualMemory,
            base: base_addr,
            size: size_bytes,
        }
    }

    pub fn device_mmio(base_addr: u64, size_bytes: u64) -> (r: ResourceDescriptor)
        ensures
            r == (ResourceDescriptor {
                resource_type: ResourceType::DeviceMmio,
                base: base_addr,
                size: size_bytes,
            }),
    {
        ResourceDescriptor {
            resource_type: ResourceType::DeviceMmio,
            base: base_addr,
            size: size_bytes,
        }
    }

    /// Whether this descriptor contains `other` (for delegation checks).
    pub fn contains(&self, other: &ResourceDescriptor) -> (r: bool)
        requires
            !contains_overflows(*self, *other),
        ensures
            r == resource_covers(*self, *other),
    {
        if self.resource_type != other.resource_type {
            return false;
        }
        other.base >= self.base && (other.base + other.size) <= (self.base + self.size)
    }
}

/// `resource_covers` is a partial order on descriptors of one type.
pub proof fn lemma_resource_covers_order(a: ResourceDescriptor, b: ResourceDescriptor, c: ResourceDescriptor)
    ensures
        resource_covers(a, a),
        resource_covers(a, b) && resource_covers(b, c) ==> resource_covers(a, c),
        resource_covers(a, b) && resource_covers(b, a) && a.size == b.size ==> a == b,
{
}

/// Full capability (kernel-side representation).
#[derive(Debug, Clone, Copy)]
pub struct Capability {
    /// The resource this capability grants access to
    pub resource: ResourceDescriptor,
    /// Rights granted by this capability
    pub rights: Rights,
    /// Generation counter for revocation
    pub generation: Generation,
    /// Parent capability (null for a root capability)
    pub parent: CapabilityHandle,
    /// Owner process ID
    pub owner: u64,
}

/// The null capability: no resource, no rights, first generation, no parent.
pub open spec fn null_capability() -> Capability {
    Capability {
        resource: ResourceDescriptor { resource_type: ResourceType::Null, base: 0, size: 0 },
        rights: Rights(0),
        generation: Generation(1),
        parent: CapabilityHandle(0),
        owner: 0,
    }
}

impl Capability {
    pub fn null() -> (r: Capability)
        ensures
            r == null_capability(),
    {
        Capability {
            resource: ResourceDescriptor::null(),
            rights: Rights(Rights::NONE),
            generation: Generation::initial(),
            parent: CapabilityHandle::null(),
            owner: 0,
        }
    }

    pub fn is_null(&self) -> (r: bool)
        ensures
            r == (self.resource.resource_type == ResourceType::Null),
    {
        match self.resource.resource_type {
            ResourceType::Null => true,
            _ => false,
        }
    }

    /// Whether this capability allows the given rights.
    pub fn allows(&self, rights: Rights) -> (r: bool)
        ensures
            r == bits_contain(self.rights.0, rights.0),
    {
        self.rights.contains(rights)
    }

    /// Whether this capability can be delegated with the given rights.
    pub fn can_delegate(&self, rights: Rights) -> (r: bool)
        ensures
            r == (bits_contain(self.rights.0, Rights::DELEGATE) && bits_contain(
                self.rights.0,
                rights.0,
            )),
    {
        self.rights.contains(Rights(Rights::DELEGATE)) && self.rights.contains(rights)
    }
}

/// Information about a capability (returned by capability inspection).
#[derive(Debug, Clone, Copy)]
pub struct CapabilityInfo {
    pub resource: ResourceDescriptor,
    pub rights: Rights,
    pub generation: Generation,
    pub has_parent: bool,
}

} // verus!
