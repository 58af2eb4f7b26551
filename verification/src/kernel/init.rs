//! Boot-time capabilities of the init process.
//!
//! Init (the capability manager, PID 1) is given full I/O-port access (for
//! drivers), the 16 IRQ lines, and the register region of each virtio block
//! device, before it is loaded and entered.
use vstd::prelude::*;
use crate::kernel::caps::{create_root_cap, GlobalCapTable, MAX_TOTAL_CAPS};
use crate::kernel::pci::{bar_info, is_virtio_block, lemma_bar_decoding, BarInfo, PciDevice, VirtioDeviceType};
use crate::shared::caps::{Capability, CapabilityHandle, ResourceDescriptor, ResourceType, Rights};
use crate::shared::error::SysError;

verus! {

/// The init process's ID.
pub const INIT_PID: u64 = 1;

/// Size of a legacy virtio device's I/O port range.
pub const VIRTIO_IO_PORTS: u64 = 256;
/// Size of a modern virtio device's MMIO region.
pub const VIRTIO_MMIO_SIZE: u64 = 0x1000;

/// What init gets for a device: for a virtio block device with a BAR0, its
/// I/O ports (read, write) or its MMIO region (read, write, map).
pub open spec fn device_grant(d: PciDevice) -> Seq<(ResourceDescriptor, Rights)> {
    if is_virtio_block(d) {
        match bar_info(d.bars[0], d.bars[1]) {
            Some(BarInfo::IoPort(port)) => seq![
                (
                    ResourceDescriptor { resource_type: ResourceType::IoPort, base: port as u64, size: VIRTIO_IO_PORTS },
                    Rights(Rights::READ | Rights::WRITE),
                ),
            ],
            Some(BarInfo::Memory32(addr)) => seq![
                (
                    ResourceDescriptor { resource_type: ResourceType::DeviceMmio, base: addr, size: VIRTIO_MMIO_SIZE },
                    Rights(Rights::READ | Rights::WRITE | Rights::MAP),
                ),
            ],
            Some(BarInfo::Memory64(addr)) => seq![
                (
                    ResourceDescriptor { resource_type: ResourceType::DeviceMmio, base: addr, size: VIRTIO_MMIO_SIZE },
                    Rights(Rights::READ | Rights::WRITE | Rights::MAP),
                ),
            ],
            None => Seq::empty(),
        }
    } else {
        Seq::empty()
    }
}

/// Init gets at most one grant per device, and one exactly for a virtio
/// block device (vendor 0x1AF4, transitional ID 0x1001 or modern 0x1042)
/// with a BAR0: for an I/O BAR, the 256 ports from its port (its low 16
/// bits, flag bits cleared), to read and write; for a memory BAR, the page of
/// registers at its address (flag bits cleared), to read, write and map.
pub proof fn lemma_device_grant(d: PciDevice)
    ensures
        device_grant(d).len() <= 1,
        device_grant(d).len() == 1 <==> (d.vendor_id == 0x1AF4 && (d.device_id == 0x1001 || d.device_id == 0x1042)
            && d.bars[0] != 0),
        device_grant(d).len() == 1 && d.bars[0] % 2 == 1 ==> {
            &&& device_grant(d)[0].0.resource_type == ResourceType::IoPort
            &&& device_grant(d)[0].0.base == d.bars[0] % 0x10000 - d.bars[0] % 4
            &&& device_grant(d)[0].0.size == 256
            &&& device_grant(d)[0].1 == Rights(Rights::READ | Rights::WRITE)
        },
        device_grant(d).len() == 1 && d.bars[0] % 2 == 0 ==> {
            &&& device_grant(d)[0].0.resource_type == ResourceType::DeviceMmio
            &&& device_grant(d)[0].0.base % 0x1_0000_0000 == d.bars[0] - d.bars[0] % 16
            &&& device_grant(d)[0].0.size == 0x1000
            &&& device_grant(d)[0].1 == Rights(Rights::READ | Rights::WRITE | Rights::MAP)
        },
{
    lemma_bar_decoding(d.bars[0], d.bars[1]);
}

/// What init gets for the devices `devices`, device by device.
pub open spec fn device_grants(devices: Seq<PciDevice>) -> Seq<(ResourceDescriptor, Rights)>
    decreases devices.len(),
{
    if devices.len() == 0 {
        Seq::empty()
    } else {
        device_grants(devices.drop_last()) + device_grant(devices.last())
    }
}

/// Everything init gets, in order: all 65536 I/O ports (read, write); IRQ
/// lines 0 to 15 (bind, acknowledge); then the devices' grants.
pub open spec fn init_grants(devices: Seq<PciDevice>) -> Seq<(ResourceDescriptor, Rights)> {
    seq![
        (
            ResourceDescriptor { resource_type: ResourceType::IoPort, base: 0, size: 0x10000 },
            Rights(Rights::READ | Rights::WRITE),
        ),
    ] + Seq::new(
        16,
        |i: int|
            (
                ResourceDescriptor { resource_type: ResourceType::Irq, base: i as u64, size: 1 },
                Rights(Rights::BIND | Rights::ACK),
            ),
    ) + device_grants(devices)
}

/// Lists what init gets.
pub fn init_grant_list(devices: &Vec<PciDevice>) -> (r: Vec<(ResourceDescriptor, Rights)>)
    ensures
        r@ == init_grants(devices@),
{
    let mut grants: Vec<(ResourceDescriptor, Rights)> = Vec::new();
    grants.push((ResourceDescriptor::io_port(0, 0x10000), Rights(Rights::READ | Rights::WRITE)));
    let ghost first = grants@;
    let mut irq: u64 = 0;
    while irq < 16
        invariant
            irq <= 16,
            grants@ == first + Seq::new(
                irq as nat,
                |i: int|
                    (
                        ResourceDescriptor { resource_type: ResourceType::Irq, base: i as u64, size: 1 },
                        Rights(Rights::BIND | Rights::ACK),
                    ),
            ),
        decreases 16 - irq,
    {
        grants.push((ResourceDescriptor::irq(irq), Rights(Rights::BIND | Rights::ACK)));
        proof {
            let f = |i: int|
                (
                    ResourceDescriptor { resource_type: ResourceType::Irq, base: i as u64, size: 1 },
                    Rights(Rights::BIND | Rights::ACK),
                );
            assert(Seq::new((irq + 1) as nat, f) =~= Seq::new(irq as nat, f).push(f(irq as int)));
        }
        irq = irq + 1;
    }
    let ghost fixed = grants@;
    let mut i: usize = 0;
    while i < devices.len()
        invariant
            i <= devices@.len(),
            grants@ == fixed + device_grants(devices@.take(i as int)),
        decreases devices@.len() - i,
    {
        let d = devices[i];
        let ghost before = grants@;
        let is_block = match d.virtio_device_type() {
            Some(VirtioDeviceType::Block) => true,
            _ => false,
        };
        if is_block {
            match d.bar0_address() {
                Some(BarInfo::IoPort(port)) => {
                    grants.push(
                        (ResourceDescriptor::io_port(port as u64, VIRTIO_IO_PORTS), Rights(Rights::READ | Rights::WRITE)),
                    );
                },
                Some(BarInfo::Memory32(addr)) => {
                    grants.push(
                        (
                            ResourceDescriptor::device_mmio(addr, VIRTIO_MMIO_SIZE),
                            Rights(Rights::READ | Rights::WRITE | Rights::MAP),
                        ),
                    );
                },
                Some(BarInfo::Memory64(addr)) => {
                    grants.push(
                        (
                            ResourceDescriptor::device_mmio(addr, VIRTIO_MMIO_SIZE),
                            Rights(Rights::READ | Rights::WRITE | Rights::MAP),
                        ),
                    );
                },
                None => {},
            }
        }
        proof {
            assert(devices@.take(i + 1).drop_last() =~= devices@.take(i as int));
            assert(devices@.take(i + 1).last() == d);
            assert(grants@ =~= before + device_grant(d));
        }
        i = i + 1;
    }
    proof {
        assert(devices@.take(i as int) =~= devices@);
    }
    grants
}

/// Creates init's root capabilities for `grants`, in order, each in the
/// slot that comes next off the free list; gives their handles. When the
/// table runs out of slots, answers `CapabilityTableFull` (the capabilities
/// made so far stay).
pub fn grant_all(caps: &mut GlobalCapTable, grants: &Vec<(ResourceDescriptor, Rights)>, owner: u64) -> (r:
    Result<Vec<CapabilityHandle>, SysError>)
    requires
        old(caps).wf(),
    ensures
        final(caps).wf(),
        final(caps).generation() == old(caps).generation(),
        old(caps).free_list().len() < grants@.len() ==> r == Err::<Vec<CapabilityHandle>, SysError>(
            SysError::CapabilityTableFull,
        ),
        old(caps).free_list().len() >= grants@.len() ==> {
            &&& r is Ok
            &&& r->Ok_0@.len() == grants@.len()
            &&& final(caps).free_list() == old(caps).free_list().take(
                old(caps).free_list().len() - grants@.len(),
            )
            &&& forall|k: int|
                0 <= k < grants@.len() ==> {
                    &&& (#[trigger] r->Ok_0@[k]).0 == old(caps).free_list()[old(caps).free_list().len() - 1 - k]
                    &&& final(caps).slots()[r->Ok_0@[k].0 as int] == Some(
                        Capability {
                            resource: grants@[k].0,
                            rights: grants@[k].1,
                            generation: old(caps).generation(),
                            parent: CapabilityHandle(0),
                            owner,
                        },
                    )
                }
        },
{
    let ghost l = old(caps).free_list().len();
    let ghost free0 = old(caps).free_list();
    let mut handles: Vec<CapabilityHandle> = Vec::new();
    let mut i: usize = 0;
    proof {
        caps.lemma_wf_len();
    }
    while i < grants.len()
        invariant
            caps.wf(),
            i <= grants@.len(),
            l == free0.len(),
            free0 == old(caps).free_list(),
            caps.generation() == old(caps).generation(),
            i <= l,
            caps.free_list() == free0.take(l - i),
            handles@.len() == i,
            caps.slots().len() == MAX_TOTAL_CAPS,
            forall|k: int|
                0 <= k < i ==> {
                    &&& (#[trigger] handles@[k]).0 == free0[l - 1 - k]
                    &&& handles@[k].0 < MAX_TOTAL_CAPS
                    &&& caps.slots()[handles@[k].0 as int] == Some(
                        Capability {
                            resource: grants@[k].0,
                            rights: grants@[k].1,
                            generation: old(caps).generation(),
                            parent: CapabilityHandle(0),
                            owner,
                        },
                    )
                },
        decreases grants@.len() - i,
    {
        let (resource, rights) = grants[i];
        let ghost before = *caps;
        proof {
            caps.lemma_wf_len();
            if before.free_list().len() > 0 {
                before.lemma_next_free_slot();
            }
        }
        let h = match create_root_cap(caps, resource, rights, owner) {
            Ok(h) => h,
            Err(e) => {
                return Err(e);
            },
        };
        proof {
            assert(before.free_list().last() == free0[l - 1 - i]);
            assert forall|k: int| 0 <= k < i implies (#[trigger] handles@[k]).0 != h.0 by {
                assert(before.slots()[handles@[k].0 as int] is Some);
            }
            assert(caps.free_list() =~= free0.take(l - (i + 1)));
        }
        handles.push(h);
        i = i + 1;
    }
    Ok(handles)
}

/// Grants init its capabilities (see `init_grants`) and gives their handles,
/// in order.
pub fn init_capabilities(caps: &mut GlobalCapTable, devices: &Vec<PciDevice>) -> (r: Result<
    Vec<CapabilityHandle>,
    SysError,
>)
    requires
        old(caps).wf(),
    ensures
        final(caps).wf(),
        old(caps).free_list().len() < init_grants(devices@).len() ==> r == Err::<
            Vec<CapabilityHandle>,
            SysError,
        >(SysError::CapabilityTableFull),
        old(caps).free_list().len() >= init_grants(devices@).len() ==> r is Ok && r->Ok_0@.len()
            == init_grants(devices@).len() && forall|k: int|
            0 <= k < init_grants(devices@).len() ==> final(caps).slots()[(#[trigger] r->Ok_0@[k]).0 as int]
                == Some(
                Capability {
                    resource: init_grants(devices@)[k].0,
                    rights: init_grants(devices@)[k].1,
                    generation: old(caps).generation(),
                    parent: CapabilityHandle(0),
                    owner: INIT_PID,
                },
            ),
{
    let grants = init_grant_list(devices);
    grant_all(caps, &grants, INIT_PID)
}

} // verus!
