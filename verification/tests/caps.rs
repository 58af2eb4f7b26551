use exokernel::kernel::caps::table::CapabilityTable;
use exokernel::kernel::caps::{create_root_cap, validate, GlobalCapTable, MAX_TOTAL_CAPS};
use exokernel::shared::caps::{
    CapabilityHandle, Generation, ResourceDescriptor, ResourceType, Rights,
};
use exokernel::shared::error::SysError;

fn rights(bits: u32) -> Rights {
    Rights(bits)
}

#[test]
fn rights_contains_union_intersection_subtract() {
    let rw = rights(Rights::READ | Rights::WRITE);
    assert!(rw.contains(rights(Rights::READ)));
    assert!(!rights(Rights::READ).contains(rw));
    assert_eq!(rights(Rights::READ).union(rights(Rights::WRITE)).0, Rights::READ_WRITE);
    assert_eq!(rw.intersection(rights(Rights::WRITE)).0, Rights::WRITE);
    assert_eq!(rw.subtract(rights(Rights::READ)).0, Rights::WRITE);
    assert_eq!(Rights::from_bits(0x1_0000_0003).0, 3);
    assert_eq!(rw.bits(), 3);
    assert!(rights(Rights::ALL).contains(rights(Rights::REVOKE)));
}

#[test]
fn generation_next_wraps_and_validity_is_equality() {
    assert_eq!(Generation::initial().0, 1);
    assert_eq!(Generation(7).next().0, 8);
    assert_eq!(Generation(u64::MAX).next().0, 0);
    assert!(Generation(3).is_valid(Generation(3)));
    assert!(!Generation(3).is_valid(Generation(4)));
}

#[test]
fn resource_containment() {
    let outer = ResourceDescriptor::physical_memory(100, 10);
    assert!(outer.contains(&ResourceDescriptor::physical_memory(100, 10)));
    assert!(outer.contains(&ResourceDescriptor::physical_memory(105, 5)));
    assert!(!outer.contains(&ResourceDescriptor::physical_memory(105, 6)));
    assert!(!outer.contains(&ResourceDescriptor::physical_memory(99, 1)));
    assert!(!outer.contains(&ResourceDescriptor::io_port(100, 1)));
    assert_eq!(ResourceDescriptor::irq(5).size, 1);
    assert_eq!(ResourceDescriptor::ipc_endpoint(9).resource_type, ResourceType::IpcEndpoint);
}

#[test]
fn root_capability_is_created_in_the_next_free_slot() {
    let mut t = GlobalCapTable::new();
    let (used, free) = t.stats();
    assert_eq!(used, 0);
    assert_eq!(free, MAX_TOTAL_CAPS - 1);
    let h = create_root_cap(&mut t, ResourceDescriptor::io_port(0x60, 4), rights(Rights::READ), 1).unwrap();
    assert!(!h.is_null());
    let cap = validate(&t, h, 1, rights(Rights::READ)).unwrap();
    assert_eq!(cap.owner, 1);
    assert_eq!(cap.resource, ResourceDescriptor::io_port(0x60, 4));
    assert!(cap.parent.is_null());
    let (used, free) = t.stats();
    assert_eq!((used, free), (1, MAX_TOTAL_CAPS - 2));
}

#[test]
fn validate_errors() {
    let mut t = GlobalCapTable::new();
    let h = create_root_cap(&mut t, ResourceDescriptor::irq(3), rights(Rights::BIND), 5).unwrap();
    assert_eq!(validate(&t, h, 6, rights(Rights::BIND)).unwrap_err(), SysError::NotPermitted);
    assert_eq!(validate(&t, h, 5, rights(Rights::ACK)).unwrap_err(), SysError::InsufficientRights);
    assert_eq!(validate(&t, CapabilityHandle(0), 5, rights(0)).unwrap_err(), SysError::InvalidCapability);
    assert_eq!(validate(&t, CapabilityHandle(1_000_000), 5, rights(0)).unwrap_err(), SysError::InvalidCapability);
}

#[test]
fn grant_attenuates_and_checks_the_parent() {
    let mut t = GlobalCapTable::new();
    let parent = create_root_cap(
        &mut t,
        ResourceDescriptor::physical_memory(0, 100),
        rights(Rights::READ | Rights::WRITE | Rights::GRANT),
        0,
    )
    .unwrap();
    let child = t.grant(parent, ResourceDescriptor::physical_memory(10, 5), rights(Rights::READ), 2).unwrap();
    let c = t.get(child).unwrap();
    assert_eq!(c.parent, parent);
    assert_eq!(c.owner, 2);
    assert_eq!(c.rights.0, Rights::READ);
    assert_eq!(
        t.grant(parent, ResourceDescriptor::physical_memory(10, 5), rights(Rights::EXECUTE), 2).unwrap_err(),
        SysError::InsufficientRights
    );
    assert_eq!(
        t.grant(parent, ResourceDescriptor::physical_memory(90, 20), rights(Rights::READ), 2).unwrap_err(),
        SysError::InvalidArgument
    );
    assert_eq!(
        t.grant(child, ResourceDescriptor::physical_memory(10, 1), rights(Rights::READ), 3).unwrap_err(),
        SysError::InsufficientRights
    );
}

#[test]
fn delegate_requires_owner_and_delegate_right() {
    let mut t = GlobalCapTable::new();
    let h = create_root_cap(
        &mut t,
        ResourceDescriptor::io_port(0x3F8, 8),
        rights(Rights::READ | Rights::WRITE | Rights::DELEGATE),
        1,
    )
    .unwrap();
    let d = t.delegate(h, 1, 2, rights(Rights::READ)).unwrap();
    let info = t.inspect(d, 2).unwrap();
    assert_eq!(info.rights.0, Rights::READ);
    assert!(info.has_parent);
    assert_eq!(t.delegate(h, 2, 3, rights(Rights::READ)).unwrap_err(), SysError::NotPermitted);
    assert_eq!(t.delegate(d, 2, 3, rights(Rights::READ)).unwrap_err(), SysError::CannotDelegate);
    assert_eq!(t.delegate(h, 1, 3, rights(Rights::EXECUTE)).unwrap_err(), SysError::InsufficientRights);
    assert_eq!(t.inspect(d, 1).unwrap_err(), SysError::NotPermitted);
}

#[test]
fn revoke_removes_exactly_the_derived_capabilities() {
    let mut t = GlobalCapTable::new();
    let all = rights(Rights::READ | Rights::WRITE | Rights::GRANT | Rights::DELEGATE);
    let root = create_root_cap(&mut t, ResourceDescriptor::physical_memory(0, 64), all, 1).unwrap();
    let a = t.delegate(root, 1, 1, all).unwrap();
    let b = t.delegate(a, 1, 2, rights(Rights::READ)).unwrap();
    let other = create_root_cap(&mut t, ResourceDescriptor::physical_memory(64, 8), all, 1).unwrap();
    assert_eq!(t.revoke(a, 2).unwrap_err(), SysError::NotPermitted);
    t.revoke(a, 1).unwrap();
    assert_eq!(t.get(a).unwrap_err(), SysError::InvalidCapability);
    assert_eq!(t.get(b).unwrap_err(), SysError::InvalidCapability);
    assert!(t.get(root).is_ok());
    assert!(t.get(other).is_ok());
    assert_eq!(t.stats().0, 2);
    assert_eq!(t.revoke(a, 1).unwrap_err(), SysError::InvalidCapability);
}

#[test]
fn drop_frees_only_that_slot() {
    let mut t = GlobalCapTable::new();
    let all = rights(Rights::READ | Rights::DELEGATE);
    let root = create_root_cap(&mut t, ResourceDescriptor::irq(1), all, 4).unwrap();
    let child = t.delegate(root, 4, 4, rights(Rights::READ)).unwrap();
    let before = *t.get(child).unwrap();
    assert_eq!(t.drop_cap(root, 5).unwrap_err(), SysError::NotPermitted);
    t.drop_cap(root, 4).unwrap();
    assert!(t.get(root).is_err());
    assert!(t.get(child).is_ok());
    assert_eq!(t.drop_cap(root, 4).unwrap_err(), SysError::InvalidCapability);
    // the child is left as it was, its recorded parent included
    let after = *t.get(child).unwrap();
    assert_eq!((after.resource, after.rights, after.owner), (before.resource, before.rights, before.owner));
    assert_eq!((after.parent, after.generation), (before.parent, before.generation));
    assert_eq!(t.get(child).unwrap().parent, root);
    assert!(t.inspect(child, 4).unwrap().has_parent);
}

#[test]
fn a_capability_reusing_a_dropped_slot_does_not_adopt_its_children() {
    let mut t = GlobalCapTable::new();
    let p = t.create_root_cap(ResourceDescriptor::irq(1), rights(Rights::DELEGATE), 5).unwrap();
    let c = t.delegate(p, 5, 6, rights(Rights::NONE)).unwrap();
    t.drop_cap(p, 5).unwrap();
    let x = t.create_root_cap(ResourceDescriptor::irq(2), rights(Rights::ALL), 5).unwrap();
    assert_eq!(x, p);
    assert_eq!(t.revoke(x, 5), Ok(()));
    assert_eq!(t.get(x).unwrap_err(), SysError::InvalidCapability);
    assert!(t.get(c).is_ok());
}

#[test]
fn bump_generation_invalidates_every_capability() {
    let mut t = GlobalCapTable::new();
    let h = create_root_cap(&mut t, ResourceDescriptor::irq(2), rights(Rights::ACK), 0).unwrap();
    let g = t.bump_generation();
    assert_eq!(g.0, 2);
    assert_eq!(t.get(h).unwrap_err(), SysError::RevokedCapability);
}

#[test]
fn process_caps_are_listed_in_slot_order() {
    let mut t = GlobalCapTable::new();
    let a = create_root_cap(&mut t, ResourceDescriptor::irq(1), rights(0), 7).unwrap();
    let _b = create_root_cap(&mut t, ResourceDescriptor::irq(2), rights(0), 8).unwrap();
    let c = create_root_cap(&mut t, ResourceDescriptor::irq(3), rights(0), 7).unwrap();
    let mine = t.get_process_caps(7);
    assert_eq!(mine.len(), 2);
    assert!(mine.contains(&a) && mine.contains(&c));
    assert!(mine[0].0 < mine[1].0);
}

#[test]
fn table_full_is_reported() {
    let mut t = GlobalCapTable::new();
    for i in 0..(MAX_TOTAL_CAPS - 1) {
        create_root_cap(&mut t, ResourceDescriptor::irq(i as u64), rights(0), 0).unwrap();
    }
    assert_eq!(
        create_root_cap(&mut t, ResourceDescriptor::irq(0), rights(0), 0).unwrap_err(),
        SysError::CapabilityTableFull
    );
}

#[test]
fn per_process_table_add_translate_remove() {
    let mut t = CapabilityTable::with_capacity(3, 3);
    assert_eq!(t.pid(), 3);
    assert_eq!(t.count(), 0);
    let l1 = t.add(CapabilityHandle(40)).unwrap();
    let l2 = t.add(CapabilityHandle(41)).unwrap();
    assert_eq!((l1, l2), (CapabilityHandle(1), CapabilityHandle(2)));
    assert_eq!(t.add(CapabilityHandle(42)).unwrap_err(), SysError::CapabilityTableFull);
    assert_eq!(t.translate(l1).unwrap(), CapabilityHandle(40));
    assert_eq!(t.translate(l2).unwrap(), CapabilityHandle(41));
    assert_eq!(t.translate(CapabilityHandle(0)).unwrap_err(), SysError::InvalidCapability);
    assert_eq!(t.count(), 2);
    assert_eq!(t.remove(CapabilityHandle(0)).unwrap_err(), SysError::InvalidCapability);
    assert_eq!(t.remove(l1).unwrap(), CapabilityHandle(40));
    assert_eq!(t.translate(l1).unwrap_err(), SysError::InvalidCapability);
    assert_eq!(t.remove(l1).unwrap_err(), SysError::InvalidCapability);
    assert_eq!(t.count(), 1);
    assert_eq!(t.all_handles(), vec![CapabilityHandle(2)]);
    assert_eq!(CapabilityTable::new(1).pid(), 1);
}

#[test]
fn the_null_handle_never_names_a_capability() {
    let mut t = GlobalCapTable::new();
    assert_eq!(t.get(CapabilityHandle(0)).unwrap_err(), SysError::InvalidCapability);
    let _a = create_root_cap(&mut t, ResourceDescriptor::irq(1), rights(0), 0).unwrap();
    assert_eq!(t.get(CapabilityHandle(0)).unwrap_err(), SysError::InvalidCapability);
    assert!(!t.get_process_caps(0).contains(&CapabilityHandle(0)));
}

#[test]
fn stats_count_the_slots_in_use() {
    let mut t = GlobalCapTable::new();
    let a = create_root_cap(&mut t, ResourceDescriptor::irq(1), rights(0), 3).unwrap();
    let _b = create_root_cap(&mut t, ResourceDescriptor::irq(2), rights(0), 3).unwrap();
    assert_eq!(t.stats(), (2, MAX_TOTAL_CAPS - 3));
    t.drop_cap(a, 3).unwrap();
    assert_eq!(t.stats(), (1, MAX_TOTAL_CAPS - 2));
}

#[test]
fn revoking_above_a_dropped_capability_leaves_its_children() {
    let mut t = GlobalCapTable::new();
    let g = t.create_root_cap(ResourceDescriptor::irq(1), rights(Rights::DELEGATE), 5).unwrap();
    let p = t.delegate(g, 5, 5, rights(Rights::DELEGATE)).unwrap();
    let c = t.delegate(p, 5, 6, rights(Rights::NONE)).unwrap();
    t.drop_cap(p, 5).unwrap();
    assert_eq!(t.get(c).unwrap().parent, p);
    assert_eq!(t.revoke(g, 5), Ok(()));
    assert!(t.get(g).is_err());
    assert!(t.get(c).is_ok());
}
