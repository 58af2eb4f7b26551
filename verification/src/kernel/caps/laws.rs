//! What the capability operations promise together: a derived capability
//! never has more than its parent; a created capability validates for its
//! owner and within its rights; revocation invalidates exactly what was
//! derived from the revoked capability.
use vstd::prelude::*;
use crate::kernel::caps::{derived_from, links_live, reaches, GlobalCapTable, MAX_TOTAL_CAPS};
use crate::shared::caps::{bits_contain, resource_covers, Capability, CapabilityHandle, ResourceDescriptor, Rights};
use crate::shared::error::SysError;

verus! {

/// The null handle never names a capability: looking it up in a
/// well-formed table always fails.
pub proof fn lemma_null_handle_never_valid(t: GlobalCapTable)
    requires
        t.wf(),
    ensures
        t.lookup(CapabilityHandle(0)) == Err::<Capability, SysError>(SysError::InvalidCapability),
{
    t.lemma_wf_facts();
}

/// A granted capability holds no right and no part of a resource that its
/// parent lacks; the parent stays as it was.
pub proof fn lemma_grant_attenuates(
    old: GlobalCapTable,
    new: GlobalCapTable,
    parent: CapabilityHandle,
    resource: ResourceDescriptor,
    rights: Rights,
    owner: u64,
    h: CapabilityHandle,
)
    requires
        old.wf(),
        old.grant_check(parent, resource, rights) is Ok,
        GlobalCapTable::placed(&old, &new, old.new_cap(resource, rights, parent, owner), h),
    ensures
        new.lookup(h) is Ok,
        new.lookup(h)->Ok_0.parent == parent,
        new.lookup(h)->Ok_0.owner == owner,
        bits_contain(old.lookup(parent)->Ok_0.rights.0, new.lookup(h)->Ok_0.rights.0),
        resource_covers(old.lookup(parent)->Ok_0.resource, new.lookup(h)->Ok_0.resource),
        new.lookup(parent) == old.lookup(parent),
{
    old.lemma_next_free_slot();
    old.lemma_wf_len();
}

/// A delegated capability holds no right that the delegated one lacks and
/// names the same resource; the delegated one stays as it was.
pub proof fn lemma_delegate_attenuates(
    old: GlobalCapTable,
    new: GlobalCapTable,
    handle: CapabilityHandle,
    requesting_pid: u64,
    target_pid: u64,
    new_rights: Rights,
    h: CapabilityHandle,
)
    requires
        old.wf(),
        old.delegate_check(handle, requesting_pid, new_rights) is Ok,
        GlobalCapTable::placed(
            &old,
            &new,
            old.new_cap(old.lookup(handle)->Ok_0.resource, new_rights, handle, target_pid),
            h,
        ),
    ensures
        new.lookup(h) is Ok,
        new.lookup(h)->Ok_0.parent == handle,
        new.lookup(h)->Ok_0.owner == target_pid,
        new.lookup(h)->Ok_0.resource == old.lookup(handle)->Ok_0.resource,
        bits_contain(old.lookup(handle)->Ok_0.rights.0, new.lookup(h)->Ok_0.rights.0),
        new.lookup(handle) == old.lookup(handle),
{
    old.lemma_next_free_slot();
    old.lemma_wf_len();
}

/// A root capability, once created, validates for its owner with any rights
/// it holds, and for no other process.
pub proof fn lemma_create_then_validate(
    old: GlobalCapTable,
    new: GlobalCapTable,
    resource: ResourceDescriptor,
    rights: Rights,
    owner: u64,
    h: CapabilityHandle,
    required: Rights,
    other: u64,
)
    requires
        old.wf(),
        GlobalCapTable::placed(&old, &new, old.new_cap(resource, rights, CapabilityHandle(0), owner), h),
    ensures
        bits_contain(rights.0, required.0) ==> new.validate_result(h, owner, required) == Ok::<
            Capability,
            SysError,
        >(old.new_cap(resource, rights, CapabilityHandle(0), owner)),
        !bits_contain(rights.0, required.0) ==> new.validate_result(h, owner, required) == Err::<
            Capability,
            SysError,
        >(SysError::InsufficientRights),
        other != owner ==> new.validate_result(h, other, required) == Err::<Capability, SysError>(
            SysError::NotPermitted,
        ),
{
    old.lemma_next_free_slot();
    old.lemma_wf_len();
}

/// After a revocation of `x`, every capability that was derived from `x`
/// (and `x` itself) is gone; every other capability looks up as before.
pub proof fn lemma_revoke_invalidates_derived(old: GlobalCapTable, new: GlobalCapTable, x: CapabilityHandle, h: CapabilityHandle)
    requires
        old.wf(),
        GlobalCapTable::revoked(&old, &new, x.0 as int),
    ensures
        h.0 < MAX_TOTAL_CAPS && derived_from(old.tree(), h.0 as int, x.0 as int) ==> new.lookup(h) == Err::<
            Capability,
            SysError,
        >(SysError::InvalidCapability),
        !derived_from(old.tree(), h.0 as int, x.0 as int) ==> new.lookup(h) == old.lookup(h),
{
    old.lemma_wf_len();
    if h.0 < MAX_TOTAL_CAPS {
        assert(new.slots()[h.0 as int] == if derived_from(old.tree(), h.0 as int, x.0 as int) {
            None
        } else {
            old.slots()[h.0 as int]
        });
    }
}

/// A chain of parent links in `new` that reaches the freshly placed `h`
/// starts at `h`.
proof fn lemma_no_chain_to_fresh(
    old: GlobalCapTable,
    new: GlobalCapTable,
    cap: Capability,
    h: CapabilityHandle,
    s: int,
    n: nat,
)
    requires
        old.wf(),
        links_live(old.tree()),
        GlobalCapTable::placed(&old, &new, cap, h),
        reaches(new.tree(), s, h.0 as int, n),
    ensures
        s == h.0,
    decreases n,
{
    old.lemma_next_free_slot();
    if s != h.0 {
        let q = new.tree()[s].unwrap().parent.0 as int;
        assert(old.tree()[s] is Some);
        if q == h.0 {
            assert(old.tree()[s].unwrap().parent.0 == h.0);
        } else {
            lemma_no_chain_to_fresh(old, new, cap, h, q, (n - 1) as nat);
        }
    }
}

/// A capability just placed into a free slot has nothing derived from it but
/// itself, whatever was in that slot before: in a table whose derivation
/// tree links every capability to a parent in use or to none (as
/// `GlobalCapTable::new` makes it and every operation on the table keeps it),
/// no link of the tree points at a free slot.
pub proof fn lemma_placed_cap_has_no_descendants(
    old: GlobalCapTable,
    new: GlobalCapTable,
    cap: Capability,
    h: CapabilityHandle,
    i: int,
)
    requires
        old.wf(),
        links_live(old.tree()),
        GlobalCapTable::placed(&old, &new, cap, h),
    ensures
        derived_from(new.tree(), i, h.0 as int) ==> i == h.0,
{
    if derived_from(new.tree(), i, h.0 as int) {
        let n = choose|n: nat| reaches(new.tree(), i, h.0 as int, n);
        lemma_no_chain_to_fresh(old, new, cap, h, i, n);
    }
}

/// Revoking a capability that was just placed frees that capability alone:
/// a new capability in the slot of a dropped one does not adopt the dropped
/// one's former children.
pub proof fn lemma_revoke_fresh_frees_only_itself(
    old: GlobalCapTable,
    mid: GlobalCapTable,
    new: GlobalCapTable,
    cap: Capability,
    h: CapabilityHandle,
)
    requires
        old.wf(),
        links_live(old.tree()),
        GlobalCapTable::placed(&old, &mid, cap, h),
        GlobalCapTable::revoked(&mid, &new, h.0 as int),
    ensures
        new.slots() == mid.slots().update(h.0 as int, None),
        new.tree() == mid.tree().update(h.0 as int, None),
{
    old.lemma_next_free_slot();
    assert forall|i: int| 0 <= i < mid.tree().len() implies #[trigger] new.tree()[i] == mid.tree().update(
        h.0 as int,
        None,
    )[i] by {
        lemma_placed_cap_has_no_descendants(old, mid, cap, h, i);
        if i == h.0 {
            assert(reaches(mid.tree(), i, h.0 as int, 0));
        }
    }
    assert(new.tree() =~= mid.tree().update(h.0 as int, None));
    assert forall|i: int| 0 <= i < mid.slots().len() implies #[trigger] new.slots()[i] == mid.slots().update(
        h.0 as int,
        None,
    )[i] by {
        lemma_placed_cap_has_no_descendants(old, mid, cap, h, i);
        if i == h.0 {
            assert(reaches(mid.tree(), i, h.0 as int, 0));
        }
    }
    assert(new.slots() =~= mid.slots().update(h.0 as int, None));
}

} // verus!
