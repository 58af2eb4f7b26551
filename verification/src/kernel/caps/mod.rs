//! The kernel's capability table: the core of the exokernel.
//!
//! Every capability in the system lives in one slot of the global table; all
//! resource access is mediated through it.
pub mod laws;
pub mod table;

use vstd::prelude::*;
use crate::shared::caps::{
    bits_contain, contains_overflows, resource_covers, Capability, CapabilityHandle, CapabilityInfo,
    Generation, ResourceDescriptor, Rights, next_generation,
};
use crate::shared::error::{SysError, SysResult};

verus! {

/// Maximum capabilities per process.
pub const MAX_CAPS_PER_PROCESS: usize = 256;

/// Maximum total capabilities in the system.
pub const MAX_TOTAL_CAPS: usize = 4096;

/// An entry in the capability table.
#[derive(Clone, Copy)]
struct CapabilityEntry {
    cap: Capability,
    valid: bool,
    /// The capability's parent link still counts for revocation: false once
    /// the parent was dropped (the capability keeps its recorded parent)
    linked: bool,
}

/// The global capability table.
pub struct GlobalCapTable {
    /// All capability slots of the system
    caps: Vec<CapabilityEntry>,
    /// Current generation (for mass revocation)
    current_generation: Generation,
    /// Free slots, used as a stack
    free_slots: Vec<usize>,
}

spec fn entry_slot(e: CapabilityEntry) -> Option<Capability> {
    if e.valid {
        Some(e.cap)
    } else {
        None
    }
}

spec fn entry_node(e: CapabilityEntry) -> Option<Capability> {
    if e.valid {
        Some(
            if e.linked {
                e.cap
            } else {
                Capability { parent: CapabilityHandle(0), ..e.cap }
            },
        )
    } else {
        None
    }
}

/// The capability in slot `i` was created with parent slot `p`.
pub open spec fn child_of(slots: Seq<Option<Capability>>, i: int, p: int) -> bool {
    &&& 0 <= i < slots.len()
    &&& slots[i] is Some
    &&& slots[i].unwrap().parent.0 as int == p
}

/// Slot `s` reaches slot `x` by following at most `n` parent links, each
/// from a slot in use.
pub open spec fn reaches(slots: Seq<Option<Capability>>, s: int, x: int, n: nat) -> bool
    decreases n,
{
    if s == x {
        true
    } else if n == 0 {
        false
    } else {
        &&& 0 <= s < slots.len()
        &&& slots[s] is Some
        &&& reaches(slots, slots[s].unwrap().parent.0 as int, x, (n - 1) as nat)
    }
}

/// The capability in slot `s` is `x` or was derived from it, directly or through
/// a chain of capabilities in use.
pub open spec fn derived_from(slots: Seq<Option<Capability>>, s: int, x: int) -> bool {
    &&& 0 <= s < slots.len()
    &&& slots[s] is Some
    &&& exists|n: nat| #[trigger] reaches(slots, s, x, n)
}

/// A derivation tree after the capability in slot `p` has gone: every
/// capability whose parent link was `p` becomes a root (its link the null
/// handle), so that a capability later put into slot `p` has no children it
/// did not make.
pub open spec fn orphaned(slots: Seq<Option<Capability>>, p: int) -> Seq<Option<Capability>> {
    Seq::new(
        slots.len(),
        |i: int|
            match slots[i] {
                Some(c) => if c.parent.0 == p {
                    Some(Capability { parent: CapabilityHandle(0), ..c })
                } else {
                    Some(c)
                },
                None => None,
            },
    )
}

/// Every capability in use names as its parent no capability (the null
/// handle) or one in use.
pub open spec fn links_live(slots: Seq<Option<Capability>>) -> bool {
    forall|i: int|
        0 <= i < slots.len() && #[trigger] slots[i] is Some ==> (slots[i].unwrap().parent.0 == 0 || (
        slots[i].unwrap().parent.0 < slots.len() && slots[slots[i].unwrap().parent.0 as int] is Some))
}

/// The slots in use.
pub open spec fn occupied(slots: Seq<Option<Capability>>) -> Set<usize> {
    Set::new(|i: usize| (i as int) < slots.len() && slots[i as int] is Some)
}

/// What a lookup of `h` gives in a table with these slots and generation.
pub open spec fn lookup_in(
    slots: Seq<Option<Capability>>,
    generation: Generation,
    h: CapabilityHandle,
) -> Result<Capability, SysError> {
    if h.0 >= MAX_TOTAL_CAPS || h.0 >= slots.len() {
        Err(SysError::InvalidCapability)
    } else {
        match slots[h.0 as int] {
            None => Err(SysError::InvalidCapability),
            Some(c) => if c.generation.0 != generation.0 {
                Err(SysError::RevokedCapability)
            } else {
                Ok(c)
            },
        }
    }
}

impl GlobalCapTable {
    /// The capability in each slot, for slots in use.
    pub closed spec fn slots(&self) -> Seq<Option<Capability>> {
        self.caps@.map_values(|e: CapabilityEntry| entry_slot(e))
    }

    /// The derivation tree that revocation follows: the capability in each
    /// slot in use, with its parent link, or the null handle once the parent
    /// was dropped (the capability itself keeps its recorded parent).
    pub closed spec fn tree(&self) -> Seq<Option<Capability>> {
        self.caps@.map_values(|e: CapabilityEntry| entry_node(e))
    }

    /// How the tree relates to the slots: the same slots are in use, with
    /// the same capabilities but for the parent link, which is the recorded
    /// parent or the null handle.
    pub proof fn lemma_tree_shape(&self)
        ensures
            self.tree().len() == self.slots().len(),
            forall|i: int|
                0 <= i < self.slots().len() ==> (#[trigger] self.tree()[i] is Some <==> self.slots()[i] is Some),
            forall|i: int|
                0 <= i < self.slots().len() && #[trigger] self.tree()[i] is Some ==> self.tree()[i] == Some(
                    Capability { parent: self.tree()[i].unwrap().parent, ..self.slots()[i].unwrap() },
                ) && (self.tree()[i].unwrap().parent == self.slots()[i].unwrap().parent
                    || self.tree()[i].unwrap().parent.0 == 0),
    {
        assert forall|i: int| 0 <= i < self.slots().len() implies (#[trigger] self.tree()[i] is Some <==> self.slots()[i] is Some) by {
            assert(self.tree()[i] == entry_node(self.caps@[i]));
            assert(self.slots()[i] == entry_slot(self.caps@[i]));
        }
        assert forall|i: int| 0 <= i < self.slots().len() && #[trigger] self.tree()[i] is Some implies self.tree()[i] == Some(
            Capability { parent: self.tree()[i].unwrap().parent, ..self.slots()[i].unwrap() },
        ) && (self.tree()[i].unwrap().parent == self.slots()[i].unwrap().parent
            || self.tree()[i].unwrap().parent.0 == 0) by {
            assert(self.tree()[i] == entry_node(self.caps@[i]));
            assert(self.slots()[i] == entry_slot(self.caps@[i]));
        }
    }

    /// The current generation.
    pub closed spec fn generation(&self) -> Generation {
        self.current_generation
    }

    /// The free slots, most recently freed last: the next slot handed out is the last.
    pub closed spec fn free_list(&self) -> Seq<usize> {
        self.free_slots@
    }

    /// Slot 0 is never in use; the free list holds, once each, exactly the
    /// other slots that are not in use.
    pub closed spec fn wf(&self) -> bool {
        &&& self.caps@.len() == MAX_TOTAL_CAPS
        &&& !self.caps@[0].valid
        &&& self.free_slots@.no_duplicates()
        &&& forall|k: int|
            0 <= k < self.free_slots@.len() ==> 1 <= #[trigger] self.free_slots@[k]
                < MAX_TOTAL_CAPS
        &&& forall|i: int|
            1 <= i < MAX_TOTAL_CAPS ==> (!#[trigger] self.caps@[i].valid
                <==> self.free_slots@.contains(i as usize))
    }

    /// What `get(h)` gives.
    pub open spec fn lookup(&self, h: CapabilityHandle) -> Result<Capability, SysError> {
        lookup_in(self.slots(), self.generation(), h)
    }

    /// The capability that a creation would put into the next free slot.
    pub open spec fn new_cap(
        &self,
        resource: ResourceDescriptor,
        rights: Rights,
        parent: CapabilityHandle,
        owner: u64,
    ) -> Capability {
        Capability { resource, rights, generation: self.generation(), parent, owner }
    }

    /// `new` is `old` with `cap` placed in the last free slot, which leaves the free list.
    pub open spec fn placed(old: &Self, new: &Self, cap: Capability, h: CapabilityHandle) -> bool {
        &&& old.free_list().len() > 0
        &&& h.0 == old.free_list().last() as u64
        &&& new.slots() == old.slots().update(old.free_list().last() as int, Some(cap))
        &&& new.tree() == old.tree().update(old.free_list().last() as int, Some(cap))
        &&& new.free_list() == old.free_list().drop_last()
        &&& new.generation() == old.generation()
    }

    /// The two tables are the same.
    pub open spec fn same(old: &Self, new: &Self) -> bool {
        &&& new.slots() == old.slots()
        &&& new.tree() == old.tree()
        &&& new.free_list() == old.free_list()
        &&& new.generation() == old.generation()
    }

    /// What a well-formed table guarantees: `MAX_TOTAL_CAPS` slots, the
    /// null slot 0 never in use (so the null handle never looks up), and the
    /// free list holding exactly the other slots not in use.
    pub proof fn lemma_wf_facts(&self)
        requires
            self.wf(),
        ensures
            self.slots().len() == MAX_TOTAL_CAPS,
            self.slots()[0] is None,
            self.free_list().len() < MAX_TOTAL_CAPS,
            forall|i: int|
                1 <= i < MAX_TOTAL_CAPS ==> (#[trigger] self.slots()[i] is None
                    <==> self.free_list().contains(i as usize)),
            forall|k: int|
                0 <= k < self.free_list().len() ==> self.slots()[#[trigger] self.free_list()[k] as int] is None,
    {
        let s = self.free_slots@;
        assert forall|i: int| 1 <= i < MAX_TOTAL_CAPS implies (#[trigger] self.slots()[i] is None
            <==> self.free_list().contains(i as usize)) by {
            assert(self.caps@[i].valid || !self.caps@[i].valid);
        }
        assert forall|k: int| 0 <= k < self.free_list().len() implies self.slots()[#[trigger] self.free_list()[k] as int] is None by {
            let v = s[k];
            assert(1 <= v < MAX_TOTAL_CAPS);
            assert(s.contains(v));
            assert(!self.caps@[v as int].valid);
        }
        // A duplicate-free list of slots in [1, MAX) is shorter than MAX.
        let range = <usize as vstd::set_lib::FiniteRange>::range_set(1, MAX_TOTAL_CAPS);
        vstd::set_lib::range_set_properties::<usize>(1, MAX_TOTAL_CAPS);
        s.unique_seq_to_set();
        assert forall|v: usize| s.to_set().contains(v) implies range.contains(v) by {
            let k = choose|k: int| 0 <= k < s.len() && s[k] == v;
            assert(1 <= s[k] < MAX_TOTAL_CAPS);
        }
        vstd::set_lib::lemma_len_subset(s.to_set(), range);
    }

    /// A well-formed table has `MAX_TOTAL_CAPS` slots.
    pub proof fn lemma_wf_len(&self)
        requires
            self.wf(),
        ensures
            self.slots().len() == MAX_TOTAL_CAPS,
    {
    }

    /// In a well-formed table, the slot handed out next is empty, and not
    /// slot 0.
    pub proof fn lemma_next_free_slot(&self)
        requires
            self.wf(),
            self.free_list().len() > 0,
        ensures
            1 <= self.free_list().last() < MAX_TOTAL_CAPS,
            self.slots()[self.free_list().last() as int] is None,
            self.slots().len() == MAX_TOTAL_CAPS,
    {
        self.lemma_wf_facts();
        let k = self.free_list().len() - 1;
        assert(self.slots()[self.free_list()[k] as int] is None);
    }

    /// Placing a capability whose parent is null or in use keeps every
    /// parent link pointing at a capability in use.
    proof fn lemma_placed_links(old: &Self, new: &Self, cap: Capability, h: CapabilityHandle)
        requires
            old.wf(),
            Self::placed(old, new, cap, h),
            links_live(old.tree()),
            cap.parent.0 == 0 || (cap.parent.0 < MAX_TOTAL_CAPS && old.slots()[cap.parent.0 as int] is Some),
        ensures
            links_live(new.tree()),
    {
        old.lemma_next_free_slot();
        old.lemma_tree_shape();
        let o = old.tree();
        let f = new.tree();
        assert forall|i: int| 0 <= i < f.len() && #[trigger] f[i] is Some implies (f[i].unwrap().parent.0 == 0 || (
            f[i].unwrap().parent.0 < f.len() && f[f[i].unwrap().parent.0 as int] is Some)) by {
            let p = f[i].unwrap().parent.0;
            if p != 0 {
                if i != h.0 {
                    assert(o[i] is Some);
                }
                assert(o[p as int] is Some);
                assert(p != h.0);
            }
        }
    }

    /// A table with every slot free and the first generation.
    pub fn new() -> (r: GlobalCapTable)
        ensures
            r.wf(),
            r.slots() == Seq::new(MAX_TOTAL_CAPS as nat, |i: int| None::<Capability>),
            r.generation() == Generation(1),
            r.free_list() == Seq::new((MAX_TOTAL_CAPS - 1) as nat, |k: int| (k + 1) as usize),
            links_live(r.tree()),
    {
        let mut caps: Vec<CapabilityEntry> = Vec::new();
        let mut free_slots: Vec<usize> = Vec::new();
        let mut i: usize = 0;
        while i < MAX_TOTAL_CAPS
            invariant
                i <= MAX_TOTAL_CAPS,
                caps@.len() == i,
                forall|j: int| 0 <= j < i ==> !(#[trigger] caps@[j]).valid,
                i == 0 ==> free_slots@.len() == 0,
                i > 0 ==> free_slots@ == Seq::new((i - 1) as nat, |k: int| (k + 1) as usize),
            decreases MAX_TOTAL_CAPS - i,
        {
            caps.push(CapabilityEntry { cap: Capability::null(), valid: false, linked: false });
            if i > 0 {
                free_slots.push(i);
                assert(free_slots@ =~= Seq::new(i as nat, |k: int| (k + 1) as usize));
            } else {
                assert(free_slots@ =~= Seq::new(0, |k: int| (k + 1) as usize));
            }
            i = i + 1;
        }
        let r = GlobalCapTable { caps, current_generation: Generation::initial(), free_slots };
        assert(r.slots() =~= Seq::new(MAX_TOTAL_CAPS as nat, |i: int| None::<Capability>));
        assert(r.tree() =~= Seq::new(MAX_TOTAL_CAPS as nat, |i: int| None::<Capability>));
        assert forall|i: int| 1 <= i < MAX_TOTAL_CAPS implies (!#[trigger] r.caps@[i].valid
            <==> r.free_slots@.contains(i as usize)) by {
            assert(r.free_slots@[i - 1] == i as usize);
        }
        r
    }

    /// Takes the most recently freed slot.
    fn alloc_slot(&mut self) -> (r: Option<usize>)
        requires
            old(self).wf(),
        ensures
            old(self).free_list().len() == 0 ==> r is None && final(self).free_list() == old(self).free_list(),
            old(self).free_list().len() > 0 ==> r == Some(old(self).free_list().last())
                && final(self).free_list() == old(self).free_list().drop_last(),
            final(self).caps == old(self).caps,
            final(self).current_generation == old(self).current_generation,
    {
        self.free_slots.pop()
    }

    /// Puts `entry` into a slot taken off the free list.
    fn fill_slot(&mut self, slot: usize, cap: Capability)
        requires
            old(self).caps@.len() == MAX_TOTAL_CAPS,
            !old(self).caps@[0].valid,
            old(self).free_slots@.no_duplicates(),
            forall|k: int|
                0 <= k < old(self).free_slots@.len() ==> 1 <= #[trigger] old(self).free_slots@[k]
                    < MAX_TOTAL_CAPS,
            1 <= slot < MAX_TOTAL_CAPS,
            !old(self).free_slots@.contains(slot),
            forall|i: int|
                1 <= i < MAX_TOTAL_CAPS && i != slot ==> (!#[trigger] old(self).caps@[i].valid
                    <==> old(self).free_slots@.contains(i as usize)),
        ensures
            final(self).wf(),
            final(self).slots() == old(self).slots().update(slot as int, Some(cap)),
            final(self).tree() == old(self).tree().update(slot as int, Some(cap)),
            final(self).free_list() == old(self).free_list(),
            final(self).generation() == old(self).generation(),
    {
        self.caps.set(slot, CapabilityEntry { cap, valid: true, linked: true });
        assert(self.slots() =~= old(self).slots().update(slot as int, Some(cap)));
        assert(self.tree() =~= old(self).tree().update(slot as int, Some(cap)));
    }

    /// Frees a slot in use.
    fn free_slot(&mut self, slot: usize)
        requires
            old(self).wf(),
            0 <= slot < MAX_TOTAL_CAPS,
            old(self).slots()[slot as int] is Some,
        ensures
            final(self).wf(),
            final(self).slots() == old(self).slots().update(slot as int, None),
            final(self).tree() == old(self).tree().update(slot as int, None),
            final(self).free_list() == old(self).free_list().push(slot),
            final(self).generation() == old(self).generation(),
            final(self).caps@.len() == old(self).caps@.len(),
            !final(self).caps@[slot as int].valid,
            forall|i: int| 0 <= i < old(self).caps@.len() && i != slot ==> #[trigger] final(self).caps@[i] == old(self).caps@[i],
    {
        proof {
            self.lemma_wf_facts();
        }
        if slot > 0 && slot < MAX_TOTAL_CAPS {
            self.caps.set(slot, CapabilityEntry { cap: Capability::null(), valid: false, linked: false });
            self.free_slots.push(slot);
            assert(self.slots() =~= old(self).slots().update(slot as int, None));
            assert(self.tree() =~= old(self).tree().update(slot as int, None));
            assert forall|i: int| 1 <= i < MAX_TOTAL_CAPS implies (!#[trigger] self.caps@[i].valid
                <==> self.free_slots@.contains(i as usize)) by {
                assert(old(self).free_slots@.contains(i as usize) ==> self.free_slots@.contains(i as usize)) by {
                    if old(self).free_slots@.contains(i as usize) {
                        let k = choose|k: int| 0 <= k < old(self).free_slots@.len() && old(self).free_slots@[k] == i as usize;
                        assert(self.free_slots@[k] == i as usize);
                    }
                }
                if i != slot {
                    assert(self.free_slots@.contains(i as usize) ==> old(self).free_slots@.contains(i as usize)) by {
                        if self.free_slots@.contains(i as usize) {
                            let k = choose|k: int| 0 <= k < self.free_slots@.len() && self.free_slots@[k] == i as usize;
                            assert(k < old(self).free_slots@.len());
                        }
                    }
                } else {
                    assert(self.free_slots@[old(self).free_slots@.len() as int] == slot);
                }
            }
            assert(!old(self).free_slots@.contains(slot));
        }
    }

    /// Puts `cap` into the most recently freed slot.
    fn place(&mut self, cap: Capability) -> (r: SysResult<CapabilityHandle>)
        requires
            old(self).wf(),
        ensures
            final(self).wf(),
            old(self).free_list().len() == 0 ==> r == Err::<CapabilityHandle, SysError>(
                SysError::CapabilityTableFull,
            ) && Self::same(old(self), final(self)),
            old(self).free_list().len() > 0 ==> r is Ok && Self::placed(
                old(self),
                final(self),
                cap,
                r->Ok_0,
            ),
    {
        proof {
            self.lemma_wf_facts();
        }
        let slot = match self.alloc_slot() {
            Some(s) => s,
            None => return Err(SysError::CapabilityTableFull),
        };
        proof {
            let old_free = old(self).free_slots@;
            assert(old_free[old_free.len() - 1] == slot);
            assert(1 <= slot < MAX_TOTAL_CAPS);
            assert(!self.free_slots@.contains(slot)) by {
                if self.free_slots@.contains(slot) {
                    let k = choose|k: int| 0 <= k < self.free_slots@.len() && self.free_slots@[k] == slot;
                    assert(old_free[k] == old_free[old_free.len() - 1]);
                }
            }
            assert forall|i: int| 1 <= i < MAX_TOTAL_CAPS && i != slot implies (!#[trigger] self.caps@[i].valid
                <==> self.free_slots@.contains(i as usize)) by {
                if old_free.contains(i as usize) {
                    let k = choose|k: int| 0 <= k < old_free.len() && old_free[k] == i as usize;
                    assert(k != old_free.len() - 1);
                    assert(self.free_slots@[k] == i as usize);
                }
                if self.free_slots@.contains(i as usize) {
                    let k = choose|k: int| 0 <= k < self.free_slots@.len() && self.free_slots@[k] == i as usize;
                    assert(old_free[k] == i as usize);
                }
            }
        }
        self.fill_slot(slot, cap);
        Ok(CapabilityHandle(slot as u64))
    }

    /// Creates a root capability (kernel only).
    pub fn create_root_cap(
        &mut self,
        resource: ResourceDescriptor,
        rights: Rights,
        owner: u64,
    ) -> (r: SysResult<CapabilityHandle>)
        requires
            old(self).wf(),
        ensures
            final(self).wf(),
            old(self).free_list().len() == 0 ==> r == Err::<CapabilityHandle, SysError>(
                SysError::CapabilityTableFull,
            ) && Self::same(old(self), final(self)),
            old(self).free_list().len() > 0 ==> r is Ok && Self::placed(
                old(self),
                final(self),
                old(self).new_cap(resource, rights, CapabilityHandle(0), owner),
                r->Ok_0,
            ),
            links_live(old(self).tree()) ==> links_live(final(self).tree()),
    {
        let cap = Capability {
            resource,
            rights,
            generation: self.current_generation,
            parent: CapabilityHandle::null(),
            owner,
        };
        let r = self.place(cap);
        proof {
            if r is Ok && links_live(old(self).tree()) {
                Self::lemma_placed_links(old(self), self, cap, r->Ok_0);
            }
        }
        r
    }

    /// Why a grant from `parent_handle` is refused, if it is.
    pub open spec fn grant_check(
        &self,
        parent_handle: CapabilityHandle,
        resource: ResourceDescriptor,
        rights: Rights,
    ) -> Result<(), SysError> {
        match self.lookup(parent_handle) {
            Err(e) => Err(e),
            Ok(parent) => if !bits_contain(parent.rights.0, Rights::GRANT) {
                Err(SysError::InsufficientRights)
            } else if !bits_contain(parent.rights.0, rights.0) {
                Err(SysError::InsufficientRights)
            } else if !resource_covers(parent.resource, resource) {
                Err(SysError::InvalidArgument)
            } else if self.free_list().len() == 0 {
                Err(SysError::CapabilityTableFull)
            } else {
                Ok(())
            },
        }
    }

    /// A grant from `parent_handle` compares range ends that overflow.
    pub open spec fn grant_overflows(
        &self,
        parent_handle: CapabilityHandle,
        resource: ResourceDescriptor,
        rights: Rights,
    ) -> bool {
        match self.lookup(parent_handle) {
            Err(e) => false,
            Ok(parent) => bits_contain(parent.rights.0, Rights::GRANT) && bits_contain(
                parent.rights.0,
                rights.0,
            ) && contains_overflows(parent.resource, resource),
        }
    }

    /// Grants a capability derived from `parent_handle`: the parent must hold
    /// GRANT and every requested right, and its resource must contain the
    /// requested one.
    pub fn grant(
        &mut self,
        parent_handle: CapabilityHandle,
        resource: ResourceDescriptor,
        rights: Rights,
        target_owner: u64,
    ) -> (r: SysResult<CapabilityHandle>)
        requires
            old(self).wf(),
            !old(self).grant_overflows(parent_handle, resource, rights),
        ensures
            final(self).wf(),
            match old(self).grant_check(parent_handle, resource, rights) {
                Err(e) => r == Err::<CapabilityHandle, SysError>(e) && Self::same(old(self), final(self)),
                Ok(_) => r is Ok && Self::placed(
                    old(self),
                    final(self),
                    old(self).new_cap(resource, rights, parent_handle, target_owner),
                    r->Ok_0,
                ),
            },
            links_live(old(self).tree()) ==> links_live(final(self).tree()),
    {
        proof {
            self.lemma_wf_facts();
        }
        let (parent_resource, parent_rights) = match self.get(parent_handle) {
            Ok(parent) => (parent.resource, parent.rights),
            Err(e) => return Err(e),
        };
        if !parent_rights.contains(Rights(Rights::GRANT)) {
            return Err(SysError::InsufficientRights);
        }
        if !parent_rights.contains(rights) {
            return Err(SysError::InsufficientRights);
        }
        if !parent_resource.contains(&resource) {
            return Err(SysError::InvalidArgument);
        }
        let cap = Capability {
            resource,
            rights,
            generation: self.current_generation,
            parent: parent_handle,
            owner: target_owner,
        };
        let r = self.place(cap);
        proof {
            if r is Ok && links_live(old(self).tree()) {
                Self::lemma_placed_links(old(self), self, cap, r->Ok_0);
            }
        }
        r
    }

    /// Why a delegation of `handle` is refused, if it is.
    pub open spec fn delegate_check(
        &self,
        handle: CapabilityHandle,
        requesting_pid: u64,
        new_rights: Rights,
    ) -> Result<Capability, SysError> {
        match self.lookup(handle) {
            Err(e) => Err(e),
            Ok(cap) => if cap.owner != requesting_pid {
                Err(SysError::NotPermitted)
            } else if !bits_contain(cap.rights.0, Rights::DELEGATE) {
                Err(SysError::CannotDelegate)
            } else if !bits_contain(cap.rights.0, new_rights.0) {
                Err(SysError::InsufficientRights)
            } else if self.free_list().len() == 0 {
                Err(SysError::CapabilityTableFull)
            } else {
                Ok(cap)
            },
        }
    }

    /// Delegates a capability to another process with the given (fewer or
    /// equal) rights: only its owner can, and only while it holds DELEGATE.
    pub fn delegate(
        &mut self,
        handle: CapabilityHandle,
        requesting_pid: u64,
        target_pid: u64,
        new_rights: Rights,
    ) -> (r: SysResult<CapabilityHandle>)
        requires
            old(self).wf(),
        ensures
            final(self).wf(),
            match old(self).delegate_check(handle, requesting_pid, new_rights) {
                Err(e) => r == Err::<CapabilityHandle, SysError>(e) && Self::same(old(self), final(self)),
                Ok(cap) => r is Ok && Self::placed(
                    old(self),
                    final(self),
                    old(self).new_cap(cap.resource, new_rights, handle, target_pid),
                    r->Ok_0,
                ),
            },
            links_live(old(self).tree()) ==> links_live(final(self).tree()),
    {
        let (cap_resource, cap_rights, cap_owner) = match self.get(handle) {
            Ok(cap) => (cap.resource, cap.rights, cap.owner),
            Err(e) => return Err(e),
        };
        if cap_owner != requesting_pid {
            return Err(SysError::NotPermitted);
        }
        if !cap_rights.contains(Rights(Rights::DELEGATE)) {
            return Err(SysError::CannotDelegate);
        }
        if !cap_rights.contains(new_rights) {
            return Err(SysError::InsufficientRights);
        }
        let new_cap = Capability {
            resource: cap_resource,
            rights: new_rights,
            generation: self.current_generation,
            parent: handle,
            owner: target_pid,
        };
        let r = self.place(new_cap);
        proof {
            if r is Ok && links_live(old(self).tree()) {
                Self::lemma_placed_links(old(self), self, new_cap, r->Ok_0);
            }
        }
        r
    }

    /// Gets a capability by handle.
    pub fn get(&self, handle: CapabilityHandle) -> (r: SysResult<&Capability>)
        requires
            self.wf(),
        ensures
            match r {
                Ok(c) => self.lookup(handle) == Ok::<Capability, SysError>(*c),
                Err(e) => self.lookup(handle) == Err::<Capability, SysError>(e),
            },
    {
        if handle.0 >= MAX_TOTAL_CAPS as u64 {
            return Err(SysError::InvalidCapability);
        }
        let slot = handle.0 as usize;
        let entry = &self.caps[slot];
        if !entry.valid {
            return Err(SysError::InvalidCapability);
        }
        if !entry.cap.generation.is_valid(self.current_generation) {
            return Err(SysError::RevokedCapability);
        }
        Ok(&entry.cap)
    }

    /// What dropping `handle` by `requesting_pid` answers: the slot must be in
    /// use and owned by the requester.
    pub open spec fn drop_check(&self, handle: CapabilityHandle, requesting_pid: u64) -> Result<(), SysError> {
        if handle.0 >= MAX_TOTAL_CAPS || self.slots()[handle.0 as int] is None {
            Err(SysError::InvalidCapability)
        } else if self.slots()[handle.0 as int].unwrap().owner != requesting_pid {
            Err(SysError::NotPermitted)
        } else {
            Ok(())
        }
    }

    /// Drops a capability voluntarily. Only that slot is freed: the
    /// capabilities derived from it stay valid and unchanged. Those it was the
    /// parent of leave the derivation tree as roots (see `orphaned`), so that
    /// a capability later put into the freed slot has no children it did not
    /// make.
    pub fn drop_cap(&mut self, handle: CapabilityHandle, requesting_pid: u64) -> (r: SysResult<()>)
        requires
            old(self).wf(),
        ensures
            final(self).wf(),
            r == old(self).drop_check(handle, requesting_pid),
            r is Err ==> Self::same(old(self), final(self)),
            r is Ok ==> final(self).slots() == old(self).slots().update(handle.0 as int, None)
                && final(self).tree() == orphaned(old(self).tree().update(handle.0 as int, None), handle.0 as int)
                && final(self).free_list() == old(self).free_list().push(handle.0 as usize)
                && final(self).generation() == old(self).generation(),
            links_live(old(self).tree()) ==> links_live(final(self).tree()),
    {
        proof {
            self.lemma_wf_facts();
        }
        if handle.0 >= MAX_TOTAL_CAPS as u64 {
            return Err(SysError::InvalidCapability);
        }
        let slot = handle.0 as usize;
        let entry = &self.caps[slot];
        if !entry.valid {
            return Err(SysError::InvalidCapability);
        }
        if entry.cap.owner != requesting_pid {
            return Err(SysError::NotPermitted);
        }
        self.free_slot(slot);
        let ghost s0 = self.slots();
        let ghost t0 = self.tree();
        let ghost c0 = self.caps@;
        let ghost f0 = self.free_slots@;
        let mut i: usize = 0;
        while i < MAX_TOTAL_CAPS
            invariant
                i <= MAX_TOTAL_CAPS,
                1 <= slot < MAX_TOTAL_CAPS,
                s0 == old(self).slots().update(slot as int, None),
                t0 == old(self).tree().update(slot as int, None),
                c0.len() == MAX_TOTAL_CAPS,
                s0 == c0.map_values(|e: CapabilityEntry| entry_slot(e)),
                t0 == c0.map_values(|e: CapabilityEntry| entry_node(e)),
                self.caps@.len() == MAX_TOTAL_CAPS,
                self.free_slots@ == f0,
                self.current_generation == old(self).current_generation,
                forall|k: int| 0 <= k < MAX_TOTAL_CAPS ==> #[trigger] self.caps@[k].valid == c0[k].valid,
                forall|k: int| 0 <= k < MAX_TOTAL_CAPS ==> #[trigger] self.caps@[k].cap == c0[k].cap,
                forall|k: int| 0 <= k < i ==> #[trigger] self.tree()[k] == orphaned(t0, slot as int)[k],
                forall|k: int| i <= k < MAX_TOTAL_CAPS ==> #[trigger] self.caps@[k] == c0[k],
            decreases MAX_TOTAL_CAPS - i,
        {
            let e = self.caps[i];
            let ghost prev = self.caps@;
            let ghost prev_tree = self.tree();
            if e.valid && e.linked && e.cap.parent.0 == slot as u64 {
                self.caps.set(i, CapabilityEntry { cap: e.cap, valid: true, linked: false });
            }
            proof {
                assert forall|k: int| 0 <= k < i + 1 implies #[trigger] self.tree()[k] == orphaned(t0, slot as int)[k] by {
                    assert(self.tree()[k] == entry_node(self.caps@[k]));
                    if k == i {
                        assert(t0[k] == entry_node(c0[k]));
                    } else {
                        assert(self.caps@[k] == prev[k]);
                        assert(prev_tree[k] == entry_node(prev[k]));
                    }
                }
            }
            i = i + 1;
        }
        proof {
            assert(self.tree() =~= orphaned(t0, slot as int));
            assert forall|k: int| 0 <= k < MAX_TOTAL_CAPS implies #[trigger] self.slots()[k] == s0[k] by {
                assert(self.slots()[k] == entry_slot(self.caps@[k]));
                assert(s0[k] == entry_slot(c0[k]));
            }
            assert(self.slots() =~= s0);
            let o = old(self).tree();
            let f = self.tree();
            if links_live(o) {
                assert forall|k: int| 0 <= k < f.len() && #[trigger] f[k] is Some implies (f[k].unwrap().parent.0 == 0
                    || (f[k].unwrap().parent.0 < f.len() && f[f[k].unwrap().parent.0 as int] is Some)) by {
                    assert(o[k] is Some);
                    let p = o[k].unwrap().parent.0;
                    if p != slot as u64 && p != 0 {
                        assert(o[p as int] is Some);
                        assert(f[p as int] is Some);
                    }
                }
            }
        }
        Ok(())
    }

    /// What inspecting `handle` by `requesting_pid` gives.
    pub open spec fn inspect_result(&self, handle: CapabilityHandle, requesting_pid: u64) -> Result<CapabilityInfo, SysError> {
        match self.lookup(handle) {
            Err(e) => Err(e),
            Ok(cap) => if cap.owner != requesting_pid {
                Err(SysError::NotPermitted)
            } else {
                Ok(CapabilityInfo {
                    resource: cap.resource,
                    rights: cap.rights,
                    generation: cap.generation,
                    has_parent: cap.parent.0 != 0,
                })
            },
        }
    }

    /// Inspects a capability; a process can inspect only its own.
    pub fn inspect(&self, handle: CapabilityHandle, requesting_pid: u64) -> (r: SysResult<CapabilityInfo>)
        requires
            self.wf(),
        ensures
            r == self.inspect_result(handle, requesting_pid),
    {
        let cap = match self.get(handle) {
            Ok(c) => c,
            Err(e) => return Err(e),
        };
        if cap.owner != requesting_pid {
            return Err(SysError::NotPermitted);
        }
        Ok(CapabilityInfo {
            resource: cap.resource,
            rights: cap.rights,
            generation: cap.generation,
            has_parent: !cap.parent.is_null(),
        })
    }

    /// What validating `handle` for `requesting_pid` and `required_rights` gives.
    pub open spec fn validate_result(
        &self,
        handle: CapabilityHandle,
        requesting_pid: u64,
        required_rights: Rights,
    ) -> Result<Capability, SysError> {
        match self.lookup(handle) {
            Err(e) => Err(e),
            Ok(cap) => if cap.owner != requesting_pid {
                Err(SysError::NotPermitted)
            } else if !bits_contain(cap.rights.0, required_rights.0) {
                Err(SysError::InsufficientRights)
            } else {
                Ok(cap)
            },
        }
    }

    /// Checks that a process holds a current capability with the given rights.
    pub fn validate(
        &self,
        handle: CapabilityHandle,
        requesting_pid: u64,
        required_rights: Rights,
    ) -> (r: SysResult<&Capability>)
        requires
            self.wf(),
        ensures
            match r {
                Ok(c) => self.validate_result(handle, requesting_pid, required_rights) == Ok::<Capability, SysError>(*c),
                Err(e) => self.validate_result(handle, requesting_pid, required_rights) == Err::<Capability, SysError>(e),
            },
    {
        let cap = match self.get(handle) {
            Ok(c) => c,
            Err(e) => return Err(e),
        };
        if cap.owner != requesting_pid {
            return Err(SysError::NotPermitted);
        }
        if !cap.rights.contains(required_rights) {
            return Err(SysError::InsufficientRights);
        }
        Ok(cap)
    }

    /// Handles of all slots in use owned by `pid`, in slot order (whatever
    /// their generation).
    pub fn get_process_caps(&self, pid: u64) -> (r: Vec<CapabilityHandle>)
        requires
            self.wf(),
        ensures
            forall|a: int, b: int| 0 <= a < b < r@.len() ==> r@[a].0 < r@[b].0,
            forall|k: int| 0 <= k < r@.len() ==> #[trigger] r@[k].0 < MAX_TOTAL_CAPS,
            forall|i: int|
                0 <= i < MAX_TOTAL_CAPS ==> (r@.contains(CapabilityHandle(i as u64)) <==> (
                #[trigger] self.slots()[i] is Some && self.slots()[i].unwrap().owner == pid)),
            !r@.contains(CapabilityHandle(0)),
    {
        proof {
            self.lemma_wf_facts();
        }
        let mut r: Vec<CapabilityHandle> = Vec::new();
        let mut i: usize = 0;
        while i < MAX_TOTAL_CAPS
            invariant
                self.wf(),
                i <= MAX_TOTAL_CAPS,
                self.slots().len() == MAX_TOTAL_CAPS,
                forall|a: int, b: int| 0 <= a < b < r@.len() ==> r@[a].0 < r@[b].0,
                forall|k: int| 0 <= k < r@.len() ==> #[trigger] r@[k].0 < i,
                forall|j: int|
                    0 <= j < i ==> (r@.contains(CapabilityHandle(j as u64)) <==> (
                    #[trigger] self.slots()[j] is Some && self.slots()[j].unwrap().owner == pid)),
            decreases MAX_TOTAL_CAPS - i,
        {
            let ghost prev = r@;
            let e = &self.caps[i];
            if e.valid && e.cap.owner == pid {
                r.push(CapabilityHandle(i as u64));
            }
            proof {
                assert(self.slots()[i as int] == entry_slot(self.caps@[i as int]));
                let hit = self.slots()[i as int] is Some && self.slots()[i as int].unwrap().owner == pid;
                assert(hit ==> r@ == prev.push(CapabilityHandle(i as u64)));
                assert(!hit ==> r@ == prev);
                assert forall|j: int|
                    0 <= j < i + 1 implies (r@.contains(CapabilityHandle(j as u64)) <==> (
                    #[trigger] self.slots()[j] is Some && self.slots()[j].unwrap().owner == pid)) by {
                    vstd::seq_lib::lemma_seq_contains_after_push(prev, CapabilityHandle(i as u64), CapabilityHandle(j as u64));
                    if j < i {
                        assert(CapabilityHandle(j as u64) != CapabilityHandle(i as u64));
                        assert(prev.contains(CapabilityHandle(j as u64)) <==> (
                            self.slots()[j] is Some && self.slots()[j].unwrap().owner == pid));
                    } else {
                        assert(j == i);
                        if hit {
                            assert(r@[r@.len() - 1] == CapabilityHandle(j as u64));
                        } else {
                            if r@.contains(CapabilityHandle(j as u64)) {
                                let k = choose|k: int| 0 <= k < r@.len() && r@[k] == CapabilityHandle(j as u64);
                                assert(r@[k].0 < i);
                            }
                        }
                    }
                }
            }
            i = i + 1;
        }
        r
    }

    /// Bumps the generation (mass revocation): afterwards every capability
    /// created before answers `RevokedCapability`.
    pub fn bump_generation(&mut self) -> (r: Generation)
        requires
            old(self).wf(),
        ensures
            final(self).wf(),
            r.0 == next_generation(old(self).generation().0),
            final(self).generation() == r,
            final(self).slots() == old(self).slots(),
            final(self).free_list() == old(self).free_list(),
            forall|h: CapabilityHandle|
                #[trigger] old(self).lookup(h) is Ok ==> final(self).lookup(h) == Err::<Capability, SysError>(
                    SysError::RevokedCapability,
                ),
    {
        self.current_generation = self.current_generation.next();
        self.current_generation
    }

    /// The slots in use and the free slots together are every slot but the null one.
    proof fn lemma_used_count(&self)
        requires
            self.wf(),
        ensures
            occupied(self.slots()).finite(),
            occupied(self.slots()).len() + self.free_list().len() == MAX_TOTAL_CAPS - 1,
    {
        broadcast use vstd::seq_lib::seq_to_set_is_finite;
        self.lemma_wf_facts();
        let used = occupied(self.slots());
        let free = self.free_list().to_set();
        let range = <usize as vstd::set_lib::FiniteRange>::range_set(1, MAX_TOTAL_CAPS);
        vstd::set_lib::range_set_properties::<usize>(1, MAX_TOTAL_CAPS);
        self.free_slots@.unique_seq_to_set();
        assert forall|v: usize| #[trigger] used.contains(v) implies range.contains(v) by {
            assert(v != 0);
        }
        assert forall|v: usize| #[trigger] free.contains(v) implies range.contains(v) && !used.contains(v) by {
            let k = choose|k: int| 0 <= k < self.free_list().len() && self.free_list()[k] == v;
            assert(self.slots()[self.free_list()[k] as int] is None);
        }
        assert forall|v: usize| #[trigger] range.contains(v) implies used.contains(v) || free.contains(v) by {
            assert(self.slots()[v as int] is None <==> self.free_list().contains(v));
        }
        assert(used + free =~= range);
        vstd::set_lib::lemma_len_subset(used, range);
        vstd::set_lib::lemma_set_disjoint_lens(used, free);
    }

    /// (slots in use, free slots); together they account for every slot but the null one.
    pub fn stats(&self) -> (r: (usize, usize))
        requires
            self.wf(),
        ensures
            r.0 == occupied(self.slots()).len(),
            r.1 == self.free_list().len(),
            r.0 == MAX_TOTAL_CAPS - self.free_list().len() - 1,
            r.0 + r.1 == MAX_TOTAL_CAPS - 1,
    {
        proof {
            self.lemma_wf_facts();
            self.lemma_used_count();
        }
        let used = MAX_TOTAL_CAPS - self.free_slots.len() - 1;
        let free = self.free_slots.len();
        (used, free)
    }

    /// What a revocation of `handle` by `requesting_pid` answers: the slot must
    /// be in use, and the requester must own it or it must hold REVOKE.
    pub open spec fn revoke_check(&self, handle: CapabilityHandle, requesting_pid: u64) -> Result<(), SysError> {
        if handle.0 >= MAX_TOTAL_CAPS || self.slots()[handle.0 as int] is None {
            Err(SysError::InvalidCapability)
        } else if self.slots()[handle.0 as int].unwrap().owner != requesting_pid
            && !bits_contain(self.slots()[handle.0 as int].unwrap().rights.0, Rights::REVOKE) {
            Err(SysError::NotPermitted)
        } else {
            Ok(())
        }
    }

    /// `new` is `old` without the capabilities derived from slot `x` (and `x`
    /// itself) in the derivation tree; the slots freed are appended to the
    /// free list.
    pub open spec fn revoked(old: &Self, new: &Self, x: int) -> bool {
        &&& new.generation() == old.generation()
        &&& new.slots().len() == old.slots().len()
        &&& forall|i: int|
            0 <= i < old.slots().len() ==> #[trigger] new.slots()[i] == if derived_from(old.tree(), i, x) {
                None
            } else {
                old.slots()[i]
            }
        &&& new.tree().len() == old.tree().len()
        &&& forall|i: int|
            0 <= i < old.tree().len() ==> #[trigger] new.tree()[i] == if derived_from(old.tree(), i, x) {
                None
            } else {
                old.tree()[i]
            }
        &&& new.free_list().len() >= old.free_list().len()
        &&& new.free_list().take(old.free_list().len() as int) == old.free_list()
    }

    /// Revokes a capability and every capability derived from it.
    pub fn revoke(&mut self, handle: CapabilityHandle, requesting_pid: u64) -> (r: SysResult<()>)
        requires
            old(self).wf(),
        ensures
            final(self).wf(),
            r == old(self).revoke_check(handle, requesting_pid),
            r is Err ==> Self::same(old(self), final(self)),
            r is Ok ==> Self::revoked(old(self), final(self), handle.0 as int),
            links_live(old(self).tree()) ==> links_live(final(self).tree()),
    {
        proof {
            self.lemma_wf_facts();
        }
        if handle.0 >= MAX_TOTAL_CAPS as u64 {
            return Err(SysError::InvalidCapability);
        }
        let slot = handle.0 as usize;
        let entry = &self.caps[slot];
        if !entry.valid {
            return Err(SysError::InvalidCapability);
        }
        if entry.cap.owner != requesting_pid && !entry.cap.rights.contains(Rights(Rights::REVOKE)) {
            return Err(SysError::NotPermitted);
        }
        let mut on_path: Vec<bool> = Vec::new();
        let mut i: usize = 0;
        while i < MAX_TOTAL_CAPS
            invariant
                i <= MAX_TOTAL_CAPS,
                on_path@.len() == i,
                forall|j: int| 0 <= j < i ==> !(#[trigger] on_path@[j]),
            decreases MAX_TOTAL_CAPS - i,
        {
            on_path.push(false);
            i = i + 1;
        }
        on_path.set(slot, true);
        let ghost path = Set::<int>::empty().insert(slot as int);
        proof {
            assert forall|j: int| 0 <= j < MAX_TOTAL_CAPS implies (on_path@[j] <==> path.contains(j)) by {}
        }
        self.revoke_recursive(slot, &mut on_path, Ghost(path));
        proof {
            let o = old(self).tree();
            let f = self.tree();
            assert forall|i: int| 0 <= i < o.len() implies #[trigger] f[i] == if derived_from(o, i, slot as int) {
                None
            } else {
                o[i]
            } by {
                if o[i] is Some {
                    if f[i] is None {
                        let n = choose|n: nat| reaches(o, i, slot as int, n);
                        assert(reaches(o, i, slot as int, n));
                    } else {
                        if derived_from(o, i, slot as int) {
                            let n = choose|n: nat| reaches(o, i, slot as int, n);
                            lemma_closure_frees_chain(o, f, slot as int, path, i, n);
                        }
                    }
                }
            }
            let os = old(self).slots();
            let fs = self.slots();
            assert forall|i: int| 0 <= i < os.len() implies #[trigger] fs[i] == if derived_from(o, i, slot as int) {
                None
            } else {
                os[i]
            } by {
                assert(fs[i] == entry_slot(self.caps@[i]));
                assert(os[i] == entry_slot(old(self).caps@[i]));
                assert(f[i] == entry_node(self.caps@[i]));
            }
            if links_live(o) {
                assert forall|i: int| 0 <= i < f.len() && #[trigger] f[i] is Some implies (f[i].unwrap().parent.0 == 0
                    || (f[i].unwrap().parent.0 < f.len() && f[f[i].unwrap().parent.0 as int] is Some)) by {
                    assert(o[i] is Some && f[i] == o[i]);
                    let p = o[i].unwrap().parent.0;
                    if p != 0 {
                        assert(o[p as int] is Some);
                        if f[p as int] is None {
                            lemma_child_derived(o, i, p as int, slot as int);
                        }
                    }
                }
            }
        }
        Ok(())
    }

    /// Frees slot `x` after everything derived from it, children first in slot
    /// order; a child already on the current chain of calls (`on_path`) is
    /// skipped, which only happens when parent links form a cycle.
    fn revoke_recursive(&mut self, x: usize, on_path: &mut Vec<bool>, Ghost(path): Ghost<Set<int>>)
        requires
            old(self).wf(),
            0 <= x < MAX_TOTAL_CAPS,
            old(self).tree()[x as int] is Some,
            old(on_path)@.len() == MAX_TOTAL_CAPS,
            forall|j: int| 0 <= j < MAX_TOTAL_CAPS ==> (old(on_path)@[j] <==> path.contains(j)),
            path.contains(x as int),
            forall|j: int| path.contains(j) ==> 0 <= j < MAX_TOTAL_CAPS,
        ensures
            final(self).wf(),
            final(on_path)@ == old(on_path)@,
            final(self).generation() == old(self).generation(),
            final(self).free_list().len() >= old(self).free_list().len(),
            final(self).free_list().take(old(self).free_list().len() as int) == old(self).free_list(),
            final(self).tree().len() == old(self).tree().len(),
            final(self).caps@.len() == old(self).caps@.len(),
            forall|i: int|
                0 <= i < MAX_TOTAL_CAPS && #[trigger] final(self).caps@[i].valid ==> final(self).caps@[i] == old(self).caps@[i],
            forall|i: int|
                0 <= i < MAX_TOTAL_CAPS && #[trigger] final(self).tree()[i] is Some ==> final(self).tree()[i]
                    == old(self).tree()[i],
            final(self).tree()[x as int] is None,
            forall|i: int|
                path.contains(i) && i != x ==> #[trigger] final(self).tree()[i] == old(self).tree()[i],
            forall|i: int|
                0 <= i < MAX_TOTAL_CAPS && #[trigger] old(self).tree()[i] is Some && final(self).tree()[i] is None
                    ==> exists|n: nat| #[trigger] reaches(old(self).tree(), i, x as int, n),
            forall|y: int, d: int|
                #[trigger] freed(old(self).tree(), final(self).tree(), y) && #[trigger] child_of(
                    old(self).tree(),
                    d,
                    y,
                ) ==> final(self).tree()[d] is None || path.contains(d),
        decreases MAX_TOTAL_CAPS - path.len(),
    {
        proof {
            self.lemma_wf_facts();
            self.lemma_tree_shape();
            lemma_path_bounded(path);
            assert(x != 0);
        }
        let ghost o = self.tree();
        let ghost old_free = self.free_list();
        // The children of `x`, in slot order.
        let mut children: Vec<usize> = Vec::new();
        let mut i: usize = 0;
        while i < MAX_TOTAL_CAPS
            invariant
                self.wf(),
                self.tree() == o,
                o.len() == MAX_TOTAL_CAPS,
                i <= MAX_TOTAL_CAPS,
                0 < x < MAX_TOTAL_CAPS,
                forall|k: int| 0 <= k < children@.len() ==> #[trigger] children@[k] < i,
                forall|j: int| 0 <= j < i ==> (child_of(o, j, x as int) <==> children@.contains(j as usize)),
            decreases MAX_TOTAL_CAPS - i,
        {
            let ghost prev = children@;
            let e = &self.caps[i];
            if e.valid && e.linked && e.cap.parent.0 == x as u64 {
                children.push(i);
            }
            proof {
                assert(o[i as int] == entry_node(self.caps@[i as int]));
                assert(child_of(o, i as int, x as int) ==> children@ == prev.push(i));
                assert(!child_of(o, i as int, x as int) ==> children@ == prev);
                assert forall|j: int| 0 <= j < i + 1 implies (child_of(o, j, x as int) <==> children@.contains(j as usize)) by {
                    vstd::seq_lib::lemma_seq_contains_after_push(prev, i, j as usize);
                }
            }
            i = i + 1;
        }
        let n = children.len();
        let mut k: usize = 0;
        while k < n
            invariant
                self.wf(),
                n == children@.len(),
                k <= n,
                o.len() == MAX_TOTAL_CAPS,
                0 <= x < MAX_TOTAL_CAPS,
                forall|j: int| 0 <= j < MAX_TOTAL_CAPS ==> (child_of(o, j, x as int) <==> children@.contains(j as usize)),
                forall|q: int| 0 <= q < children@.len() ==> #[trigger] children@[q] < MAX_TOTAL_CAPS,
                on_path@ == old(on_path)@,
                on_path@.len() == MAX_TOTAL_CAPS,
                forall|j: int| 0 <= j < MAX_TOTAL_CAPS ==> (on_path@[j] <==> path.contains(j)),
                path.contains(x as int),
                forall|j: int| path.contains(j) ==> 0 <= j < MAX_TOTAL_CAPS,
                self.generation() == old(self).generation(),
                self.free_list().len() >= old_free.len(),
                self.free_list().take(old_free.len() as int) == old_free,
                old_free == old(self).free_list(),
                o == old(self).tree(),
                self.tree().len() == MAX_TOTAL_CAPS,
                self.caps@.len() == MAX_TOTAL_CAPS,
                forall|i: int| 0 <= i < MAX_TOTAL_CAPS && #[trigger] self.caps@[i].valid ==> self.caps@[i] == old(self).caps@[i],
                forall|i: int| 0 <= i < MAX_TOTAL_CAPS && #[trigger] self.tree()[i] is Some ==> self.tree()[i] == o[i],
                forall|i: int| path.contains(i) ==> #[trigger] self.tree()[i] == o[i],
                forall|i: int|
                    0 <= i < MAX_TOTAL_CAPS && #[trigger] o[i] is Some && self.tree()[i] is None
                        ==> exists|m: nat| #[trigger] reaches(o, i, x as int, m),
                forall|y: int, d: int|
                    #[trigger] freed(o, self.tree(), y) && #[trigger] child_of(o, d, y) ==> self.tree()[d] is None
                        || path.contains(d),
                forall|q: int| 0 <= q < k ==> self.tree()[#[trigger] children@[q] as int] is None
                    || path.contains(children@[q] as int),
            decreases n - k,
        {
            let c = children[k];
            proof {
                assert(children@.contains(c));
                assert(child_of(o, c as int, x as int));
            }
            if self.caps[c].valid && !on_path[c] {
                let ghost before = self.tree();
                let ghost before_free = self.free_list();
                on_path.set(c, true);
                let ghost cpath = path.insert(c as int);
                proof {
                    assert(before[c as int] == entry_node(self.caps@[c as int]));
                    assert(!path.contains(c as int));
                    assert forall|j: int| 0 <= j < MAX_TOTAL_CAPS implies (on_path@[j] <==> cpath.contains(j)) by {}
                    lemma_path_bounded(path);
                    lemma_path_bounded(cpath);
                    assert(cpath.len() == path.len() + 1);
                    assert(MAX_TOTAL_CAPS - cpath.len() < MAX_TOTAL_CAPS - path.len());
                    assert(MAX_TOTAL_CAPS - cpath.len() >= 0);
                }
                self.revoke_recursive(c, on_path, Ghost(cpath));
                on_path.set(c, false);
                proof {
                    let after = self.tree();
                    assert(on_path@ =~= old(on_path)@);
                    // The free list only grew.
                    assert(self.free_list().take(old_free.len() as int) =~= old_free) by {
                        assert forall|q: int| 0 <= q < old_free.len() implies self.free_list()[q] == old_free[q] by {
                            assert(self.free_list().take(before_free.len() as int)[q] == before_free[q]);
                            assert(before_free.take(old_free.len() as int)[q] == old_free[q]);
                        }
                    }
                    // Soundness: what the call freed derives from `x`.
                    assert forall|i: int|
                        0 <= i < MAX_TOTAL_CAPS && #[trigger] o[i] is Some && after[i] is None
                            implies exists|m: nat| #[trigger] reaches(o, i, x as int, m) by {
                        if before[i] is Some {
                            let m = choose|m: nat| reaches(before, i, c as int, m);
                            lemma_reaches_in_older(before, o, i, c as int, m);
                            lemma_reaches_extend(o, i, c as int, x as int, m);
                        }
                    }
                    // Closure: children of freed slots are freed or on the path.
                    assert forall|y: int, d: int|
                        #[trigger] freed(o, after, y) && #[trigger] child_of(o, d, y) implies after[d] is None
                            || path.contains(d) by {
                        if before[y] is None {
                            assert(freed(o, before, y));
                        } else {
                            assert(freed(before, after, y));
                            if before[d] is Some {
                                assert(child_of(before, d, y));
                            }
                        }
                    }
                    assert forall|q: int| 0 <= q < k + 1 implies self.tree()[#[trigger] children@[q] as int] is None
                        || path.contains(children@[q] as int) by {
                        if q < k {
                            let cq = children@[q] as int;
                            if !path.contains(cq) {
                                assert(before[cq] is None);
                            }
                        }
                    }
                }
            } else {
                proof {
                    assert(self.tree()[c as int] == entry_node(self.caps@[c as int]));
                }
            }
            k = k + 1;
        }
        proof {
            assert(self.tree()[x as int] == o[x as int]);
        }
        let ghost before = self.tree();
        let ghost before_free = self.free_list();
        self.free_slot(x);
        proof {
            let after = self.tree();
            assert(self.free_list().take(old_free.len() as int) =~= old_free) by {
                assert forall|q: int| 0 <= q < old_free.len() implies self.free_list()[q] == old_free[q] by {
                    assert(before_free.take(old_free.len() as int)[q] == old_free[q]);
                }
            }
            assert forall|i: int|
                0 <= i < MAX_TOTAL_CAPS && #[trigger] o[i] is Some && after[i] is None
                    implies exists|m: nat| #[trigger] reaches(o, i, x as int, m) by {
                if i == x {
                    assert(reaches(o, i, x as int, 0));
                }
            }
            assert forall|y: int, d: int|
                #[trigger] freed(o, after, y) && #[trigger] child_of(o, d, y) implies after[d] is None
                    || path.contains(d) by {
                if y == x {
                    assert(children@.contains(d as usize));
                    let q = choose|q: int| 0 <= q < children@.len() && children@[q] == d as usize;
                    assert(self.tree()[children@[q] as int] is None || path.contains(children@[q] as int));
                } else {
                    assert(freed(o, before, y));
                }
            }
        }
    }
}

/// Slot `y` was in use in `before` and is not in `after`.
pub open spec fn freed(before: Seq<Option<Capability>>, after: Seq<Option<Capability>>, y: int) -> bool {
    &&& 0 <= y < before.len()
    &&& before[y] is Some
    &&& after[y] is None
}

/// A capability whose parent derives from `x` derives from `x` too.
proof fn lemma_child_derived(slots: Seq<Option<Capability>>, i: int, p: int, x: int)
    requires
        0 <= i < slots.len(),
        slots[i] is Some,
        slots[i].unwrap().parent.0 == p,
        derived_from(slots, p, x),
    ensures
        derived_from(slots, i, x),
{
    let n = choose|n: nat| reaches(slots, p, x, n);
    assert(reaches(slots, i, x, n + 1));
}

proof fn lemma_path_bounded(path: Set<int>)
    requires
        forall|j: int| path.contains(j) ==> 0 <= j < MAX_TOTAL_CAPS,
    ensures
        path.finite(),
        path.len() <= MAX_TOTAL_CAPS,
{
    vstd::set_lib::lemma_int_range(0, MAX_TOTAL_CAPS as int);
    assert(path.subset_of(vstd::set_lib::set_int_range(0, MAX_TOTAL_CAPS as int)));
    vstd::set_lib::lemma_len_subset(path, vstd::set_lib::set_int_range(0, MAX_TOTAL_CAPS as int));
}

/// A chain of slots in use in `newer` was already there in `older`, when every
/// slot in use in `newer` holds what it held in `older`.
proof fn lemma_reaches_in_older(newer: Seq<Option<Capability>>, older: Seq<Option<Capability>>, s: int, x: int, n: nat)
    requires
        reaches(newer, s, x, n),
        newer.len() == older.len(),
        forall|i: int| 0 <= i < newer.len() && #[trigger] newer[i] is Some ==> newer[i] == older[i],
    ensures
        reaches(older, s, x, n),
    decreases n,
{
    if s != x && n > 0 {
        lemma_reaches_in_older(newer, older, newer[s].unwrap().parent.0 as int, x, (n - 1) as nat);
    }
}

/// A chain to slot `c`, whose parent is `x`, continues to `x`.
proof fn lemma_reaches_extend(slots: Seq<Option<Capability>>, s: int, c: int, x: int, n: nat)
    requires
        reaches(slots, s, c, n),
        child_of(slots, c, x),
    ensures
        reaches(slots, s, x, n + 1),
    decreases n,
{
    if s == c {
        if s != x {
            assert(reaches(slots, slots[s].unwrap().parent.0 as int, x, n));
        }
    } else {
        let p = slots[s].unwrap().parent.0 as int;
        lemma_reaches_extend(slots, p, c, x, (n - 1) as nat);
        assert(reaches(slots, p, x, n));
    }
}

/// When the top of a chain is freed and every child of a freed slot is freed
/// too (or sits on `path`, which holds only the top), the whole chain is freed.
proof fn lemma_closure_frees_chain(
    old_slots: Seq<Option<Capability>>,
    new_slots: Seq<Option<Capability>>,
    x: int,
    path: Set<int>,
    s: int,
    n: nat,
)
    requires
        reaches(old_slots, s, x, n),
        0 <= s < old_slots.len(),
        old_slots[s] is Some,
        0 <= x < old_slots.len(),
        old_slots[x] is Some,
        new_slots[x] is None,
        path == Set::<int>::empty().insert(x),
        forall|y: int, d: int|
            #[trigger] freed(old_slots, new_slots, y) && #[trigger] child_of(old_slots, d, y)
                ==> new_slots[d] is None || path.contains(d),
    ensures
        new_slots[s] is None,
    decreases n,
{
    if s != x {
        let p = old_slots[s].unwrap().parent.0 as int;
        if p == x {
            assert(freed(old_slots, new_slots, x));
            assert(child_of(old_slots, s, x));
        } else {
            assert(n > 0);
            assert(reaches(old_slots, p, x, (n - 1) as nat));
            assert(n - 1 > 0);
            lemma_closure_frees_chain(old_slots, new_slots, x, path, p, (n - 1) as nat);
            assert(freed(old_slots, new_slots, p));
            assert(child_of(old_slots, s, p));
        }
    }
}

/// Creates a root capability in `table` (kernel initialization only).
pub fn create_root_cap(
    table: &mut GlobalCapTable,
    resource: ResourceDescriptor,
    rights: Rights,
    owner: u64,
) -> (r: SysResult<CapabilityHandle>)
    requires
        old(table).wf(),
    ensures
        final(table).wf(),
        old(table).free_list().len() == 0 ==> r == Err::<CapabilityHandle, SysError>(
            SysError::CapabilityTableFull,
        ) && GlobalCapTable::same(old(table), final(table)),
        old(table).free_list().len() > 0 ==> r is Ok && GlobalCapTable::placed(
            old(table),
            final(table),
            old(table).new_cap(resource, rights, CapabilityHandle(0), owner),
            r->Ok_0,
        ),
{
    table.create_root_cap(resource, rights, owner)
}

/// Validates a capability in `table` and gives a copy of it.
pub fn validate(
    table: &GlobalCapTable,
    handle: CapabilityHandle,
    pid: u64,
    required_rights: Rights,
) -> (r: SysResult<Capability>)
    requires
        table.wf(),
    ensures
        r == table.validate_result(handle, pid, required_rights),
{
    match table.validate(handle, pid, required_rights) {
        Ok(c) => Ok(*c),
        Err(e) => Err(e),
    }
}

} // verus!
