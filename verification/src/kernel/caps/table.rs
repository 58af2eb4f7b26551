//! Per-process view of the capability table: local handles, each mapped to a
//! global handle of the capabilities the process owns.
use vstd::prelude::*;
use crate::shared::caps::CapabilityHandle;
use crate::shared::error::{SysError, SysResult};

verus! {

/// Per-process capability table.
pub struct CapabilityTable {
    /// Process ID
    pid: u64,
    /// Local handle (the index) to global handle; slot 0 is the null handle
    local_to_global: Vec<CapabilityHandle>,
    /// Maximum number of local handles
    max_caps: usize,
}

/// The number of non-null handles in `s`.
pub open spec fn count_live(s: Seq<CapabilityHandle>) -> nat
    decreases s.len(),
{
    if s.len() == 0 {
        0
    } else {
        count_live(s.drop_last()) + if s.last().0 != 0 {
            1nat
        } else {
            0nat
        }
    }
}

impl CapabilityTable {
    pub const DEFAULT_MAX_CAPS: usize = 64;

    /// The global handle behind each local handle (null where none).
    pub closed spec fn entries(&self) -> Seq<CapabilityHandle> {
        self.local_to_global@
    }

    pub closed spec fn owner_pid(&self) -> u64 {
        self.pid
    }

    pub closed spec fn limit(&self) -> usize {
        self.max_caps
    }

    /// Local handle 0 exists and is null.
    pub closed spec fn wf(&self) -> bool {
        &&& self.local_to_global@.len() >= 1
        &&& self.local_to_global@[0].0 == 0
    }

    /// What a well-formed table guarantees: local handle 0 exists and is
    /// null, so the null handle never translates and is never listed.
    pub proof fn lemma_wf_null(&self)
        requires
            self.wf(),
        ensures
            self.entries().len() >= 1,
            self.entries()[0].0 == 0,
            self.lookup(CapabilityHandle(0)) == Err::<CapabilityHandle, SysError>(SysError::InvalidCapability),
    {
    }

    /// What translating `local` gives.
    pub open spec fn lookup(&self, local: CapabilityHandle) -> Result<CapabilityHandle, SysError> {
        if local.0 >= self.entries().len() || self.entries()[local.0 as int].0 == 0 {
            Err(SysError::InvalidCapability)
        } else {
            Ok(self.entries()[local.0 as int])
        }
    }

    pub fn new(pid: u64) -> (r: CapabilityTable)
        ensures
            r.wf(),
            r.owner_pid() == pid,
            r.limit() == Self::DEFAULT_MAX_CAPS,
            r.entries() == seq![CapabilityHandle(0)],
    {
        Self::with_capacity(pid, Self::DEFAULT_MAX_CAPS)
    }

    pub fn with_capacity(pid: u64, max_caps: usize) -> (r: CapabilityTable)
        ensures
            r.wf(),
            r.owner_pid() == pid,
            r.limit() == max_caps,
            r.entries() == seq![CapabilityHandle(0)],
    {
        let mut local_to_global: Vec<CapabilityHandle> = Vec::new();
        local_to_global.push(CapabilityHandle::null());
        let r = CapabilityTable { pid, local_to_global, max_caps };
        assert(r.entries() =~= seq![CapabilityHandle(0)]);
        r
    }

    /// Adds a capability; its local handle is the next index.
    pub fn add(&mut self, global_handle: CapabilityHandle) -> (r: SysResult<CapabilityHandle>)
        requires
            old(self).wf(),
        ensures
            final(self).wf(),
            final(self).owner_pid() == old(self).owner_pid(),
            final(self).limit() == old(self).limit(),
            old(self).entries().len() >= old(self).limit() ==> r == Err::<CapabilityHandle, SysError>(
                SysError::CapabilityTableFull,
            ) && final(self).entries() == old(self).entries(),
            old(self).entries().len() < old(self).limit() ==> r == Ok::<CapabilityHandle, SysError>(
                CapabilityHandle(old(self).entries().len() as u64),
            ) && final(self).entries() == old(self).entries().push(global_handle),
    {
        if self.local_to_global.len() >= self.max_caps {
            return Err(SysError::CapabilityTableFull);
        }
        let local_handle = CapabilityHandle(self.local_to_global.len() as u64);
        self.local_to_global.push(global_handle);
        Ok(local_handle)
    }

    /// Removes a capability from the table and gives its global handle.
    pub fn remove(&mut self, local_handle: CapabilityHandle) -> (r: SysResult<CapabilityHandle>)
        requires
            old(self).wf(),
        ensures
            final(self).wf(),
            final(self).owner_pid() == old(self).owner_pid(),
            final(self).limit() == old(self).limit(),
            local_handle.0 == 0 ==> r == Err::<CapabilityHandle, SysError>(SysError::InvalidCapability),
            local_handle.0 != 0 ==> r == old(self).lookup(local_handle),
            r is Err ==> final(self).entries() == old(self).entries(),
            r is Ok ==> final(self).entries() == old(self).entries().update(
                local_handle.0 as int,
                CapabilityHandle(0),
            ),
    {
        if local_handle.0 == 0 || local_handle.0 >= self.local_to_global.len() as u64 {
            return Err(SysError::InvalidCapability);
        }
        let idx = local_handle.0 as usize;
        let global = self.local_to_global[idx];
        if global.is_null() {
            return Err(SysError::InvalidCapability);
        }
        self.local_to_global.set(idx, CapabilityHandle::null());
        Ok(global)
    }

    /// Translates a local handle to its global handle.
    pub fn translate(&self, local_handle: CapabilityHandle) -> (r: SysResult<CapabilityHandle>)
        ensures
            r == self.lookup(local_handle),
    {
        if local_handle.0 >= self.local_to_global.len() as u64 {
            return Err(SysError::InvalidCapability);
        }
        let idx = local_handle.0 as usize;
        let global = self.local_to_global[idx];
        if global.is_null() {
            return Err(SysError::InvalidCapability);
        }
        Ok(global)
    }

    /// All local handles that translate, in increasing order.
    pub fn all_handles(&self) -> (r: Vec<CapabilityHandle>)
        ensures
            forall|a: int, b: int| 0 <= a < b < r@.len() ==> r@[a].0 < r@[b].0,
            forall|k: int| 0 <= k < r@.len() ==> #[trigger] r@[k].0 < self.entries().len(),
            forall|i: int|
                0 <= i < self.entries().len() ==> (r@.contains(CapabilityHandle(i as u64)) <==> #[trigger] self.entries()[i].0
                    != 0),
            r@.len() == count_live(self.entries()),
            self.wf() ==> !r@.contains(CapabilityHandle(0)),
    {
        let mut r: Vec<CapabilityHandle> = Vec::new();
        let n = self.local_to_global.len();
        let mut i: usize = 0;
        while i < n
            invariant
                n == self.entries().len(),
                i <= n,
                forall|a: int, b: int| 0 <= a < b < r@.len() ==> r@[a].0 < r@[b].0,
                forall|k: int| 0 <= k < r@.len() ==> #[trigger] r@[k].0 < i,
                forall|j: int|
                    0 <= j < i ==> (r@.contains(CapabilityHandle(j as u64)) <==> #[trigger] self.entries()[j].0 != 0),
                r@.len() == count_live(self.entries().take(i as int)),
            decreases n - i,
        {
            let ghost prev = r@;
            if !self.local_to_global[i].is_null() {
                r.push(CapabilityHandle(i as u64));
            }
            proof {
                let hit = self.entries()[i as int].0 != 0;
                assert(hit ==> r@ == prev.push(CapabilityHandle(i as u64)));
                assert(!hit ==> r@ == prev);
                assert(self.entries().take(i + 1).drop_last() =~= self.entries().take(i as int));
                assert forall|j: int|
                    0 <= j < i + 1 implies (r@.contains(CapabilityHandle(j as u64)) <==> #[trigger] self.entries()[j].0
                        != 0) by {
                    vstd::seq_lib::lemma_seq_contains_after_push(prev, CapabilityHandle(i as u64), CapabilityHandle(j as u64));
                    if j < i {
                        assert(CapabilityHandle(j as u64) != CapabilityHandle(i as u64));
                    } else if !hit && r@.contains(CapabilityHandle(j as u64)) {
                        let k = choose|k: int| 0 <= k < r@.len() && r@[k] == CapabilityHandle(j as u64);
                        assert(r@[k].0 < i);
                    }
                }
            }
            i = i + 1;
        }
        assert(self.entries().take(n as int) =~= self.entries());
        r
    }

    /// The process ID.
    pub fn pid(&self) -> (r: u64)
        ensures
            r == self.owner_pid(),
    {
        self.pid
    }

    /// The number of capabilities in the table.
    pub fn count(&self) -> (r: usize)
        ensures
            r == count_live(self.entries()),
    {
        let n = self.local_to_global.len();
        let mut c: usize = 0;
        let mut i: usize = 0;
        while i < n
            invariant
                n == self.entries().len(),
                i <= n,
                c == count_live(self.entries().take(i as int)),
                c <= i,
            decreases n - i,
        {
            assert(self.entries().take(i + 1).drop_last() =~= self.entries().take(i as int));
            if !self.local_to_global[i].is_null() {
                c = c + 1;
            }
            i = i + 1;
        }
        assert(self.entries().take(n as int) =~= self.entries());
        c
    }
}

/// What `add` puts in can be translated back: when `after` is `before` with
/// handle `g` added (as `add` leaves it), the local handle that `add` gave
/// translates to `g`, and every other local handle translates as before.
pub proof fn lemma_add_then_translate(before: CapabilityTable, after: CapabilityTable, g: CapabilityHandle, other: CapabilityHandle)
    requires
        before.entries().len() < before.limit(),
        after.entries() == before.entries().push(g),
        g.0 != 0,
        other.0 != before.entries().len(),
    ensures
        after.lookup(CapabilityHandle(before.entries().len() as u64)) == Ok::<CapabilityHandle, SysError>(g),
        after.lookup(other) == before.lookup(other),
{
}

/// After `remove` of a local handle (as it leaves the table), that handle no
/// longer translates, and every other local handle translates as before.
pub proof fn lemma_remove_then_translate(before: CapabilityTable, after: CapabilityTable, local: CapabilityHandle, other: CapabilityHandle)
    requires
        local.0 < before.entries().len(),
        after.entries() == before.entries().update(local.0 as int, CapabilityHandle(0)),
        other != local,
    ensures
        after.lookup(local) is Err,
        after.lookup(other) == before.lookup(other),
{
}

} // verus!
