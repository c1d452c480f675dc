//! Capability-based access control: per-process capability sets keyed by
//! capability ID, and the manager that creates, derives, revokes and
//! transfers capabilities.
use vstd::prelude::*;
use crate::types::process::ProcessId;
use crate::types::ipc::EndpointId;
use crate::types::memory::VirtAddr;
use crate::kernel::KERNEL_PID;

verus! {

/// Capability identifier.
#[derive(Debug, Clone, Copy, PartialEq, Eq, PartialOrd, Ord, Structural)]
pub struct CapabilityId(pub u32);

impl CapabilityId {
    /// Create a capability ID.
    pub fn new(id: u32) -> (r: Self)
        ensures
            r.0 == id,
    {
        CapabilityId(id)
    }

    /// The raw value.
    pub fn as_u32(self) -> (r: u32)
        ensures
            r == self.0,
    {
        self.0
    }

    /// The raw value widened to `u64`.
    pub fn as_u64(self) -> (r: u64)
        ensures
            r == self.0,
    {
        self.0 as u64
    }
}

/// Read right.
pub const KRIGHT_READ: u32 = 0x1;
/// Write right.
pub const KRIGHT_WRITE: u32 = 0x2;
/// Execute right.
pub const KRIGHT_EXECUTE: u32 = 0x4;
/// Grant right.
pub const KRIGHT_GRANT: u32 = 0x8;
/// Delete right.
pub const KRIGHT_DELETE: u32 = 0x10;
/// Administrative right.
pub const KRIGHT_ADMIN: u32 = 0x20;
/// Every defined right.
pub const KRIGHT_ALL: u32 = 0x3F;

/// Whether the bit set `a` holds every bit of `b`.
pub open spec fn holds(a: u32, b: u32) -> bool {
    a & b == b
}

/// Kernel capability rights.
#[derive(Debug, Clone, Copy, PartialEq, Eq, Structural)]
pub struct Rights(pub u32);

impl Rights {
    /// No right.
    pub fn empty() -> (r: Self)
        ensures
            r.0 == 0,
    {
        Rights(0)
    }

    /// Every defined right.
    pub fn all() -> (r: Self)
        ensures
            r.0 == KRIGHT_ALL,
    {
        Rights(KRIGHT_ALL)
    }

    /// The raw bits.
    pub fn bits(self) -> (r: u32)
        ensures
            r == self.0,
    {
        self.0
    }

    /// The rights named by `bits`, undefined bits dropped.
    pub fn from_bits_truncate(bits: u32) -> (r: Self)
        ensures
            r.0 == bits & KRIGHT_ALL,
    {
        Rights(bits & KRIGHT_ALL)
    }

    /// Whether every right of `other` is held.
    pub fn contains(self, other: Rights) -> (r: bool)
        ensures
            r == holds(self.0, other.0),
    {
        self.0 & other.0 == other.0
    }

    /// The rights of both.
    pub fn union(self, other: Rights) -> (r: Self)
        ensures
            r.0 == self.0 | other.0,
    {
        Rights(self.0 | other.0)
    }

    /// Take away the rights of `other`.
    pub fn remove(&mut self, other: Rights)
        ensures
            final(self).0 == old(self).0 & !other.0,
    {
        self.0 = self.0 & !other.0;
    }
}

/// Kind of resource a kernel capability refers to.
#[derive(Debug, Clone, Copy, PartialEq, Eq, Structural)]
pub enum ResourceType {
    /// IPC endpoint.
    Endpoint,
    /// Memory region.
    Memory,
    /// Hardware interrupt.
    Irq,
    /// I/O port.
    IoPort,
    /// Process.
    Process,
    /// Thread.
    Thread,
    /// Physical frame.
    Frame,
}

/// A kernel capability.
#[derive(Debug, Clone, Copy, PartialEq, Eq, Structural)]
pub struct Capability {
    /// Capability identifier.
    pub id: CapabilityId,
    /// Kind of resource.
    pub resource_type: ResourceType,
    /// The resource instance.
    pub resource_id: u64,
    /// Rights granted.
    pub rights: Rights,
    /// Owning process.
    pub owner: ProcessId,
    /// The capability this one was derived from, if any.
    pub derived_from: Option<CapabilityId>,
    /// Timestamp counter value at creation.
    pub creation_time: u64,
}

/// Capability IDs strictly increase along the sequence.
pub open spec fn sorted_ids(s: Seq<Capability>) -> bool {
    forall|i: int, j: int| 0 <= i < j < s.len() ==> (#[trigger] s[i]).id.0 < (#[trigger] s[j]).id.0
}

/// Whether some entry of `s` has ID `k`.
pub open spec fn has_id(s: Seq<Capability>, k: u32) -> bool {
    exists|i: int| 0 <= i < s.len() && (#[trigger] s[i]).id.0 == k
}

/// The capabilities of `s` keyed by their ID.
pub open spec fn caps_map(s: Seq<Capability>) -> Map<u32, Capability> {
    Map::new(|k: u32| has_id(s, k), |k: u32| s[choose|i: int| 0 <= i < s.len() && (#[trigger] s[i]).id.0 == k])
}

/// In a sorted sequence each entry is what its ID maps to.
pub proof fn lemma_caps_map_index(s: Seq<Capability>, i: int)
    requires
        sorted_ids(s),
        0 <= i < s.len(),
    ensures
        caps_map(s).dom().contains(s[i].id.0),
        caps_map(s)[s[i].id.0] == s[i],
{
    assert(has_id(s, s[i].id.0));
    let j = choose|j: int| 0 <= j < s.len() && (#[trigger] s[j]).id.0 == s[i].id.0;
    if j < i {
        assert(s[j].id.0 < s[i].id.0);
    } else if j > i {
        assert(s[i].id.0 < s[j].id.0);
    }
}

/// The kernel's per-process capability set, kept ordered by capability ID.
#[derive(Debug)]
pub struct CapabilitySet {
    capabilities: Vec<Capability>,
}

impl CapabilitySet {
    /// The entries are ordered by strictly increasing ID.
    pub closed spec fn wf(&self) -> bool {
        sorted_ids(self.capabilities@)
    }

    /// The entries in ID order.
    pub closed spec fn entries(&self) -> Seq<Capability> {
        self.capabilities@
    }

    /// The capabilities keyed by ID.
    pub open spec fn view(&self) -> Map<u32, Capability> {
        caps_map(self.entries())
    }

    /// The number of entries.
    pub closed spec fn size(&self) -> nat {
        self.capabilities@.len()
    }

    /// An empty set.
    pub fn new() -> (r: Self)
        ensures
            r.wf(),
            r.entries() == Seq::<Capability>::empty(),
            r.view() == Map::<u32, Capability>::empty(),
    {
        let r = CapabilitySet { capabilities: Vec::new() };
        assert(r.view() =~= Map::<u32, Capability>::empty());
        r
    }

    /// The set for the init process, which starts empty.
    pub fn root() -> (r: Self)
        ensures
            r.wf(),
            r.view() == Map::<u32, Capability>::empty(),
    {
        Self::new()
    }

    /// Position of the first entry whose ID is at least `k`.
    fn position(&self, k: u32) -> (p: usize)
        requires
            self.wf(),
        ensures
            p <= self.entries().len(),
            forall|i: int| 0 <= i < p ==> (#[trigger] self.entries()[i]).id.0 < k,
            p < self.entries().len() ==> self.entries()[p as int].id.0 >= k,
    {
        let mut p: usize = 0;
        while p < self.capabilities.len() && self.capabilities[p].id.0 < k
            invariant
                self.wf(),
                p <= self.entries().len(),
                forall|i: int| 0 <= i < p ==> (#[trigger] self.entries()[i]).id.0 < k,
            decreases self.entries().len() - p,
        {
            p = p + 1;
        }
        p
    }

    /// Add `capability`, replacing any with the same ID.
    pub fn add(&mut self, capability: Capability)
        requires
            old(self).wf(),
        ensures
            final(self).wf(),
            final(self).view() == old(self).view().insert(capability.id.0, capability),
    {
        let k = capability.id.0;
        let p = self.position(k);
        let ghost s = self.entries();
        if p < self.capabilities.len() && self.capabilities[p].id.0 == k {
            self.capabilities.set(p, capability);
            proof {
                let t = self.entries();
                assert(t == s.update(p as int, capability));
                assert forall|x: u32| #[trigger] caps_map(t).dom().contains(x) == (x == k || caps_map(s).dom().contains(x)) by {
                    if has_id(t, x) {
                        let i = choose|i: int| 0 <= i < t.len() && (#[trigger] t[i]).id.0 == x;
                        if i != p { assert(s[i] == t[i]); }
                    }
                    if has_id(s, x) {
                        let i = choose|i: int| 0 <= i < s.len() && (#[trigger] s[i]).id.0 == x;
                        assert(t[i].id.0 == x);
                    }
                    if x == k { assert(t[p as int].id.0 == k); }
                }
                assert forall|x: u32| #[trigger] caps_map(t).dom().contains(x) implies
                    caps_map(t)[x] == caps_map(s).insert(k, capability)[x] by {
                    let i = choose|i: int| 0 <= i < t.len() && (#[trigger] t[i]).id.0 == x;
                    lemma_caps_map_index(t, i);
                    if i != p {
                        assert(s[i] == t[i]);
                        lemma_caps_map_index(s, i);
                    }
                }
                assert(caps_map(t) =~= caps_map(s).insert(k, capability));
            }
        } else {
            self.capabilities.insert(p, capability);
            proof {
                let t = self.entries();
                assert(t == s.insert(p as int, capability));
                assert forall|i: int, j: int| 0 <= i < j < t.len() implies (#[trigger] t[i]).id.0 < (#[trigger] t[j]).id.0 by {
                    if j < p {
                    } else if j == p {
                    } else if i < p {
                        assert(t[j] == s[j - 1]);
                        assert(s[j - 1].id.0 >= k) by {
                            if (j - 1) > p { assert(s[p as int].id.0 < s[j - 1].id.0); }
                        }
                    } else if i == p {
                        assert(t[j] == s[j - 1]);
                        if (j - 1) > p { assert(s[p as int].id.0 < s[j - 1].id.0); }
                    } else {
                        assert(t[j] == s[j - 1]);
                        assert(t[i] == s[i - 1]);
                    }
                }
                assert forall|x: u32| #[trigger] caps_map(t).dom().contains(x) == (x == k || caps_map(s).dom().contains(x)) by {
                    if has_id(t, x) {
                        let i = choose|i: int| 0 <= i < t.len() && (#[trigger] t[i]).id.0 == x;
                        if i < p { assert(s[i] == t[i]); } else if i > p { assert(s[i - 1] == t[i]); }
                    }
                    if has_id(s, x) {
                        let i = choose|i: int| 0 <= i < s.len() && (#[trigger] s[i]).id.0 == x;
                        if i < p { assert(t[i].id.0 == x); } else { assert(t[i + 1].id.0 == x); }
                    }
                    if x == k { assert(t[p as int].id.0 == k); }
                }
                assert forall|x: u32| #[trigger] caps_map(t).dom().contains(x) implies
                    caps_map(t)[x] == caps_map(s).insert(k, capability)[x] by {
                    let i = choose|i: int| 0 <= i < t.len() && (#[trigger] t[i]).id.0 == x;
                    lemma_caps_map_index(t, i);
                    if i < p {
                        assert(s[i] == t[i]);
                        lemma_caps_map_index(s, i);
                    } else if i > p {
                        assert(s[i - 1] == t[i]);
                        lemma_caps_map_index(s, i - 1);
                    }
                }
                assert(caps_map(t) =~= caps_map(s).insert(k, capability));
            }
        }
    }

    /// Take the capability with ID `id` out of the set.
    pub fn remove(&mut self, id: CapabilityId) -> (r: Option<Capability>)
        requires
            old(self).wf(),
        ensures
            final(self).wf(),
            final(self).view() == old(self).view().remove(id.0),
            old(self).view().dom().contains(id.0) ==> r == Some(old(self).view()[id.0]),
            !old(self).view().dom().contains(id.0) ==> r is None,
            old(self).view().dom().contains(id.0) ==> final(self).size() + 1 == old(self).size(),
            !old(self).view().dom().contains(id.0) ==> final(self).size() == old(self).size(),
    {
        let p = self.position(id.0);
        let ghost s = self.entries();
        if p < self.capabilities.len() && self.capabilities[p].id.0 == id.0 {
            let c = self.capabilities.remove(p);
            proof {
                lemma_caps_map_index(s, p as int);
                let t = self.entries();
                assert(t == s.remove(p as int));
                assert forall|i: int, j: int| 0 <= i < j < t.len() implies (#[trigger] t[i]).id.0 < (#[trigger] t[j]).id.0 by {
                    if i >= p { assert(t[i] == s[i + 1]); }
                    if j >= p { assert(t[j] == s[j + 1]); }
                    if i < p { assert(t[i] == s[i]); }
                    if j < p { assert(t[j] == s[j]); }
                }
                assert forall|x: u32| #[trigger] caps_map(t).dom().contains(x) == (x != id.0 && caps_map(s).dom().contains(x)) by {
                    if has_id(t, x) {
                        let i = choose|i: int| 0 <= i < t.len() && (#[trigger] t[i]).id.0 == x;
                        if i < p { assert(s[i] == t[i]); assert(s[i].id.0 < s[p as int].id.0); }
                        else { assert(s[i + 1] == t[i]); assert(s[p as int].id.0 < s[i + 1].id.0); }
                    }
                    if has_id(s, x) && x != id.0 {
                        let i = choose|i: int| 0 <= i < s.len() && (#[trigger] s[i]).id.0 == x;
                        if i < p { assert(t[i].id.0 == x); } else if i > p { assert(t[i - 1].id.0 == x); }
                    }
                }
                assert forall|x: u32| #[trigger] caps_map(t).dom().contains(x) implies
                    caps_map(t)[x] == caps_map(s).remove(id.0)[x] by {
                    let i = choose|i: int| 0 <= i < t.len() && (#[trigger] t[i]).id.0 == x;
                    lemma_caps_map_index(t, i);
                    if i < p {
                        assert(s[i] == t[i]);
                        lemma_caps_map_index(s, i);
                    } else {
                        assert(s[i + 1] == t[i]);
                        lemma_caps_map_index(s, i + 1);
                    }
                }
                assert(caps_map(t) =~= caps_map(s).remove(id.0));
            }
            Some(c)
        } else {
            proof {
                if has_id(s, id.0) {
                    let i = choose|i: int| 0 <= i < s.len() && (#[trigger] s[i]).id.0 == id.0;
                    if i > p { assert(s[p as int].id.0 < s[i].id.0); }
                }
                assert(caps_map(s).remove(id.0) =~= caps_map(s));
            }
            None
        }
    }

    /// The capability with ID `id`.
    pub fn get(&self, id: CapabilityId) -> (r: Option<Capability>)
        requires
            self.wf(),
        ensures
            self.view().dom().contains(id.0) ==> r == Some(self.view()[id.0]),
            !self.view().dom().contains(id.0) ==> r is None,
    {
        let p = self.position(id.0);
        if p < self.capabilities.len() && self.capabilities[p].id.0 == id.0 {
            proof { lemma_caps_map_index(self.entries(), p as int); }
            Some(self.capabilities[p])
        } else {
            proof {
                let s = self.entries();
                if has_id(s, id.0) {
                    let i = choose|i: int| 0 <= i < s.len() && (#[trigger] s[i]).id.0 == id.0;
                    if i > p { assert(s[p as int].id.0 < s[i].id.0); }
                }
            }
            None
        }
    }

    /// Whether some capability is for the given resource and holds every
    /// right of `required_rights`.
    pub fn has_access(&self, resource_type: ResourceType, resource_id: u64, required_rights: Rights) -> (r: bool)
        requires
            self.wf(),
        ensures
            r == exists|k: u32| #[trigger] self.view().dom().contains(k)
                && self.view()[k].resource_type == resource_type
                && self.view()[k].resource_id == resource_id
                && holds(self.view()[k].rights.0, required_rights.0),
    {
        let mut i: usize = 0;
        while i < self.capabilities.len()
            invariant
                self.wf(),
                i <= self.entries().len(),
                forall|j: int| 0 <= j < i ==> !(#[trigger] self.entries()[j].resource_type == resource_type
                    && self.entries()[j].resource_id == resource_id
                    && holds(self.entries()[j].rights.0, required_rights.0)),
            decreases self.entries().len() - i,
        {
            let c = self.capabilities[i];
            if c.resource_type == resource_type && c.resource_id == resource_id
                && c.rights.contains(required_rights) {
                proof {
                    lemma_caps_map_index(self.entries(), i as int);
                    assert(self.view().dom().contains(c.id.0));
                }
                return true;
            }
            i = i + 1;
        }
        proof {
            let s = self.entries();
            assert forall|k: u32| #[trigger] self.view().dom().contains(k) implies !(
                self.view()[k].resource_type == resource_type
                && self.view()[k].resource_id == resource_id
                && holds(self.view()[k].rights.0, required_rights.0)) by {
                let j = choose|j: int| 0 <= j < s.len() && (#[trigger] s[j]).id.0 == k;
                lemma_caps_map_index(s, j);
            }
        }
        false
    }

    /// The IDs of the capabilities derived from `parent`, in ID order.
    pub fn children_of(&self, parent: u32) -> (r: Vec<u32>)
        requires
            self.wf(),
        ensures
            forall|i: int| 0 <= i < r@.len() ==> self.view().dom().contains(#[trigger] r@[i])
                && self.view()[r@[i]].derived_from == Some(CapabilityId(parent)),
            forall|k: u32| #[trigger] self.view().dom().contains(k) && self.view()[k].derived_from == Some(CapabilityId(parent))
                ==> r@.contains(k),
    {
        let mut r: Vec<u32> = Vec::new();
        let mut i: usize = 0;
        while i < self.capabilities.len()
            invariant
                self.wf(),
                i <= self.entries().len(),
                forall|j: int| 0 <= j < r@.len() ==> self.view().dom().contains(#[trigger] r@[j])
                    && self.view()[r@[j]].derived_from == Some(CapabilityId(parent)),
                forall|j: int| 0 <= j < i && #[trigger] self.entries()[j].derived_from == Some(CapabilityId(parent))
                    ==> r@.contains(self.entries()[j].id.0),
            decreases self.entries().len() - i,
        {
            let c = self.capabilities[i];
            let child = match c.derived_from {
                Some(q) => q.0 == parent,
                None => false,
            };
            proof { lemma_caps_map_index(self.entries(), i as int); }
            if child {
                let ghost before = r@;
                r.push(c.id.0);
                proof {
                    assert(r@[before.len() as int] == c.id.0);
                    assert forall|j: int| 0 <= j < i && #[trigger] self.entries()[j].derived_from == Some(CapabilityId(parent))
                        implies r@.contains(self.entries()[j].id.0) by {
                        let m = choose|m: int| 0 <= m < before.len() && before[m] == self.entries()[j].id.0;
                        assert(r@[m] == before[m]);
                    }
                }
            }
            i = i + 1;
        }
        proof {
            let s = self.entries();
            assert forall|k: u32| #[trigger] self.view().dom().contains(k) && self.view()[k].derived_from == Some(CapabilityId(parent))
                implies r@.contains(k) by {
                let j = choose|j: int| 0 <= j < s.len() && (#[trigger] s[j]).id.0 == k;
                lemma_caps_map_index(s, j);
            }
        }
        r
    }

    /// Whether some memory capability starts at or below `start` and holds
    /// every right of `required_rights`.
    pub fn covers_memory(&self, start: u64, required_rights: Rights) -> (r: bool)
        requires
            self.wf(),
        ensures
            r == exists|k: u32| #[trigger] self.view().dom().contains(k)
                && self.view()[k].resource_type == ResourceType::Memory
                && self.view()[k].resource_id <= start
                && holds(self.view()[k].rights.0, required_rights.0),
    {
        let mut i: usize = 0;
        while i < self.capabilities.len()
            invariant
                self.wf(),
                i <= self.entries().len(),
                forall|j: int| 0 <= j < i ==> !(#[trigger] self.entries()[j].resource_type == ResourceType::Memory
                    && self.entries()[j].resource_id <= start
                    && holds(self.entries()[j].rights.0, required_rights.0)),
            decreases self.entries().len() - i,
        {
            let c = self.capabilities[i];
            if c.resource_type == ResourceType::Memory && c.resource_id <= start && c.rights.contains(required_rights) {
                proof {
                    lemma_caps_map_index(self.entries(), i as int);
                    assert(self.view().dom().contains(c.id.0));
                }
                return true;
            }
            i = i + 1;
        }
        proof {
            let s = self.entries();
            assert forall|k: u32| #[trigger] self.view().dom().contains(k) implies !(
                self.view()[k].resource_type == ResourceType::Memory
                && self.view()[k].resource_id <= start
                && holds(self.view()[k].rights.0, required_rights.0)) by {
                let j = choose|j: int| 0 <= j < s.len() && (#[trigger] s[j]).id.0 == k;
                lemma_caps_map_index(s, j);
            }
        }
        false
    }

    /// The capabilities in ID order.
    pub fn list(&self) -> (r: Vec<Capability>)
        requires
            self.wf(),
        ensures
            r@ == self.entries(),
    {
        self.capabilities.clone()
    }

    /// The set a child inherits: the capabilities holding GRANT, each with
    /// GRANT taken away.
    pub fn inherit(&self) -> (r: Self)
        requires
            self.wf(),
        ensures
            r.wf(),
            forall|k: u32| #[trigger] r.view().dom().contains(k) <==>
                (self.view().dom().contains(k) && holds(self.view()[k].rights.0, KRIGHT_GRANT)),
            forall|k: u32| #[trigger] r.view().dom().contains(k) ==>
                r.view()[k] == (Capability { rights: Rights(self.view()[k].rights.0 & !KRIGHT_GRANT), ..self.view()[k] }),
    {
        let mut out: Vec<Capability> = Vec::new();
        let mut i: usize = 0;
        let ghost s = self.entries();
        while i < self.capabilities.len()
            invariant
                self.wf(),
                s == self.entries(),
                i <= s.len(),
                sorted_ids(out@),
                forall|m: int| 0 <= m < out@.len() ==> exists|j: int| 0 <= j < i && (#[trigger] out@[m]).id.0 == s[j].id.0,
                forall|j: int| 0 <= j < i ==> (holds(s[j].rights.0, KRIGHT_GRANT) <==> has_id(out@, #[trigger] s[j].id.0)),
                forall|m: int, j: int| 0 <= m < out@.len() && 0 <= j < i && (#[trigger] out@[m]).id.0 == (#[trigger] s[j]).id.0
                    ==> out@[m] == (Capability { rights: Rights(s[j].rights.0 & !KRIGHT_GRANT), ..s[j] }),
            decreases s.len() - i,
        {
            let cap = self.capabilities[i];
            if cap.rights.contains(Rights(KRIGHT_GRANT)) {
                let mut new_cap = cap;
                new_cap.rights.remove(Rights(KRIGHT_GRANT));
                let ghost before = out@;
                out.push(new_cap);
                proof {
                    assert forall|a: int, b: int| 0 <= a < b < out@.len() implies (#[trigger] out@[a]).id.0 < (#[trigger] out@[b]).id.0 by {
                        if b == out@.len() - 1 {
                            let j = choose|j: int| 0 <= j < i && (#[trigger] before[a]).id.0 == s[j].id.0;
                            assert(out@[a] == before[a]);
                        }
                    }
                    assert forall|j: int| 0 <= j < i + 1 implies (holds(s[j].rights.0, KRIGHT_GRANT) <==> has_id(out@, #[trigger] s[j].id.0)) by {
                        if j < i {
                            if has_id(before, s[j].id.0) {
                                let m = choose|m: int| 0 <= m < before.len() && (#[trigger] before[m]).id.0 == s[j].id.0;
                                assert(out@[m] == before[m]);
                            }
                            if has_id(out@, s[j].id.0) {
                                let m = choose|m: int| 0 <= m < out@.len() && (#[trigger] out@[m]).id.0 == s[j].id.0;
                                if m < before.len() { assert(before[m] == out@[m]); }
                            }
                        } else {
                            assert(out@[out@.len() - 1].id.0 == s[j].id.0);
                        }
                    }
                    assert forall|m: int| 0 <= m < out@.len() implies exists|j: int| 0 <= j < i + 1 && (#[trigger] out@[m]).id.0 == s[j].id.0 by {
                        if m < before.len() {
                            assert(out@[m] == before[m]);
                            let j = choose|j: int| 0 <= j < i && (#[trigger] before[m]).id.0 == s[j].id.0;
                        } else {
                            assert(out@[m].id.0 == s[i as int].id.0);
                        }
                    }
                    assert forall|m: int, j: int| 0 <= m < out@.len() && 0 <= j < i + 1 && (#[trigger] out@[m]).id.0 == (#[trigger] s[j]).id.0
                        implies out@[m] == (Capability { rights: Rights(s[j].rights.0 & !KRIGHT_GRANT), ..s[j] }) by {
                        if m < before.len() {
                            assert(out@[m] == before[m]);
                            let jj = choose|jj: int| 0 <= jj < i && (#[trigger] before[m]).id.0 == s[jj].id.0;
                            if j == i { assert(s[jj].id.0 < s[j].id.0); }
                        } else {
                            if j < i { assert(s[j].id.0 < s[i as int].id.0); }
                        }
                    }
                }
            } else {
                proof {
                    assert forall|j: int| 0 <= j < i + 1 implies (holds(s[j].rights.0, KRIGHT_GRANT) <==> has_id(out@, #[trigger] s[j].id.0)) by {
                        if j == i && has_id(out@, s[j].id.0) {
                            let m = choose|m: int| 0 <= m < out@.len() && (#[trigger] out@[m]).id.0 == s[j].id.0;
                            let jj = choose|jj: int| 0 <= jj < i && (#[trigger] out@[m]).id.0 == s[jj].id.0;
                            assert(s[jj].id.0 < s[j].id.0);
                        }
                    }
                }
            }
            i = i + 1;
        }
        let r = CapabilitySet { capabilities: out };
        proof {
            let t = r.entries();
            assert forall|k: u32| #[trigger] r.view().dom().contains(k) <==>
                (self.view().dom().contains(k) && holds(self.view()[k].rights.0, KRIGHT_GRANT)) by {
                if has_id(t, k) {
                    let m = choose|m: int| 0 <= m < t.len() && (#[trigger] t[m]).id.0 == k;
                    let j = choose|j: int| 0 <= j < s.len() && (#[trigger] t[m]).id.0 == s[j].id.0;
                    lemma_caps_map_index(s, j);
                }
                if has_id(s, k) {
                    let j = choose|j: int| 0 <= j < s.len() && (#[trigger] s[j]).id.0 == k;
                    lemma_caps_map_index(s, j);
                }
            }
            assert forall|k: u32| #[trigger] r.view().dom().contains(k) implies
                r.view()[k] == (Capability { rights: Rights(self.view()[k].rights.0 & !KRIGHT_GRANT), ..self.view()[k] }) by {
                let m = choose|m: int| 0 <= m < t.len() && (#[trigger] t[m]).id.0 == k;
                let j = choose|j: int| 0 <= j < s.len() && (#[trigger] t[m]).id.0 == s[j].id.0;
                lemma_caps_map_index(s, j);
                lemma_caps_map_index(t, m);
            }
        }
        r
    }
}

/// Failures of capability operations.
#[derive(Debug, Clone, Copy, PartialEq, Eq, Structural)]
pub enum CapabilityError {
    /// No such capability.
    NotFound,
    /// The requester may not perform the operation.
    AccessDenied,
    /// The capability lacks a needed right.
    InsufficientRights,
    /// The resource is invalid.
    InvalidResource,
    /// The capability already exists.
    AlreadyExists,
}

/// One process's capability set.
#[derive(Debug)]
pub struct ProcessCaps {
    /// The owning process.
    pub pid: ProcessId,
    /// Its capabilities.
    pub set: CapabilitySet,
}

/// Whether some entry belongs to process `p`.
pub open spec fn has_pid(v: Seq<ProcessCaps>, p: u16) -> bool {
    exists|i: int| 0 <= i < v.len() && (#[trigger] v[i]).pid.0 == p
}

/// The per-process capability maps, keyed by raw process ID.
pub open spec fn procs_map(v: Seq<ProcessCaps>) -> Map<u16, Map<u32, Capability>> {
    Map::new(|p: u16| has_pid(v, p), |p: u16| v[choose|i: int| 0 <= i < v.len() && (#[trigger] v[i]).pid.0 == p].set.view())
}

/// Entries have distinct processes and well-formed sets.
pub open spec fn procs_wf(v: Seq<ProcessCaps>) -> bool {
    &&& forall|i: int, j: int| 0 <= i < j < v.len() ==> (#[trigger] v[i]).pid.0 != (#[trigger] v[j]).pid.0
    &&& forall|i: int| 0 <= i < v.len() ==> (#[trigger] v[i]).set.wf()
}

/// Each entry is what its process maps to.
pub proof fn lemma_procs_index(v: Seq<ProcessCaps>, i: int)
    requires
        procs_wf(v),
        0 <= i < v.len(),
    ensures
        procs_map(v).dom().contains(v[i].pid.0),
        procs_map(v)[v[i].pid.0] == v[i].set.view(),
{
    assert(has_pid(v, v[i].pid.0));
    let j = choose|j: int| 0 <= j < v.len() && (#[trigger] v[j]).pid.0 == v[i].pid.0;
    if j != i {
        if j < i { assert(v[j].pid.0 != v[i].pid.0); } else { assert(v[i].pid.0 != v[j].pid.0); }
    }
}

/// Removing entry `i` removes its process from the map.
pub proof fn lemma_procs_remove(v: Seq<ProcessCaps>, i: int)
    requires
        procs_wf(v),
        0 <= i < v.len(),
    ensures
        procs_wf(v.remove(i)),
        procs_map(v.remove(i)) == procs_map(v).remove(v[i].pid.0),
{
    let t = v.remove(i);
    assert forall|a: int, b: int| 0 <= a < b < t.len() implies (#[trigger] t[a]).pid.0 != (#[trigger] t[b]).pid.0 by {
        let a1 = if a < i { a } else { a + 1 };
        let b1 = if b < i { b } else { b + 1 };
        assert(t[a] == v[a1]);
        assert(t[b] == v[b1]);
    }
    assert forall|a: int| 0 <= a < t.len() implies (#[trigger] t[a]).set.wf() by {
        let a1 = if a < i { a } else { a + 1 };
        assert(t[a] == v[a1]);
    }
    let p = v[i].pid.0;
    assert forall|x: u16| #[trigger] procs_map(t).dom().contains(x) == (x != p && procs_map(v).dom().contains(x)) by {
        if has_pid(t, x) {
            let a = choose|a: int| 0 <= a < t.len() && (#[trigger] t[a]).pid.0 == x;
            let a1 = if a < i { a } else { a + 1 };
            assert(t[a] == v[a1]);
            if a1 < i { assert(v[a1].pid.0 != v[i].pid.0); } else { assert(v[i].pid.0 != v[a1].pid.0); }
        }
        if has_pid(v, x) && x != p {
            let a = choose|a: int| 0 <= a < v.len() && (#[trigger] v[a]).pid.0 == x;
            if a < i { assert(t[a] == v[a]); } else { assert(t[a - 1] == v[a]); }
        }
    }
    assert forall|x: u16| #[trigger] procs_map(t).dom().contains(x) implies procs_map(t)[x] == procs_map(v).remove(p)[x] by {
        let a = choose|a: int| 0 <= a < t.len() && (#[trigger] t[a]).pid.0 == x;
        let a1 = if a < i { a } else { a + 1 };
        assert(t[a] == v[a1]);
        lemma_procs_index(t, a);
        lemma_procs_index(v, a1);
    }
    assert(procs_map(t) =~= procs_map(v).remove(p));
}

/// Appending an entry for a new process adds it to the map.
pub proof fn lemma_procs_push(v: Seq<ProcessCaps>, e: ProcessCaps)
    requires
        procs_wf(v),
        e.set.wf(),
        !procs_map(v).dom().contains(e.pid.0),
    ensures
        procs_wf(v.push(e)),
        procs_map(v.push(e)) == procs_map(v).insert(e.pid.0, e.set.view()),
{
    let t = v.push(e);
    assert forall|a: int, b: int| 0 <= a < b < t.len() implies (#[trigger] t[a]).pid.0 != (#[trigger] t[b]).pid.0 by {
        if b == v.len() {
            assert(t[a] == v[a]);
            assert(has_pid(v, v[a].pid.0));
        } else {
            assert(t[a] == v[a]);
            assert(t[b] == v[b]);
        }
    }
    assert forall|a: int| 0 <= a < t.len() implies (#[trigger] t[a]).set.wf() by {
        if a < v.len() { assert(t[a] == v[a]); }
    }
    assert forall|x: u16| #[trigger] procs_map(t).dom().contains(x) == (x == e.pid.0 || procs_map(v).dom().contains(x)) by {
        if has_pid(t, x) {
            let a = choose|a: int| 0 <= a < t.len() && (#[trigger] t[a]).pid.0 == x;
            if a < v.len() { assert(t[a] == v[a]); }
        }
        if has_pid(v, x) {
            let a = choose|a: int| 0 <= a < v.len() && (#[trigger] v[a]).pid.0 == x;
            assert(t[a] == v[a]);
        }
        if x == e.pid.0 { assert(t[v.len() as int] == e); }
    }
    assert forall|x: u16| #[trigger] procs_map(t).dom().contains(x) implies procs_map(t)[x] == procs_map(v).insert(e.pid.0, e.set.view())[x] by {
        let a = choose|a: int| 0 <= a < t.len() && (#[trigger] t[a]).pid.0 == x;
        lemma_procs_index(t, a);
        if a < v.len() {
            assert(t[a] == v[a]);
            lemma_procs_index(v, a);
        }
    }
    assert(procs_map(t) =~= procs_map(v).insert(e.pid.0, e.set.view()));
}

/// The capabilities of `p`, empty when it has no entry.
pub open spec fn caps_of(m: Map<u16, Map<u32, Capability>>, p: u16) -> Map<u32, Capability> {
    if m.dom().contains(p) { m[p] } else { Map::empty() }
}

/// Every capability of `g1` is in `g0`, unchanged.
pub open spec fn sub_store(g1: Map<u32, Capability>, g0: Map<u32, Capability>) -> bool {
    forall|k: u32| #[trigger] g1.dom().contains(k) ==> g0.dom().contains(k) && g1[k] == g0[k]
}

/// Whether `k` was in the store `g0` and is not in `g1`.
pub open spec fn removed(g0: Map<u32, Capability>, g1: Map<u32, Capability>, k: u32) -> bool {
    g0.dom().contains(k) && !g1.dom().contains(k)
}

/// The per-process sets went from `p0` to `p1` by dropping, from the set of
/// its owner, each capability that left the store between `g0` and `g1`,
/// and nothing else.
pub open spec fn sets_follow_store(
    g0: Map<u32, Capability>, g1: Map<u32, Capability>,
    p0: Map<u16, Map<u32, Capability>>, p1: Map<u16, Map<u32, Capability>>,
) -> bool {
    &&& p1.dom() == p0.dom()
    &&& forall|p: u16, k: u32| #[trigger] p0.dom().contains(p) ==> (#[trigger] p1[p].dom().contains(k) <==>
            (p0[p].dom().contains(k) && !(removed(g0, g1, k) && g0[k].owner.0 == p)))
    &&& forall|p: u16, k: u32| #[trigger] p1.dom().contains(p) && #[trigger] p1[p].dom().contains(k) ==> p1[p][k] == p0[p][k]
}

/// A revocation cascade from `roots`: the store `g1` is `g0` without the
/// roots and without exactly the capabilities derived, directly or through
/// other removed ones, from a root, whoever owns them; the per-process
/// sets follow the store.
pub open spec fn cascade(
    g0: Map<u32, Capability>, g1: Map<u32, Capability>,
    p0: Map<u16, Map<u32, Capability>>, p1: Map<u16, Map<u32, Capability>>,
    roots: Set<u32>,
) -> bool {
    &&& sub_store(g1, g0)
    &&& forall|k: u32| #[trigger] roots.contains(k) ==> !g1.dom().contains(k)
    &&& forall|k: u32| #[trigger] removed(g0, g1, k) && !roots.contains(k)
            ==> (g0[k].derived_from matches Some(q) && (roots.contains(q.0) || removed(g0, g1, q.0)))
    &&& forall|k: u32| #[trigger] g1.dom().contains(k) && g1[k].derived_from is Some
            ==> !(roots.contains(g1[k].derived_from.unwrap().0) || removed(g0, g1, g1[k].derived_from.unwrap().0))
    &&& sets_follow_store(g0, g1, p0, p1)
}

/// Following the store composes.
pub proof fn lemma_sets_follow_trans(
    g0: Map<u32, Capability>, g1: Map<u32, Capability>, g2: Map<u32, Capability>,
    p0: Map<u16, Map<u32, Capability>>, p1: Map<u16, Map<u32, Capability>>, p2: Map<u16, Map<u32, Capability>>,
)
    requires
        sub_store(g1, g0),
        sub_store(g2, g1),
        sets_follow_store(g0, g1, p0, p1),
        sets_follow_store(g1, g2, p1, p2),
    ensures
        sets_follow_store(g0, g2, p0, p2),
{
    assert forall|p: u16, k: u32| #[trigger] p0.dom().contains(p) implies (#[trigger] p2[p].dom().contains(k) <==>
            (p0[p].dom().contains(k) && !(removed(g0, g2, k) && g0[k].owner.0 == p))) by {
        assert(p1.dom().contains(p));
        assert(p2[p].dom().contains(k) <==> (p1[p].dom().contains(k) && !(removed(g1, g2, k) && g1[k].owner.0 == p)));
        assert(p1[p].dom().contains(k) <==> (p0[p].dom().contains(k) && !(removed(g0, g1, k) && g0[k].owner.0 == p)));
        if g1.dom().contains(k) { assert(g1[k] == g0[k]); }
    }
    assert forall|p: u16, k: u32| #[trigger] p2.dom().contains(p) && #[trigger] p2[p].dom().contains(k) implies p2[p][k] == p0[p][k] by {
        assert(p1.dom().contains(p));
        assert(p1[p].dom().contains(k));
    }
}

/// Dropping one capability from the store and from its owner's set.
pub proof fn lemma_drop_one(g0: Map<u32, Capability>, p0: Map<u16, Map<u32, Capability>>, p1: Map<u16, Map<u32, Capability>>, id: u32)
    requires
        g0.dom().contains(id),
        p1 == (if p0.dom().contains(g0[id].owner.0) {
            p0.insert(g0[id].owner.0, p0[g0[id].owner.0].remove(id))
        } else {
            p0
        }),
    ensures
        sets_follow_store(g0, g0.remove(id), p0, p1),
{
    let g1 = g0.remove(id);
    assert(p1.dom() =~= p0.dom());
    assert forall|p: u16, k: u32| #[trigger] p0.dom().contains(p) implies (#[trigger] p1[p].dom().contains(k) <==>
            (p0[p].dom().contains(k) && !(removed(g0, g1, k) && g0[k].owner.0 == p))) by {
        if removed(g0, g1, k) { assert(k == id); }
    }
}

/// Whether `requester` may revoke capability `id` of the store `g`: it owns
/// the capability, or owns the capability it was derived from.
pub open spec fn may_revoke(g: Map<u32, Capability>, id: u32, requester: ProcessId) -> bool {
    g[id].owner.0 == requester.0 || (g[id].derived_from matches Some(q) && g.dom().contains(q.0) && g[q.0].owner.0 == requester.0)
}

/// Whether process `p` holds, in the sets `procs`, a capability for
/// endpoint `ep` with every right of `rights`.
pub open spec fn endpoint_access(procs: Map<u16, Map<u32, Capability>>, p: u16, ep: u32, rights: u32) -> bool {
    procs.dom().contains(p) && exists|k: u32| #[trigger] procs[p].dom().contains(k)
        && procs[p][k].resource_type == ResourceType::Endpoint
        && procs[p][k].resource_id == ep as u64
        && holds(procs[p][k].rights.0, rights)
}

/// Whether every capability ID in the store `g` lies below `n`, which then
/// is an ID no capability holds.
pub open spec fn ids_below(g: Map<u32, Capability>, n: u32) -> bool {
    forall|k: u32| #[trigger] g.dom().contains(k) ==> k < n
}

/// Whether every capability ID in every per-process set of `procs` lies
/// below `n`.
pub open spec fn sets_below(procs: Map<u16, Map<u32, Capability>>, n: u32) -> bool {
    forall|p: u16| #[trigger] procs.dom().contains(p) ==> ids_below(procs[p], n)
}

/// Storing a capability under an ID below `n`, globally and in the set of
/// `owner`, keeps every ID below `n`.
proof fn lemma_below_insert(g: Map<u32, Capability>, procs: Map<u16, Map<u32, Capability>>, owner: u16,
    k: u32, n: u32, cap: Capability)
    requires
        ids_below(g, n),
        sets_below(procs, n),
        k < n,
    ensures
        ids_below(g.insert(k, cap), n),
        sets_below(procs.insert(owner, caps_of(procs, owner).insert(k, cap)), n),
{
    let procs1 = procs.insert(owner, caps_of(procs, owner).insert(k, cap));
    assert forall|p: u16| #[trigger] procs1.dom().contains(p) implies ids_below(procs1[p], n) by {
        if p == owner {
            assert forall|j: u32| #[trigger] procs1[p].dom().contains(j) implies j < n by {
                if j != k && procs.dom().contains(owner) {
                    assert(procs[owner].dom().contains(j));
                }
            }
        }
    }
}

/// Raising the bound keeps every ID below it.
proof fn lemma_below_raise(g: Map<u32, Capability>, procs: Map<u16, Map<u32, Capability>>, n: u32, m: u32)
    requires
        ids_below(g, n),
        sets_below(procs, n),
        n <= m,
    ensures
        ids_below(g, m),
        sets_below(procs, m),
{
    assert forall|p: u16| #[trigger] procs.dom().contains(p) implies ids_below(procs[p], m) by {
        assert(ids_below(procs[p], n));
    }
}

/// Dropping an ID from the set of `o` keeps every ID below `n`.
proof fn lemma_below_remove(procs: Map<u16, Map<u32, Capability>>, o: u16, id: u32, n: u32)
    requires
        sets_below(procs, n),
        procs.dom().contains(o),
    ensures
        sets_below(procs.insert(o, procs[o].remove(id)), n),
{
    let procs1 = procs.insert(o, procs[o].remove(id));
    assert forall|p: u16| #[trigger] procs1.dom().contains(p) implies ids_below(procs1[p], n) by {
        assert(ids_below(procs[p], n));
    }
}

/// Creates, derives, revokes and transfers capabilities; keeps a global
/// store keyed by capability ID and one set per process.
pub struct CapabilityManager {
    capabilities: CapabilitySet,
    process_capabilities: Vec<ProcessCaps>,
    next_capability_id: u32,
    wrapped: Ghost<bool>,
}

impl CapabilityManager {
    /// The store and every per-process set are ordered, with one set per
    /// process; until the ID counter has wrapped round, every stored ID is
    /// below the next one.
    pub closed spec fn wf(&self) -> bool {
        &&& self.capabilities.wf()
        &&& procs_wf(self.process_capabilities@)
        &&& !self.wrapped@ ==> ids_below(self.capabilities.view(), self.next_capability_id)
            && sets_below(procs_map(self.process_capabilities@), self.next_capability_id)
    }

    /// Whether the ID counter has passed `u32::MAX` and started again at 0,
    /// after which a new ID may be one already in use.
    pub closed spec fn ids_wrapped(&self) -> bool {
        self.wrapped@
    }

    /// The global store keyed by capability ID.
    pub closed spec fn global(&self) -> Map<u32, Capability> {
        self.capabilities.view()
    }

    /// The per-process sets keyed by raw process ID.
    pub closed spec fn procs(&self) -> Map<u16, Map<u32, Capability>> {
        procs_map(self.process_capabilities@)
    }

    /// The ID the next capability receives.
    pub closed spec fn next_id(&self) -> u32 {
        self.next_capability_id
    }

    /// An empty manager whose first capability gets ID 1.
    pub fn new() -> (r: Self)
        ensures
            r.wf(),
            r.global() == Map::<u32, Capability>::empty(),
            r.procs() == Map::<u16, Map<u32, Capability>>::empty(),
            r.next_id() == 1,
            !r.ids_wrapped(),
    {
        let r = CapabilityManager { capabilities: CapabilitySet::new(), process_capabilities: Vec::new(), next_capability_id: 1,
            wrapped: Ghost(false) };
        assert(r.procs() =~= Map::<u16, Map<u32, Capability>>::empty());
        r
    }

    /// The index of the entry of process `pid`.
    fn find_process(&self, pid: ProcessId) -> (r: Option<usize>)
        requires
            procs_wf(self.process_capabilities@),
        ensures
            r matches Some(i) ==> i < self.process_capabilities@.len() && self.process_capabilities@[i as int].pid.0 == pid.0,
            r is None ==> !self.procs().dom().contains(pid.0),
    {
        let mut i: usize = 0;
        while i < self.process_capabilities.len()
            invariant
                i <= self.process_capabilities@.len(),
                forall|j: int| 0 <= j < i ==> (#[trigger] self.process_capabilities@[j]).pid.0 != pid.0,
            decreases self.process_capabilities@.len() - i,
        {
            if self.process_capabilities[i].pid.0 == pid.0 {
                return Some(i);
            }
            i = i + 1;
        }
        None
    }

    /// Add `cap` to the set of `pid`, creating the set when missing.
    fn add_to_process(&mut self, pid: ProcessId, cap: Capability)
        requires
            procs_wf(old(self).process_capabilities@),
        ensures
            procs_wf(final(self).process_capabilities@),
            final(self).procs() == old(self).procs().insert(pid.0, caps_of(old(self).procs(), pid.0).insert(cap.id.0, cap)),
            final(self).capabilities == old(self).capabilities,
            final(self).next_capability_id == old(self).next_capability_id,
            final(self).wrapped == old(self).wrapped,
    {
        match self.find_process(pid) {
            Some(i) => {
                proof {
                    lemma_procs_index(self.process_capabilities@, i as int);
                    lemma_procs_remove(self.process_capabilities@, i as int);
                }
                let mut entry = self.process_capabilities.remove(i);
                entry.set.add(cap);
                proof { lemma_procs_push(self.process_capabilities@, entry); }
                self.process_capabilities.push(entry);
                assert(self.procs() =~= old(self).procs().insert(pid.0, caps_of(old(self).procs(), pid.0).insert(cap.id.0, cap)));
            },
            None => {
                let mut set = CapabilitySet::new();
                set.add(cap);
                let entry = ProcessCaps { pid, set };
                proof { lemma_procs_push(self.process_capabilities@, entry); }
                self.process_capabilities.push(entry);
                assert(self.procs() =~= old(self).procs().insert(pid.0, caps_of(old(self).procs(), pid.0).insert(cap.id.0, cap)));
            },
        }
    }

    /// Create a capability for `owner` with the next ID (which then
    /// advances, wrapping), stored globally and in the owner's set.
    pub fn create_capability(&mut self, resource_type: ResourceType, resource_id: u64, rights: Rights,
        owner: ProcessId, now: u64) -> (r: Result<CapabilityId, CapabilityError>)
        requires
            old(self).wf(),
        ensures
            final(self).wf(),
            r == Ok::<CapabilityId, CapabilityError>(CapabilityId(old(self).next_id())),
            final(self).next_id() == old(self).next_id().wrapping_add(1),
            !old(self).ids_wrapped() ==> !old(self).global().dom().contains(old(self).next_id()),
            final(self).ids_wrapped() == (old(self).ids_wrapped() || old(self).next_id() == u32::MAX),
            ({
                let cap = Capability { id: CapabilityId(old(self).next_id()), resource_type, resource_id, rights,
                    owner, derived_from: None, creation_time: now };
                &&& final(self).global() == old(self).global().insert(cap.id.0, cap)
                &&& final(self).procs() == old(self).procs().insert(owner.0, caps_of(old(self).procs(), owner.0).insert(cap.id.0, cap))
            }),
    {
        let id = CapabilityId(self.next_capability_id);
        let ghost n0 = self.next_capability_id;
        let ghost was_max = self.next_capability_id == u32::MAX;
        self.next_capability_id = self.next_capability_id.wrapping_add(1);
        let ghost now_wrapped = self.wrapped@ || was_max;
        self.wrapped = Ghost(now_wrapped);
        let capability = Capability { id, resource_type, resource_id, rights, owner, derived_from: None, creation_time: now };
        self.capabilities.add(capability);
        self.add_to_process(owner, capability);
        proof {
            if !now_wrapped {
                lemma_below_raise(old(self).global(), old(self).procs(), n0, (n0 + 1) as u32);
                lemma_below_insert(old(self).global(), old(self).procs(), owner.0, n0, (n0 + 1) as u32, capability);
            }
        }
        Ok(id)
    }

    /// Derive a capability for `new_owner` from `parent_id` with
    /// `new_rights`: the requester must own the parent, and the parent must
    /// hold GRANT and every right asked for.
    pub fn derive_capability(&mut self, parent_id: CapabilityId, new_rights: Rights, new_owner: ProcessId,
        requester: ProcessId, now: u64) -> (r: Result<CapabilityId, CapabilityError>)
        requires
            old(self).wf(),
        ensures
            final(self).wf(),
            !old(self).global().dom().contains(parent_id.0) ==> r == Err::<CapabilityId, CapabilityError>(CapabilityError::NotFound),
            old(self).global().dom().contains(parent_id.0) && old(self).global()[parent_id.0].owner != requester
                ==> r == Err::<CapabilityId, CapabilityError>(CapabilityError::AccessDenied),
            old(self).global().dom().contains(parent_id.0) && old(self).global()[parent_id.0].owner == requester
                && !(holds(old(self).global()[parent_id.0].rights.0, KRIGHT_GRANT)
                    && holds(old(self).global()[parent_id.0].rights.0, new_rights.0))
                ==> r == Err::<CapabilityId, CapabilityError>(CapabilityError::InsufficientRights),
            old(self).global().dom().contains(parent_id.0) && old(self).global()[parent_id.0].owner == requester
                && holds(old(self).global()[parent_id.0].rights.0, KRIGHT_GRANT)
                && holds(old(self).global()[parent_id.0].rights.0, new_rights.0) ==> r is Ok,
            r is Err ==> final(self).global() == old(self).global() && final(self).procs() == old(self).procs()
                && final(self).next_id() == old(self).next_id() && final(self).ids_wrapped() == old(self).ids_wrapped(),
            !old(self).ids_wrapped() ==> !old(self).global().dom().contains(old(self).next_id()),
            r is Ok ==> final(self).ids_wrapped() == (old(self).ids_wrapped() || old(self).next_id() == u32::MAX),
            r is Ok ==> ({
                let parent = old(self).global()[parent_id.0];
                let cap = Capability { id: CapabilityId(old(self).next_id()), resource_type: parent.resource_type,
                    resource_id: parent.resource_id, rights: new_rights, owner: new_owner,
                    derived_from: Some(parent_id), creation_time: now };
                &&& old(self).global().dom().contains(parent_id.0)
                &&& parent.owner == requester
                &&& holds(parent.rights.0, KRIGHT_GRANT)
                &&& holds(parent.rights.0, new_rights.0)
                &&& r == Ok::<CapabilityId, CapabilityError>(cap.id)
                &&& final(self).next_id() == old(self).next_id().wrapping_add(1)
                &&& final(self).global() == old(self).global().insert(cap.id.0, cap)
                &&& final(self).procs() == old(self).procs().insert(new_owner.0, caps_of(old(self).procs(), new_owner.0).insert(cap.id.0, cap))
            }),
    {
        let parent = match self.capabilities.get(parent_id) {
            Some(p) => p,
            None => return Err(CapabilityError::NotFound),
        };
        if parent.owner != requester {
            return Err(CapabilityError::AccessDenied);
        }
        if !parent.rights.contains(Rights(KRIGHT_GRANT)) {
            return Err(CapabilityError::InsufficientRights);
        }
        if !parent.rights.contains(new_rights) {
            return Err(CapabilityError::InsufficientRights);
        }
        let id = CapabilityId(self.next_capability_id);
        let ghost n0 = self.next_capability_id;
        let ghost was_max = self.next_capability_id == u32::MAX;
        self.next_capability_id = self.next_capability_id.wrapping_add(1);
        let ghost now_wrapped = self.wrapped@ || was_max;
        self.wrapped = Ghost(now_wrapped);
        let capability = Capability {
            id,
            resource_type: parent.resource_type,
            resource_id: parent.resource_id,
            rights: new_rights,
            owner: new_owner,
            derived_from: Some(parent_id),
            creation_time: now,
        };
        self.capabilities.add(capability);
        self.add_to_process(new_owner, capability);
        proof {
            if !now_wrapped {
                lemma_below_raise(old(self).global(), old(self).procs(), n0, (n0 + 1) as u32);
                lemma_below_insert(old(self).global(), old(self).procs(), new_owner.0, n0, (n0 + 1) as u32, capability);
            }
        }
        Ok(id)
    }

    /// The number of capabilities in the store.
    pub closed spec fn store_size(&self) -> nat {
        self.capabilities.size()
    }

    /// Drop capability `id` from the set of `owner`, when it has one.
    fn remove_from_owner(&mut self, owner: ProcessId, id: u32)
        requires
            procs_wf(old(self).process_capabilities@),
        ensures
            procs_wf(final(self).process_capabilities@),
            final(self).procs() == (if old(self).procs().dom().contains(owner.0) {
                old(self).procs().insert(owner.0, old(self).procs()[owner.0].remove(id))
            } else {
                old(self).procs()
            }),
            final(self).capabilities == old(self).capabilities,
            final(self).next_capability_id == old(self).next_capability_id,
            final(self).wrapped == old(self).wrapped,
    {
        match self.find_process(owner) {
            Some(i) => {
                proof {
                    lemma_procs_index(self.process_capabilities@, i as int);
                    lemma_procs_remove(self.process_capabilities@, i as int);
                }
                let mut entry = self.process_capabilities.remove(i);
                entry.set.remove(CapabilityId(id));
                proof { lemma_procs_push(self.process_capabilities@, entry); }
                self.process_capabilities.push(entry);
                assert(self.procs() =~= old(self).procs().insert(owner.0, old(self).procs()[owner.0].remove(id)));
            },
            None => {},
        }
    }

    /// Revoke capability `capability_id` on behalf of `requester`, who must
    /// own it or own the capability it was derived from. The capability
    /// leaves the store and its owner's set, and so does everything derived
    /// from it, directly or in turn, whoever owns it.
    pub fn revoke_capability(&mut self, capability_id: CapabilityId, requester: ProcessId) -> (r: Result<(), CapabilityError>)
        requires
            old(self).wf(),
        ensures
            final(self).wf(),
            final(self).next_id() == old(self).next_id(),
            final(self).store_size() <= old(self).store_size(),
            !old(self).global().dom().contains(capability_id.0) ==> r == Err::<(), CapabilityError>(CapabilityError::NotFound),
            old(self).global().dom().contains(capability_id.0) && !may_revoke(old(self).global(), capability_id.0, requester)
                ==> r == Err::<(), CapabilityError>(CapabilityError::AccessDenied),
            old(self).global().dom().contains(capability_id.0) && may_revoke(old(self).global(), capability_id.0, requester)
                ==> r is Ok,
            r is Err ==> final(self).global() == old(self).global() && final(self).procs() == old(self).procs(),
            r is Ok ==> old(self).global().dom().contains(capability_id.0)
                && may_revoke(old(self).global(), capability_id.0, requester)
                && cascade(old(self).global(), final(self).global(), old(self).procs(), final(self).procs(), set![capability_id.0]),
            final(self).ids_wrapped() == old(self).ids_wrapped(),
    {
        let cap = match self.capabilities.get(capability_id) {
            Some(c) => c,
            None => return Err(CapabilityError::NotFound),
        };
        let by_parent = match cap.derived_from {
            Some(p) => match self.capabilities.get(p) {
                Some(pc) => pc.owner.0 == requester.0,
                None => false,
            },
            None => false,
        };
        if !(cap.owner.0 == requester.0 || by_parent) {
            return Err(CapabilityError::AccessDenied);
        }
        self.revoke_tree(capability_id.0);
        Ok(())
    }

    /// Take capability `id` out of the store and its owner's set, then
    /// everything derived from it.
    fn revoke_tree(&mut self, id: u32)
        requires
            old(self).wf(),
            old(self).global().dom().contains(id),
        ensures
            final(self).wf(),
            final(self).next_id() == old(self).next_id(),
            final(self).ids_wrapped() == old(self).ids_wrapped(),
            final(self).store_size() <= old(self).store_size(),
            cascade(old(self).global(), final(self).global(), old(self).procs(), final(self).procs(), set![id]),
        decreases old(self).store_size(), 0int,
    {
        let owner = match self.capabilities.get(CapabilityId(id)) {
            Some(c) => c.owner,
            None => ProcessId(0),
        };
        let ghost g0 = self.global();
        let ghost p0 = self.procs();
        self.capabilities.remove(CapabilityId(id));
        self.remove_from_owner(owner, id);
        let ghost g_mid = self.global();
        let ghost p_mid = self.procs();
        proof {
            lemma_drop_one(g0, p0, p_mid, id);
            if !self.wrapped@ && p0.dom().contains(owner.0) {
                lemma_below_remove(p0, owner.0, id, self.next_capability_id);
            }
        }
        self.revoke_derived(id);
        proof {
            let g1 = self.global();
            let p1 = self.procs();
            lemma_sets_follow_trans(g0, g_mid, g1, p0, p_mid, p1);
            assert forall|k: u32| #[trigger] g1.dom().contains(k) implies g0.dom().contains(k) && g1[k] == g0[k] by {
                assert(g_mid.dom().contains(k));
            }
            assert forall|k: u32| #[trigger] removed(g0, g1, k) && !set![id].contains(k)
                implies (g0[k].derived_from matches Some(q) && (set![id].contains(q.0) || removed(g0, g1, q.0))) by {
                assert(removed(g_mid, g1, k));
                if let Some(q) = g0[k].derived_from {
                    if q.0 != id && removed(g_mid, g1, q.0) { assert(removed(g0, g1, q.0)); }
                }
            }
            assert forall|k: u32| #[trigger] g1.dom().contains(k) && g1[k].derived_from is Some
                implies !(set![id].contains(g1[k].derived_from.unwrap().0) || removed(g0, g1, g1[k].derived_from.unwrap().0)) by {
                let q = g1[k].derived_from.unwrap().0;
                if q != id && removed(g0, g1, q) { assert(removed(g_mid, g1, q)); }
            }
        }
    }

    /// Revoke each capability derived from `parent`, which has already left
    /// the store, with everything derived from it in turn.
    fn revoke_derived(&mut self, parent: u32)
        requires
            old(self).wf(),
            !old(self).global().dom().contains(parent),
        ensures
            final(self).wf(),
            final(self).next_id() == old(self).next_id(),
            final(self).ids_wrapped() == old(self).ids_wrapped(),
            final(self).store_size() <= old(self).store_size(),
            cascade(old(self).global(), final(self).global(), old(self).procs(), final(self).procs(), set![parent]),
        decreases old(self).store_size(), 1int,
    {
        let children = self.capabilities.children_of(parent);
        let ghost g0 = self.global();
        let ghost p0 = self.procs();
        let ghost roots = set![parent];
        let mut j: usize = 0;
        while j < children.len()
            invariant
                self.wf(),
                self.next_id() == old(self).next_id(),
                self.ids_wrapped() == old(self).ids_wrapped(),
                self.store_size() <= old(self).store_size(),
                g0 == old(self).global(),
                p0 == old(self).procs(),
                roots == set![parent],
                !g0.dom().contains(parent),
                j <= children@.len(),
                forall|i: int| 0 <= i < children@.len() ==> g0.dom().contains(#[trigger] children@[i])
                    && g0[children@[i]].derived_from == Some(CapabilityId(parent)),
                forall|k: u32| #[trigger] g0.dom().contains(k) && g0[k].derived_from == Some(CapabilityId(parent))
                    ==> children@.contains(k),
                sub_store(self.global(), g0),
                sets_follow_store(g0, self.global(), p0, self.procs()),
                forall|k: u32| #[trigger] removed(g0, self.global(), k)
                    ==> (g0[k].derived_from matches Some(q) && (q.0 == parent || removed(g0, self.global(), q.0))),
                forall|k: u32| #[trigger] self.global().dom().contains(k) && self.global()[k].derived_from is Some
                    ==> !removed(g0, self.global(), self.global()[k].derived_from.unwrap().0),
                forall|k: u32| #[trigger] self.global().dom().contains(k)
                    && self.global()[k].derived_from == Some(CapabilityId(parent))
                    ==> !children@.subrange(0, j as int).contains(k),
            decreases children@.len() - j,
        {
            let ghost g = self.global();
            let ghost p = self.procs();
            let c = children[j];
            if self.capabilities.get(CapabilityId(c)).is_some() {
                self.revoke_tree(c);
                proof {
                    let g1 = self.global();
                    let p1 = self.procs();
                    assert(cascade(g, g1, p, p1, set![c]));
                    lemma_sets_follow_trans(g0, g, g1, p0, p, p1);
                    assert forall|k: u32| #[trigger] g1.dom().contains(k) implies g0.dom().contains(k) && g1[k] == g0[k] by {
                        assert(g.dom().contains(k));
                    }
                    assert forall|k: u32| #[trigger] removed(g0, g1, k)
                        implies (g0[k].derived_from matches Some(q) && (q.0 == parent || removed(g0, g1, q.0))) by {
                        if removed(g0, g, k) {
                            if let Some(q) = g0[k].derived_from {
                                if q.0 != parent { assert(removed(g0, g, q.0)); }
                            }
                        } else {
                            assert(removed(g, g1, k));
                            assert(g[k] == g0[k]);
                            if k != c {
                                if let Some(q) = g[k].derived_from {
                                    if q.0 != c { assert(removed(g, g1, q.0)); assert(g.dom().contains(q.0)); }
                                    else { assert(g.dom().contains(c)); }
                                }
                            } else {
                                assert(g0[c].derived_from == Some(CapabilityId(parent)));
                            }
                        }
                    }
                    assert forall|k: u32| #[trigger] g1.dom().contains(k) && g1[k].derived_from is Some
                        implies !removed(g0, g1, g1[k].derived_from.unwrap().0) by {
                        let q = g1[k].derived_from.unwrap().0;
                        assert(g.dom().contains(k));
                        if removed(g0, g, q) {
                        } else if removed(g, g1, q) {
                        }
                    }
                    assert forall|k: u32| #[trigger] g1.dom().contains(k)
                        && g1[k].derived_from == Some(CapabilityId(parent))
                        implies !children@.subrange(0, j + 1).contains(k) by {
                        assert(g.dom().contains(k));
                        if children@.subrange(0, j + 1).contains(k) {
                            let m = choose|m: int| 0 <= m < j + 1 && #[trigger] children@.subrange(0, j + 1)[m] == k;
                            if m < j { assert(children@.subrange(0, j as int).contains(k)); }
                            else { assert(set![c].contains(c)); }
                        }
                    }
                }
            } else {
                proof {
                    assert forall|k: u32| #[trigger] g.dom().contains(k)
                        && g[k].derived_from == Some(CapabilityId(parent))
                        implies !children@.subrange(0, j + 1).contains(k) by {
                        if children@.subrange(0, j + 1).contains(k) {
                            let m = choose|m: int| 0 <= m < j + 1 && #[trigger] children@.subrange(0, j + 1)[m] == k;
                            if m < j { assert(children@.subrange(0, j as int).contains(k)); }
                            else { assert(k == c); }
                        }
                    }
                }
            }
            j = j + 1;
        }
        proof {
            let g1 = self.global();
            assert(children@.subrange(0, j as int) =~= children@);
            assert forall|k: u32| #[trigger] g1.dom().contains(k) && g1[k].derived_from is Some
                implies !(roots.contains(g1[k].derived_from.unwrap().0) || removed(g0, g1, g1[k].derived_from.unwrap().0)) by {
                if g1[k].derived_from.unwrap().0 == parent {
                    assert(g1[k].derived_from == Some(CapabilityId(parent)));
                    assert(g0.dom().contains(k));
                    assert(children@.contains(k));
                }
            }
            assert forall|k: u32| #[trigger] roots.contains(k) implies !g1.dom().contains(k) by {
                if g1.dom().contains(k) { assert(g0.dom().contains(k)); }
            }
        }
    }

    /// Whether `process` holds a capability for endpoint `endpoint` with
    /// every right of `required_rights`.
    pub fn has_endpoint_access(&self, process: ProcessId, endpoint: EndpointId, required_rights: Rights) -> (r: bool)
        requires
            self.wf(),
        ensures
            r == endpoint_access(self.procs(), process.0, endpoint.0, required_rights.0),
    {
        match self.find_process(process) {
            Some(i) => {
                proof { lemma_procs_index(self.process_capabilities@, i as int); }
                self.process_capabilities[i].set.has_access(ResourceType::Endpoint, endpoint.0 as u64, required_rights)
            },
            None => false,
        }
    }

    /// Whether `process` holds a memory capability whose base is at or
    /// below `address` with every right of `required_rights` (`size` is not
    /// consulted).
    pub fn has_memory_access(&self, process: ProcessId, address: VirtAddr, size: usize, required_rights: Rights) -> (r: bool)
        requires
            self.wf(),
        ensures
            r == (self.procs().dom().contains(process.0) && exists|k: u32| #[trigger] self.procs()[process.0].dom().contains(k)
                && self.procs()[process.0][k].resource_type == ResourceType::Memory
                && self.procs()[process.0][k].resource_id <= address.0
                && holds(self.procs()[process.0][k].rights.0, required_rights.0)),
    {
        match self.find_process(process) {
            Some(i) => {
                proof { lemma_procs_index(self.process_capabilities@, i as int); }
                self.process_capabilities[i].set.covers_memory(address.0, required_rights)
            },
            None => false,
        }
    }

    /// Whether capability `capability_id` of `process` is an IRQ capability
    /// for line `irq` holding ADMIN.
    pub fn verify_irq_capability(&self, process: ProcessId, capability_id: CapabilityId, irq: u8) -> (r: bool)
        requires
            self.wf(),
        ensures
            r == (self.procs().dom().contains(process.0) && self.procs()[process.0].dom().contains(capability_id.0)
                && self.procs()[process.0][capability_id.0].resource_type == ResourceType::Irq
                && self.procs()[process.0][capability_id.0].resource_id == irq as u64
                && holds(self.procs()[process.0][capability_id.0].rights.0, KRIGHT_ADMIN)),
    {
        match self.find_process(process) {
            Some(i) => {
                proof { lemma_procs_index(self.process_capabilities@, i as int); }
                match self.process_capabilities[i].set.get(capability_id) {
                    Some(c) => c.resource_type == ResourceType::Irq && c.resource_id == irq as u64
                        && c.rights.contains(Rights(KRIGHT_ADMIN)),
                    None => false,
                }
            },
            None => false,
        }
    }

    /// Give `process` its first capability, READ and WRITE over the process
    /// itself (recorded by the manager), and return a fresh empty set.
    pub fn create_initial_capabilities(&mut self, process: ProcessId, now: u64) -> (r: CapabilitySet)
        requires
            old(self).wf(),
        ensures
            final(self).wf(),
            r.wf(),
            r.view() == Map::<u32, Capability>::empty(),
            final(self).ids_wrapped() == (old(self).ids_wrapped() || old(self).next_id() == u32::MAX),
            final(self).next_id() == old(self).next_id().wrapping_add(1),
            ({
                let cap = Capability { id: CapabilityId(old(self).next_id()), resource_type: ResourceType::Process,
                    resource_id: process.0 as u64, rights: Rights(KRIGHT_READ | KRIGHT_WRITE), owner: process,
                    derived_from: None, creation_time: now };
                &&& final(self).global() == old(self).global().insert(cap.id.0, cap)
                &&& final(self).procs() == old(self).procs().insert(process.0, caps_of(old(self).procs(), process.0).insert(cap.id.0, cap))
            }),
    {
        let cap_set = CapabilitySet::new();
        let _ = self.create_capability(ResourceType::Process, process.0 as u64, Rights(KRIGHT_READ | KRIGHT_WRITE), process, now);
        cap_set
    }

    /// Move capability `capability_id` from the set of `from_process` to
    /// that of `to_process`, which becomes its owner in the store too.
    pub fn transfer_capability(&mut self, capability_id: CapabilityId, from_process: ProcessId, to_process: ProcessId)
        -> (r: Result<(), CapabilityError>)
        requires
            old(self).wf(),
        ensures
            final(self).wf(),
            final(self).ids_wrapped() == old(self).ids_wrapped(),
            final(self).next_id() == old(self).next_id(),
            !(old(self).procs().dom().contains(from_process.0) && old(self).procs()[from_process.0].dom().contains(capability_id.0))
                ==> r == Err::<(), CapabilityError>(CapabilityError::NotFound)
                    && final(self).global() == old(self).global() && final(self).procs() == old(self).procs(),
            old(self).procs().dom().contains(from_process.0) && old(self).procs()[from_process.0].dom().contains(capability_id.0)
                ==> r is Ok && ({
                    let cap = Capability { owner: to_process, ..old(self).procs()[from_process.0][capability_id.0] };
                    let rest = old(self).procs().insert(from_process.0, old(self).procs()[from_process.0].remove(capability_id.0));
                    &&& final(self).procs() == rest.insert(to_process.0, caps_of(rest, to_process.0).insert(capability_id.0, cap))
                    &&& final(self).global() == old(self).global().insert(capability_id.0, cap)
                }),
    {
        let i = match self.find_process(from_process) {
            Some(i) => i,
            None => return Err(CapabilityError::NotFound),
        };
        proof { lemma_procs_index(self.process_capabilities@, i as int); }
        let mut capability = match self.process_capabilities[i].set.get(capability_id) {
            Some(c) => c,
            None => return Err(CapabilityError::NotFound),
        };
        let ghost g0 = self.global();
        let ghost p0 = self.procs();
        self.remove_from_owner(from_process, capability_id.0);
        capability.owner = to_process;
        self.add_to_process(to_process, capability);
        self.capabilities.add(capability);
        proof {
            if !self.wrapped@ {
                let n = self.next_capability_id;
                assert(ids_below(p0[from_process.0], n));
                lemma_below_remove(p0, from_process.0, capability_id.0, n);
                let rest = p0.insert(from_process.0, p0[from_process.0].remove(capability_id.0));
                lemma_below_insert(g0, rest, to_process.0, capability_id.0, n, capability);
            }
        }
        Ok(())
    }

    /// The capabilities of `process` in ID order, if it has a set.
    pub fn get_process_capabilities(&self, process: ProcessId) -> (r: Option<Vec<Capability>>)
        requires
            self.wf(),
        ensures
            r is Some <==> self.procs().dom().contains(process.0),
            r matches Some(v) ==> sorted_ids(v@) && caps_map(v@) == self.procs()[process.0],
    {
        match self.find_process(process) {
            Some(i) => {
                proof { lemma_procs_index(self.process_capabilities@, i as int); }
                Some(self.process_capabilities[i].set.list())
            },
            None => None,
        }
    }

    /// Drop the set of `process`, take each of its capabilities out of the
    /// store, then revoke everything derived from each of them.
    pub fn remove_process_capabilities(&mut self, process: ProcessId)
        requires
            old(self).wf(),
        ensures
            final(self).wf(),
            final(self).next_id() == old(self).next_id(),
            final(self).ids_wrapped() == old(self).ids_wrapped(),
            !old(self).procs().dom().contains(process.0) ==> final(self).global() == old(self).global()
                && final(self).procs() == old(self).procs(),
            old(self).procs().dom().contains(process.0) ==> cascade(
                old(self).global().remove_keys(old(self).procs()[process.0].dom()), final(self).global(),
                old(self).procs().remove(process.0), final(self).procs(), old(self).procs()[process.0].dom()),
    {
        let i = match self.find_process(process) {
            Some(i) => i,
            None => return,
        };
        let ghost g0 = self.global();
        let ghost p0 = self.procs();
        proof {
            lemma_procs_index(self.process_capabilities@, i as int);
            lemma_procs_remove(self.process_capabilities@, i as int);
        }
        let entry = self.process_capabilities.remove(i);
        let ids = entry.set.list();
        let ghost s = ids@;
        let ghost roots = p0[process.0].dom();
        assert(roots =~= Set::new(|k: u32| has_id(s, k)));
        let mut j: usize = 0;
        while j < ids.len()
            invariant
                self.wf(),
                self.next_id() == old(self).next_id(),
                self.ids_wrapped() == old(self).ids_wrapped(),
                s == ids@,
                j <= s.len(),
                self.procs() == p0.remove(process.0),
                self.global() == g0.remove_keys(Set::new(|k: u32| has_id(s.take(j as int), k))),
            decreases s.len() - j,
        {
            self.capabilities.remove(ids[j].id);
            proof {
                let k0 = s[j as int].id.0;
                assert forall|k: u32| has_id(s.take(j + 1), k) <==> (has_id(s.take(j as int), k) || k == k0) by {
                    if has_id(s.take(j + 1), k) {
                        let m = choose|m: int| 0 <= m < j + 1 && (#[trigger] s.take(j + 1)[m]).id.0 == k;
                        if m < j { assert(s.take(j as int)[m] == s[m]); }
                    }
                    if has_id(s.take(j as int), k) {
                        let m = choose|m: int| 0 <= m < j && (#[trigger] s.take(j as int)[m]).id.0 == k;
                        assert(s.take(j + 1)[m] == s[m]);
                    }
                    if k == k0 { assert(s.take(j + 1)[j as int] == s[j as int]); }
                }
                assert(self.global() =~= g0.remove_keys(Set::new(|k: u32| has_id(s.take(j + 1), k))));
            }
            j = j + 1;
        }
        let ghost g_mid = self.global();
        let ghost p_mid = self.procs();
        proof {
            assert(s.take(j as int) =~= s);
            assert(Set::new(|k: u32| has_id(s.take(j as int), k)) =~= roots);
        }
        let mut j: usize = 0;
        while j < ids.len()
            invariant
                self.wf(),
                self.next_id() == old(self).next_id(),
                self.ids_wrapped() == old(self).ids_wrapped(),
                s == ids@,
                j <= s.len(),
                roots == Set::new(|k: u32| has_id(s, k)),
                forall|k: u32| #[trigger] roots.contains(k) ==> !g_mid.dom().contains(k),
                cascade(g_mid, self.global(), p_mid, self.procs(), Set::new(|k: u32| has_id(s.take(j as int), k))),
            decreases s.len() - j,
        {
            let ghost g = self.global();
            let ghost p = self.procs();
            let ghost done = Set::new(|k: u32| has_id(s.take(j as int), k));
            let k0 = ids[j].id.0;
            proof {
                assert(has_id(s, k0));
                assert(roots.contains(k0));
                assert(!g.dom().contains(k0));
            }
            self.revoke_derived(k0);
            proof {
                let g1 = self.global();
                let p1 = self.procs();
                let done1 = Set::new(|k: u32| has_id(s.take(j + 1), k));
                assert forall|k: u32| done1.contains(k) <==> (done.contains(k) || k == k0) by {
                    if has_id(s.take(j + 1), k) {
                        let m = choose|m: int| 0 <= m < j + 1 && (#[trigger] s.take(j + 1)[m]).id.0 == k;
                        if m < j { assert(s.take(j as int)[m] == s[m]); }
                    }
                    if has_id(s.take(j as int), k) {
                        let m = choose|m: int| 0 <= m < j && (#[trigger] s.take(j as int)[m]).id.0 == k;
                        assert(s.take(j + 1)[m] == s[m]);
                    }
                    if k == k0 { assert(s.take(j + 1)[j as int] == s[j as int]); }
                }
                lemma_sets_follow_trans(g_mid, g, g1, p_mid, p, p1);
                assert forall|k: u32| #[trigger] g1.dom().contains(k) implies g_mid.dom().contains(k) && g1[k] == g_mid[k] by {
                    assert(g.dom().contains(k));
                }
                assert forall|k: u32| #[trigger] done1.contains(k) implies !g1.dom().contains(k) by {
                    if done.contains(k) { if g1.dom().contains(k) { assert(g.dom().contains(k)); } }
                    else { assert(set![k0].contains(k0)); }
                }
                assert forall|k: u32| #[trigger] removed(g_mid, g1, k) && !done1.contains(k)
                    implies (g_mid[k].derived_from matches Some(q) && (done1.contains(q.0) || removed(g_mid, g1, q.0))) by {
                    if removed(g_mid, g, k) {
                        if let Some(q) = g_mid[k].derived_from {
                            if !done.contains(q.0) { assert(removed(g_mid, g, q.0)); }
                        }
                    } else {
                        assert(removed(g, g1, k));
                        assert(g[k] == g_mid[k]);
                        assert(!set![k0].contains(k));
                        if let Some(q) = g[k].derived_from {
                            if q.0 != k0 { assert(removed(g, g1, q.0)); assert(g.dom().contains(q.0)); }
                        }
                    }
                }
                assert forall|k: u32| #[trigger] g1.dom().contains(k) && g1[k].derived_from is Some
                    implies !(done1.contains(g1[k].derived_from.unwrap().0) || removed(g_mid, g1, g1[k].derived_from.unwrap().0)) by {
                    let q = g1[k].derived_from.unwrap().0;
                    assert(g.dom().contains(k));
                    if q == k0 { assert(set![k0].contains(q)); }
                }
            }
            j = j + 1;
        }
        proof {
            assert(s.take(j as int) =~= s);
            assert(Set::new(|k: u32| has_id(s.take(j as int), k)) =~= roots);
        }
    }
}

} // verus!
