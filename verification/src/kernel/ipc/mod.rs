//! Kernel IPC: endpoints with message queues, and the manager that
//! creates them and moves messages between processes.
use vstd::prelude::*;
use crate::types::process::ProcessId;
use crate::types::ipc::EndpointId;
use crate::kernel::process::process::{Process, ProcessState, slot, with_state, set_state_in};
use crate::kernel::ipc::endpoint::{Endpoint, EndpointState, EndpointView};
use crate::kernel::ipc::message::Message;
use crate::types::capability::{Rights, RIGHT_ALL};

pub mod endpoint;
pub mod message;
pub mod syscalls;

verus! {

/// Largest message payload accepted (bytes).
pub const MAX_MESSAGE_SIZE: usize = 4096;

/// First endpoint ID handed out; lower ones are reserved.
pub const FIRST_DYNAMIC_ENDPOINT: u32 = 256;

/// Failures of IPC operations.
#[derive(Debug, Clone, Copy, PartialEq, Eq, Structural)]
pub enum IpcError {
    InvalidEndpoint,
    InvalidProcess,
    AccessDenied,
    EndpointBusy,
    InvalidState,
    MessageTooLarge,
    WouldBlock,
}

/// Fast-path counters.
#[derive(Debug, Clone, Copy, PartialEq, Eq, Structural)]
pub struct FastpathStats {
    pub calls: u64,
    pub hits: u64,
    pub misses: u64,
    pub avg_cycles: u64,
}

/// Whether some endpoint of `v` has ID `k`.
pub open spec fn has_ep(v: Seq<Endpoint>, k: u32) -> bool {
    exists|i: int| 0 <= i < v.len() && (#[trigger] v[i]).id.0 == k
}

/// The endpoints of `v` keyed by ID.
pub open spec fn eps_map(v: Seq<Endpoint>) -> Map<u32, EndpointView> {
    Map::new(|k: u32| has_ep(v, k), |k: u32| v[choose|i: int| 0 <= i < v.len() && (#[trigger] v[i]).id.0 == k].view())
}

/// No two endpoints of `v` share an ID.
pub open spec fn eps_distinct(v: Seq<Endpoint>) -> bool {
    forall|i: int, j: int| 0 <= i < j < v.len() ==> (#[trigger] v[i]).id.0 != (#[trigger] v[j]).id.0
}

/// Each endpoint is what its ID maps to.
pub proof fn lemma_eps_index(v: Seq<Endpoint>, i: int)
    requires
        eps_distinct(v),
        0 <= i < v.len(),
    ensures
        eps_map(v).dom().contains(v[i].id.0),
        eps_map(v)[v[i].id.0] == v[i].view(),
{
    assert(has_ep(v, v[i].id.0));
    let j = choose|j: int| 0 <= j < v.len() && (#[trigger] v[j]).id.0 == v[i].id.0;
    if j != i {
        if j < i { assert(v[j].id.0 != v[i].id.0); } else { assert(v[i].id.0 != v[j].id.0); }
    }
}

/// Replacing endpoint `i` by one with the same ID replaces its entry.
pub proof fn lemma_eps_update(v: Seq<Endpoint>, i: int, e: Endpoint)
    requires
        eps_distinct(v),
        0 <= i < v.len(),
        e.id == v[i].id,
    ensures
        eps_distinct(v.update(i, e)),
        eps_map(v.update(i, e)) == eps_map(v).insert(e.id.0, e.view()),
{
    let t = v.update(i, e);
    assert forall|a: int, b: int| 0 <= a < b < t.len() implies (#[trigger] t[a]).id.0 != (#[trigger] t[b]).id.0 by {
        assert(t[a].id == v[a].id);
        assert(t[b].id == v[b].id);
    }
    assert forall|x: u32| #[trigger] eps_map(t).dom().contains(x) == eps_map(v).insert(e.id.0, e.view()).dom().contains(x) by {
        if has_ep(t, x) {
            let a = choose|a: int| 0 <= a < t.len() && (#[trigger] t[a]).id.0 == x;
            assert(v[a].id == t[a].id);
        }
        if has_ep(v, x) {
            let a = choose|a: int| 0 <= a < v.len() && (#[trigger] v[a]).id.0 == x;
            assert(v[a].id == t[a].id);
        }
    }
    assert forall|x: u32| #[trigger] eps_map(t).dom().contains(x) implies eps_map(t)[x] == eps_map(v).insert(e.id.0, e.view())[x] by {
        let a = choose|a: int| 0 <= a < t.len() && (#[trigger] t[a]).id.0 == x;
        lemma_eps_index(t, a);
        if a != i { lemma_eps_index(v, a); }
    }
    assert(eps_map(t) =~= eps_map(v).insert(e.id.0, e.view()));
}

/// Removing endpoint `i` removes its ID.
pub proof fn lemma_eps_remove(v: Seq<Endpoint>, i: int)
    requires
        eps_distinct(v),
        0 <= i < v.len(),
    ensures
        eps_distinct(v.remove(i)),
        eps_map(v.remove(i)) == eps_map(v).remove(v[i].id.0),
{
    let t = v.remove(i);
    assert forall|a: int, b: int| 0 <= a < b < t.len() implies (#[trigger] t[a]).id.0 != (#[trigger] t[b]).id.0 by {
        let a1 = if a < i { a } else { a + 1 };
        let b1 = if b < i { b } else { b + 1 };
        assert(t[a] == v[a1]);
        assert(t[b] == v[b1]);
    }
    let p = v[i].id.0;
    assert forall|x: u32| #[trigger] eps_map(t).dom().contains(x) == (x != p && eps_map(v).dom().contains(x)) by {
        if has_ep(t, x) {
            let a = choose|a: int| 0 <= a < t.len() && (#[trigger] t[a]).id.0 == x;
            let a1 = if a < i { a } else { a + 1 };
            assert(t[a] == v[a1]);
            if a1 < i { assert(v[a1].id.0 != v[i].id.0); } else { assert(v[i].id.0 != v[a1].id.0); }
        }
        if has_ep(v, x) && x != p {
            let a = choose|a: int| 0 <= a < v.len() && (#[trigger] v[a]).id.0 == x;
            if a < i { assert(t[a] == v[a]); } else { assert(t[a - 1] == v[a]); }
        }
    }
    assert forall|x: u32| #[trigger] eps_map(t).dom().contains(x) implies eps_map(t)[x] == eps_map(v).remove(p)[x] by {
        let a = choose|a: int| 0 <= a < t.len() && (#[trigger] t[a]).id.0 == x;
        let a1 = if a < i { a } else { a + 1 };
        assert(t[a] == v[a1]);
        lemma_eps_index(t, a);
        lemma_eps_index(v, a1);
    }
    assert(eps_map(t) =~= eps_map(v).remove(p));
}

/// Appending an endpoint with a new ID adds it.
pub proof fn lemma_eps_push(v: Seq<Endpoint>, e: Endpoint)
    requires
        eps_distinct(v),
        !eps_map(v).dom().contains(e.id.0),
    ensures
        eps_distinct(v.push(e)),
        eps_map(v.push(e)) == eps_map(v).insert(e.id.0, e.view()),
{
    let t = v.push(e);
    assert forall|a: int, b: int| 0 <= a < b < t.len() implies (#[trigger] t[a]).id.0 != (#[trigger] t[b]).id.0 by {
        assert(t[a] == v[a]);
        if b == v.len() { assert(has_ep(v, v[a].id.0)); } else { assert(t[b] == v[b]); }
    }
    assert forall|x: u32| #[trigger] eps_map(t).dom().contains(x) == (x == e.id.0 || eps_map(v).dom().contains(x)) by {
        if has_ep(t, x) {
            let a = choose|a: int| 0 <= a < t.len() && (#[trigger] t[a]).id.0 == x;
            if a < v.len() { assert(t[a] == v[a]); }
        }
        if has_ep(v, x) {
            let a = choose|a: int| 0 <= a < v.len() && (#[trigger] v[a]).id.0 == x;
            assert(t[a] == v[a]);
        }
        if x == e.id.0 { assert(t[v.len() as int] == e); }
    }
    assert forall|x: u32| #[trigger] eps_map(t).dom().contains(x) implies eps_map(t)[x] == eps_map(v).insert(e.id.0, e.view())[x] by {
        let a = choose|a: int| 0 <= a < t.len() && (#[trigger] t[a]).id.0 == x;
        lemma_eps_index(t, a);
        if a < v.len() {
            assert(t[a] == v[a]);
            lemma_eps_index(v, a);
        }
    }
    assert(eps_map(t) =~= eps_map(v).insert(e.id.0, e.view()));
}

/// The fast-path counters after one more attempt of `cycles` cycles.
pub open spec fn stats_after(s: FastpathStats, hit: bool, cycles: u64) -> FastpathStats {
    let calls = s.calls.wrapping_add(1);
    FastpathStats {
        calls,
        hits: if hit { s.hits.wrapping_add(1) } else { s.hits },
        misses: if hit { s.misses } else { s.misses.wrapping_add(1) },
        avg_cycles: if calls == 0 { s.avg_cycles } else {
            (s.avg_cycles.wrapping_mul((calls - 1) as u64).wrapping_add(cycles) / calls) as u64
        },
    }
}

/// Coordinates message passing through endpoints.
pub struct IpcManager {
    endpoints: Vec<Endpoint>,
    next_endpoint_id: u32,
    fastpath_stats: FastpathStats,
}

impl IpcManager {
    /// Endpoint IDs are distinct.
    pub closed spec fn wf(&self) -> bool {
        eps_distinct(self.endpoints@)
    }

    /// The endpoints keyed by ID.
    pub closed spec fn eps(&self) -> Map<u32, EndpointView> {
        eps_map(self.endpoints@)
    }

    /// The ID the next endpoint gets.
    pub closed spec fn next_id(&self) -> u32 {
        self.next_endpoint_id
    }

    /// The fast-path counters.
    pub closed spec fn stats(&self) -> FastpathStats {
        self.fastpath_stats
    }

    /// No endpoints; dynamic IDs start after the reserved ones.
    pub fn new() -> (r: Self)
        ensures
            r.wf(),
            r.eps() == Map::<u32, EndpointView>::empty(),
            r.next_id() == FIRST_DYNAMIC_ENDPOINT,
            r.stats() == (FastpathStats { calls: 0, hits: 0, misses: 0, avg_cycles: 0 }),
    {
        let r = IpcManager { endpoints: Vec::new(), next_endpoint_id: FIRST_DYNAMIC_ENDPOINT,
            fastpath_stats: FastpathStats { calls: 0, hits: 0, misses: 0, avg_cycles: 0 } };
        assert(r.eps() =~= Map::<u32, EndpointView>::empty());
        r
    }

    /// The index of endpoint `id`.
    fn find(&self, id: EndpointId) -> (r: Option<usize>)
        requires
            self.wf(),
        ensures
            r matches Some(i) ==> i < self.endpoints@.len() && self.endpoints@[i as int].id.0 == id.0,
            r is None ==> !self.eps().dom().contains(id.0),
    {
        let mut i: usize = 0;
        while i < self.endpoints.len()
            invariant
                i <= self.endpoints@.len(),
                forall|j: int| 0 <= j < i ==> (#[trigger] self.endpoints@[j]).id.0 != id.0,
            decreases self.endpoints@.len() - i,
        {
            if self.endpoints[i].id.0 == id.0 {
                return Some(i);
            }
            i = i + 1;
        }
        None
    }

    /// Set the state of endpoint `i`.
    fn set_ep_state(&mut self, i: usize, state: EndpointState)
        requires
            old(self).wf(),
            i < old(self).endpoints@.len(),
        ensures
            final(self).wf(),
            final(self).eps() == old(self).eps().insert(old(self).endpoints@[i as int].id.0,
                EndpointView { state, ..old(self).eps()[old(self).endpoints@[i as int].id.0] }),
            final(self).next_id() == old(self).next_id(),
            final(self).stats() == old(self).stats(),
            final(self).endpoints@.len() == old(self).endpoints@.len(),
            final(self).endpoints@[i as int].id == old(self).endpoints@[i as int].id,
    {
        let ghost v0 = self.endpoints@;
        proof { lemma_eps_index(v0, i as int); }
        let id = self.endpoints[i].id;
        let mut e = Endpoint::new(id, ProcessId(0));
        self.endpoints.set_and_swap(i, &mut e);
        e.state = state;
        proof { lemma_eps_update(v0, i as int, e); }
        let ghost ef = e;
        self.endpoints.set(i, e);
        assert(self.endpoints@ =~= v0.update(i as int, ef));
    }

    /// Queue a message on endpoint `i`.
    fn push_ep_msg(&mut self, i: usize, sender: ProcessId, msg: Message)
        requires
            old(self).wf(),
            i < old(self).endpoints@.len(),
        ensures
            final(self).wf(),
            final(self).eps() == old(self).eps().insert(old(self).endpoints@[i as int].id.0,
                EndpointView { queue: old(self).eps()[old(self).endpoints@[i as int].id.0].queue.push((sender, msg)),
                    ..old(self).eps()[old(self).endpoints@[i as int].id.0] }),
            final(self).next_id() == old(self).next_id(),
            final(self).stats() == old(self).stats(),
            final(self).endpoints@.len() == old(self).endpoints@.len(),
            final(self).endpoints@[i as int].id == old(self).endpoints@[i as int].id,
    {
        let ghost v0 = self.endpoints@;
        proof { lemma_eps_index(v0, i as int); }
        let id = self.endpoints[i].id;
        let mut e = Endpoint::new(id, ProcessId(0));
        self.endpoints.set_and_swap(i, &mut e);
        e.enqueue_message(sender, msg);
        proof { lemma_eps_update(v0, i as int, e); }
        let ghost ef = e;
        self.endpoints.set(i, e);
        assert(self.endpoints@ =~= v0.update(i as int, ef));
    }

    /// Take the oldest message of endpoint `i`.
    fn pop_ep_msg(&mut self, i: usize) -> (r: Option<(ProcessId, Message)>)
        requires
            old(self).wf(),
            i < old(self).endpoints@.len(),
        ensures
            final(self).wf(),
            ({
                let id = old(self).endpoints@[i as int].id.0;
                let q = old(self).eps()[id].queue;
                &&& q.len() == 0 ==> r is None && final(self).eps() == old(self).eps()
                &&& q.len() > 0 ==> r == Some(q[0])
                    && final(self).eps() == old(self).eps().insert(id, EndpointView { queue: q.drop_first(), ..old(self).eps()[id] })
            }),
            final(self).next_id() == old(self).next_id(),
            final(self).stats() == old(self).stats(),
            final(self).endpoints@.len() == old(self).endpoints@.len(),
            final(self).endpoints@[i as int].id == old(self).endpoints@[i as int].id,
    {
        let ghost v0 = self.endpoints@;
        proof { lemma_eps_index(v0, i as int); }
        let id = self.endpoints[i].id;
        let mut e = Endpoint::new(id, ProcessId(0));
        self.endpoints.set_and_swap(i, &mut e);
        let r = e.dequeue_message();
        proof { lemma_eps_update(v0, i as int, e); }
        let ghost ef = e;
        self.endpoints.set(i, e);
        assert(self.endpoints@ =~= v0.update(i as int, ef));
        proof {
            if r is None {
                assert(self.eps() =~= old(self).eps());
            }
        }
        r
    }

    /// Create an endpoint owned by `owner` with the next ID (which then
    /// advances, wrapping); an endpoint already holding that ID is replaced.
    pub fn create_endpoint(&mut self, owner: ProcessId) -> (r: Result<EndpointId, IpcError>)
        requires
            old(self).wf(),
        ensures
            final(self).wf(),
            r == Ok::<EndpointId, IpcError>(EndpointId(old(self).next_id())),
            final(self).next_id() == old(self).next_id().wrapping_add(1),
            final(self).eps() == old(self).eps().insert(old(self).next_id(), EndpointView { id: EndpointId(old(self).next_id()), owner,
                rights: Rights(RIGHT_ALL), state: EndpointState::Idle, queue: Seq::empty() }),
            final(self).stats() == old(self).stats(),
    {
        let id = EndpointId(self.next_endpoint_id);
        self.next_endpoint_id = self.next_endpoint_id.wrapping_add(1);
        let endpoint = Endpoint::new(id, owner);
        match self.find(id) {
            Some(i) => {
                proof { lemma_eps_update(self.endpoints@, i as int, endpoint); }
                self.endpoints.set(i, endpoint);
            },
            None => {
                proof { lemma_eps_push(self.endpoints@, endpoint); }
                self.endpoints.push(endpoint);
            },
        }
        Ok(id)
    }

    /// Delete endpoint `id`; only its owner may.
    pub fn delete_endpoint(&mut self, id: EndpointId, caller: ProcessId) -> (r: Result<(), IpcError>)
        requires
            old(self).wf(),
        ensures
            final(self).wf(),
            final(self).next_id() == old(self).next_id(),
            final(self).stats() == old(self).stats(),
            !old(self).eps().dom().contains(id.0) ==> r == Err::<(), IpcError>(IpcError::InvalidEndpoint) && final(self).eps() == old(self).eps(),
            old(self).eps().dom().contains(id.0) && old(self).eps()[id.0].owner != caller
                ==> r == Err::<(), IpcError>(IpcError::AccessDenied) && final(self).eps() == old(self).eps(),
            old(self).eps().dom().contains(id.0) && old(self).eps()[id.0].owner == caller
                ==> r is Ok && final(self).eps() == old(self).eps().remove(id.0),
    {
        match self.find(id) {
            Some(i) => {
                proof { lemma_eps_index(self.endpoints@, i as int); }
                if self.endpoints[i].owner.0 != caller.0 {
                    return Err(IpcError::AccessDenied);
                }
                proof { lemma_eps_remove(self.endpoints@, i as int); }
                self.endpoints.remove(i);
                Ok(())
            },
            None => Err(IpcError::InvalidEndpoint),
        }
    }

    /// Count one fast-path attempt taking `cycles` cycles.
    fn update_fastpath_stats(&mut self, hit: bool, cycles: u64)
        ensures
            final(self).fastpath_stats == stats_after(old(self).fastpath_stats, hit, cycles),
            final(self).endpoints == old(self).endpoints,
            final(self).next_endpoint_id == old(self).next_endpoint_id,
    {
        let calls = self.fastpath_stats.calls.wrapping_add(1);
        self.fastpath_stats.calls = calls;
        if hit {
            self.fastpath_stats.hits = self.fastpath_stats.hits.wrapping_add(1);
        } else {
            self.fastpath_stats.misses = self.fastpath_stats.misses.wrapping_add(1);
        }
        if calls != 0 {
            self.fastpath_stats.avg_cycles = self.fastpath_stats.avg_cycles.wrapping_mul(calls - 1).wrapping_add(cycles) / calls;
        }
    }

    /// Fast-path send: when a receiver is blocked on the endpoint it
    /// becomes ready and the endpoint idle (`Ok(true)`); otherwise nothing
    /// moves and the slow path is needed (`Ok(false)`). Each attempt is
    /// counted with its `cycles`.
    pub fn fastpath_send(&mut self, endpoint_id: EndpointId, message: &Message, sender: ProcessId,
        procs: &mut Vec<Option<Process>>, cycles: u64) -> (r: Result<bool, IpcError>)
        requires
            old(self).wf(),
        ensures
            final(self).wf(),
            final(self).next_id() == old(self).next_id(),
            !old(self).eps().dom().contains(endpoint_id.0) ==> r == Err::<bool, IpcError>(IpcError::InvalidEndpoint)
                && final(self).eps() == old(self).eps() && final(self).stats() == old(self).stats() && final(procs)@ == old(procs)@,
            old(self).eps().dom().contains(endpoint_id.0) ==> match old(self).eps()[endpoint_id.0].state {
                EndpointState::Receiving(rcv) => if slot(old(procs)@, rcv) is None {
                    r == Err::<bool, IpcError>(IpcError::InvalidProcess) && final(self).eps() == old(self).eps()
                        && final(self).stats() == old(self).stats() && final(procs)@ == old(procs)@
                } else {
                    &&& r == Ok::<bool, IpcError>(true)
                    &&& final(procs)@ == with_state(old(procs)@, rcv, ProcessState::Ready)
                    &&& final(self).eps() == old(self).eps().insert(endpoint_id.0,
                        EndpointView { state: EndpointState::Idle, ..old(self).eps()[endpoint_id.0] })
                    &&& final(self).stats() == stats_after(old(self).stats(), true, cycles)
                },
                _ => r == Ok::<bool, IpcError>(false) && final(self).eps() == old(self).eps()
                    && final(self).stats() == stats_after(old(self).stats(), false, cycles) && final(procs)@ == old(procs)@,
            },
    {
        let i = match self.find(endpoint_id) {
            Some(i) => i,
            None => return Err(IpcError::InvalidEndpoint),
        };
        proof { lemma_eps_index(self.endpoints@, i as int); }
        match self.endpoints[i].state {
            EndpointState::Receiving(receiver) => {
                if !set_state_in(procs, receiver, ProcessState::Ready) {
                    return Err(IpcError::InvalidProcess);
                }
                self.set_ep_state(i, EndpointState::Idle);
                self.update_fastpath_stats(true, cycles);
                Ok(true)
            },
            _ => {
                self.update_fastpath_stats(false, cycles);
                Ok(false)
            },
        }
    }

    /// Fast-path call: when a receiver is blocked on the endpoint it
    /// becomes ready, the caller waits for the reply and the endpoint
    /// records the call (`Ok(true)`); otherwise `Ok(false)`. Each attempt
    /// is counted with its `cycles`.
    pub fn fastpath_call(&mut self, endpoint_id: EndpointId, message: &Message, caller: ProcessId,
        procs: &mut Vec<Option<Process>>, cycles: u64) -> (r: Result<bool, IpcError>)
        requires
            old(self).wf(),
        ensures
            final(self).wf(),
            final(self).next_id() == old(self).next_id(),
            !old(self).eps().dom().contains(endpoint_id.0) ==> r == Err::<bool, IpcError>(IpcError::InvalidEndpoint)
                && final(self).eps() == old(self).eps() && final(self).stats() == old(self).stats()
                && final(procs)@ == old(procs)@,
            old(self).eps().dom().contains(endpoint_id.0) ==> match old(self).eps()[endpoint_id.0].state {
                EndpointState::Receiving(rcv) => if slot(old(procs)@, rcv) is None {
                    r == Err::<bool, IpcError>(IpcError::InvalidProcess) && final(self).eps() == old(self).eps()
                        && final(self).stats() == old(self).stats() && final(procs)@ == old(procs)@
                } else {
                    &&& r == Ok::<bool, IpcError>(true)
                    &&& final(procs)@ == with_state(with_state(old(procs)@, rcv, ProcessState::Ready), caller, ProcessState::ReplyWait)
                    &&& final(self).eps() == old(self).eps().insert(endpoint_id.0,
                        EndpointView { state: EndpointState::Call(caller), ..old(self).eps()[endpoint_id.0] })
                    &&& final(self).stats() == stats_after(old(self).stats(), true, cycles)
                },
                _ => r == Ok::<bool, IpcError>(false) && final(self).eps() == old(self).eps()
                    && final(self).stats() == stats_after(old(self).stats(), false, cycles) && final(procs)@ == old(procs)@,
            },
    {
        let i = match self.find(endpoint_id) {
            Some(i) => i,
            None => return Err(IpcError::InvalidEndpoint),
        };
        proof { lemma_eps_index(self.endpoints@, i as int); }
        match self.endpoints[i].state {
            EndpointState::Receiving(receiver) => {
                if !set_state_in(procs, receiver, ProcessState::Ready) {
                    return Err(IpcError::InvalidProcess);
                }
                set_state_in(procs, caller, ProcessState::ReplyWait);
                self.set_ep_state(i, EndpointState::Call(caller));
                self.update_fastpath_stats(true, cycles);
                Ok(true)
            },
            _ => {
                self.update_fastpath_stats(false, cycles);
                Ok(false)
            },
        }
    }

    /// Slow-path send: queue `message` from `sender`, which then waits to
    /// send (the message stays queued even when `sender` has no process).
    pub fn slowpath_send(&mut self, endpoint_id: EndpointId, message: &Message, sender: ProcessId,
        procs: &mut Vec<Option<Process>>) -> (r: Result<(), IpcError>)
        requires
            old(self).wf(),
        ensures
            final(self).wf(),
            final(self).next_id() == old(self).next_id(),
            final(self).stats() == old(self).stats(),
            !old(self).eps().dom().contains(endpoint_id.0) ==> r == Err::<(), IpcError>(IpcError::InvalidEndpoint)
                && final(self).eps() == old(self).eps() && final(procs)@ == old(procs)@,
            old(self).eps().dom().contains(endpoint_id.0) ==> {
                &&& final(self).eps() == old(self).eps().insert(endpoint_id.0, EndpointView {
                        queue: old(self).eps()[endpoint_id.0].queue.push((sender, *message)), ..old(self).eps()[endpoint_id.0] })
                &&& final(procs)@ == with_state(old(procs)@, sender, ProcessState::SendWait)
                &&& r == if slot(old(procs)@, sender) is Some { Ok::<(), IpcError>(()) } else { Err(IpcError::InvalidProcess) }
            },
    {
        let i = match self.find(endpoint_id) {
            Some(i) => i,
            None => return Err(IpcError::InvalidEndpoint),
        };
        proof { lemma_eps_index(self.endpoints@, i as int); }
        self.push_ep_msg(i, sender, *message);
        if set_state_in(procs, sender, ProcessState::SendWait) {
            Ok(())
        } else {
            Err(IpcError::InvalidProcess)
        }
    }

    /// Receive: the oldest queued message if there is one; otherwise the
    /// endpoint records `receiver` as blocked on it and the receiver waits
    /// to receive (`Ok(None)`; the endpoint is marked even when `receiver`
    /// has no process).
    pub fn receive(&mut self, endpoint_id: EndpointId, receiver: ProcessId, procs: &mut Vec<Option<Process>>)
        -> (r: Result<Option<Message>, IpcError>)
        requires
            old(self).wf(),
        ensures
            final(self).wf(),
            final(self).next_id() == old(self).next_id(),
            final(self).stats() == old(self).stats(),
            !old(self).eps().dom().contains(endpoint_id.0) ==> r == Err::<Option<Message>, IpcError>(IpcError::InvalidEndpoint)
                && final(self).eps() == old(self).eps() && final(procs)@ == old(procs)@,
            old(self).eps().dom().contains(endpoint_id.0) && old(self).eps()[endpoint_id.0].queue.len() > 0 ==> {
                &&& r == Ok::<Option<Message>, IpcError>(Some(old(self).eps()[endpoint_id.0].queue[0].1))
                &&& final(self).eps() == old(self).eps().insert(endpoint_id.0, EndpointView {
                        queue: old(self).eps()[endpoint_id.0].queue.drop_first(), ..old(self).eps()[endpoint_id.0] })
                &&& final(procs)@ == old(procs)@
            },
            old(self).eps().dom().contains(endpoint_id.0) && old(self).eps()[endpoint_id.0].queue.len() == 0 ==> {
                &&& final(self).eps() == old(self).eps().insert(endpoint_id.0, EndpointView {
                        state: EndpointState::Receiving(receiver), ..old(self).eps()[endpoint_id.0] })
                &&& final(procs)@ == with_state(old(procs)@, receiver, ProcessState::ReceiveWait)
                &&& r == if slot(old(procs)@, receiver) is Some { Ok::<Option<Message>, IpcError>(None) } else { Err(IpcError::InvalidProcess) }
            },
    {
        let i = match self.find(endpoint_id) {
            Some(i) => i,
            None => return Err(IpcError::InvalidEndpoint),
        };
        proof { lemma_eps_index(self.endpoints@, i as int); }
        match self.pop_ep_msg(i) {
            Some((_sender, message)) => Ok(Some(message)),
            None => {
                self.set_ep_state(i, EndpointState::Receiving(receiver));
                if set_state_in(procs, receiver, ProcessState::ReceiveWait) {
                    Ok(None)
                } else {
                    Err(IpcError::InvalidProcess)
                }
            },
        }
    }

    /// Reply through an endpoint that records a call: the caller becomes
    /// ready and the endpoint idle.
    pub fn reply(&mut self, endpoint_id: EndpointId, message: &Message, replier: ProcessId,
        procs: &mut Vec<Option<Process>>) -> (r: Result<(), IpcError>)
        requires
            old(self).wf(),
        ensures
            final(self).wf(),
            final(self).next_id() == old(self).next_id(),
            final(self).stats() == old(self).stats(),
            !old(self).eps().dom().contains(endpoint_id.0) ==> r == Err::<(), IpcError>(IpcError::InvalidEndpoint)
                && final(self).eps() == old(self).eps() && final(procs)@ == old(procs)@,
            old(self).eps().dom().contains(endpoint_id.0) ==> match old(self).eps()[endpoint_id.0].state {
                EndpointState::Call(c) => if slot(old(procs)@, c) is None {
                    r == Err::<(), IpcError>(IpcError::InvalidProcess) && final(self).eps() == old(self).eps() && final(procs)@ == old(procs)@
                } else {
                    &&& r is Ok
                    &&& final(procs)@ == with_state(old(procs)@, c, ProcessState::Ready)
                    &&& final(self).eps() == old(self).eps().insert(endpoint_id.0,
                        EndpointView { state: EndpointState::Idle, ..old(self).eps()[endpoint_id.0] })
                },
                _ => r == Err::<(), IpcError>(IpcError::InvalidState) && final(self).eps() == old(self).eps() && final(procs)@ == old(procs)@,
            },
    {
        let i = match self.find(endpoint_id) {
            Some(i) => i,
            None => return Err(IpcError::InvalidEndpoint),
        };
        proof { lemma_eps_index(self.endpoints@, i as int); }
        match self.endpoints[i].state {
            EndpointState::Call(caller) => {
                if !set_state_in(procs, caller, ProcessState::Ready) {
                    return Err(IpcError::InvalidProcess);
                }
                self.set_ep_state(i, EndpointState::Idle);
                Ok(())
            },
            _ => Err(IpcError::InvalidState),
        }
    }
}

} // verus!
