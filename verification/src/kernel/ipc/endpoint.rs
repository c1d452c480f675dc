//! IPC endpoints: an owner, rights, a rendezvous state and a queue of
//! messages with their senders.
use vstd::prelude::*;
use std::collections::VecDeque;
use crate::types::process::ProcessId;
use crate::types::ipc::EndpointId;
use crate::types::capability::{Rights, RIGHT_ALL, RIGHT_SEND, RIGHT_RECEIVE, has_all};
use crate::kernel::ipc::message::Message;

verus! {

/// Who is waiting on an endpoint.
#[derive(Debug, Clone, Copy, PartialEq, Eq, Structural)]
pub enum EndpointState {
    /// Nobody.
    Idle,
    /// A receiver is blocked on it.
    Receiving(ProcessId),
    /// A caller awaits a reply through it.
    Call(ProcessId),
}

impl Default for EndpointState {
    fn default() -> (r: Self)
        ensures
            r == EndpointState::Idle,
    {
        EndpointState::Idle
    }
}

/// An endpoint as the specifications see it.
pub struct EndpointView {
    pub id: EndpointId,
    pub owner: ProcessId,
    pub rights: Rights,
    pub state: EndpointState,
    pub queue: Seq<(ProcessId, Message)>,
}

/// A communication channel.
pub struct Endpoint {
    pub id: EndpointId,
    pub owner: ProcessId,
    pub rights: Rights,
    pub state: EndpointState,
    pub queue: VecDeque<(ProcessId, Message)>,
}

impl Endpoint {
    /// The endpoint's fields with its queue as a sequence.
    pub open spec fn view(&self) -> EndpointView {
        EndpointView { id: self.id, owner: self.owner, rights: self.rights, state: self.state, queue: self.queue@ }
    }

    /// An idle endpoint with every right and an empty queue.
    pub fn new(id: EndpointId, owner: ProcessId) -> (r: Self)
        ensures
            r.view() == (EndpointView { id, owner, rights: Rights(RIGHT_ALL), state: EndpointState::Idle, queue: Seq::empty() }),
    {
        Endpoint::with_rights(id, owner, Rights(RIGHT_ALL))
    }

    /// An idle endpoint with the given rights and an empty queue.
    pub fn with_rights(id: EndpointId, owner: ProcessId, rights: Rights) -> (r: Self)
        ensures
            r.view() == (EndpointView { id, owner, rights, state: EndpointState::Idle, queue: Seq::empty() }),
    {
        Endpoint { id, owner, rights, state: EndpointState::Idle, queue: VecDeque::new() }
    }

    /// Whether the endpoint allows sending (from anyone).
    pub fn can_send(&self, pid: ProcessId) -> (r: bool)
        ensures
            r == has_all(self.rights.0, RIGHT_SEND),
    {
        self.rights.contains(Rights(RIGHT_SEND))
    }

    /// Whether `pid` may receive: it owns the endpoint, which allows
    /// receiving.
    pub fn can_receive(&self, pid: ProcessId) -> (r: bool)
        ensures
            r == (self.owner == pid && has_all(self.rights.0, RIGHT_RECEIVE)),
    {
        self.owner.0 == pid.0 && self.rights.contains(Rights(RIGHT_RECEIVE))
    }

    /// Queue `msg` with no sender.
    pub fn enqueue(&mut self, msg: Message)
        ensures
            final(self).view() == (EndpointView { queue: old(self).view().queue.push((ProcessId(0xFFFF), msg)), ..old(self).view() }),
    {
        self.queue.push_back((ProcessId(0xFFFF), msg));
    }

    /// Queue `msg` from `sender`.
    pub fn enqueue_message(&mut self, sender: ProcessId, msg: Message)
        ensures
            final(self).view() == (EndpointView { queue: old(self).view().queue.push((sender, msg)), ..old(self).view() }),
    {
        self.queue.push_back((sender, msg));
    }

    /// Take the oldest message.
    pub fn dequeue(&mut self) -> (r: Option<Message>)
        ensures
            old(self).view().queue.len() == 0 ==> r is None && final(self).view() == old(self).view(),
            old(self).view().queue.len() > 0 ==> r == Some(old(self).view().queue[0].1)
                && final(self).view() == (EndpointView { queue: old(self).view().queue.drop_first(), ..old(self).view() }),
    {
        match self.dequeue_message() {
            Some((_, m)) => Some(m),
            None => None,
        }
    }

    /// Take the oldest message with its sender.
    pub fn dequeue_message(&mut self) -> (r: Option<(ProcessId, Message)>)
        ensures
            old(self).view().queue.len() == 0 ==> r is None && final(self).view() == old(self).view(),
            old(self).view().queue.len() > 0 ==> r == Some(old(self).view().queue[0])
                && final(self).view() == (EndpointView { queue: old(self).view().queue.drop_first(), ..old(self).view() }),
    {
        let r = self.queue.pop_front();
        proof {
            if old(self).queue@.len() > 0 {
                assert(self.queue@ =~= old(self).queue@.drop_first());
            }
        }
        r
    }
}

} // verus!
