//! The IPC system calls: argument and permission checks in front of the
//! IPC manager, and the mapping of its errors to system-call errors.
use vstd::prelude::*;
use crate::types::process::ProcessId;
use crate::types::ipc::EndpointId;
use crate::kernel::capability::{CapabilityManager, Rights, KRIGHT_READ, KRIGHT_WRITE, endpoint_access};
use crate::kernel::ipc::{IpcManager, IpcError};
use crate::kernel::ipc::endpoint::{EndpointState, EndpointView};
use crate::kernel::ipc::message::Message;
use crate::kernel::memory::is_user_readable;
use crate::kernel::memory::is_user_writable;
use crate::kernel::process::process::{Process, ProcessState, slot, with_state};
use crate::kernel::syscall::SyscallError;
use crate::kernel::{USER_BASE, USER_STACK_TOP};

verus! {

/// Size of a message in user memory (bytes).
pub const MESSAGE_SIZE: usize = 64;

/// The system-call error for a failed send or fast path.
pub open spec fn send_error(e: IpcError) -> SyscallError {
    match e {
        IpcError::InvalidEndpoint => SyscallError::InvalidArgument,
        IpcError::AccessDenied => SyscallError::AccessDenied,
        IpcError::WouldBlock => SyscallError::WouldBlock,
        _ => SyscallError::InternalError,
    }
}

/// The system-call error for a failed fast path, receive or deletion.
pub open spec fn call_error(e: IpcError) -> SyscallError {
    match e {
        IpcError::InvalidEndpoint => SyscallError::InvalidArgument,
        IpcError::AccessDenied => SyscallError::AccessDenied,
        _ => SyscallError::InternalError,
    }
}

/// The system-call error for a failed reply.
pub open spec fn reply_error(e: IpcError) -> SyscallError {
    match e {
        IpcError::InvalidEndpoint => SyscallError::InvalidArgument,
        IpcError::InvalidState => SyscallError::InvalidOperation,
        IpcError::AccessDenied => SyscallError::AccessDenied,
        _ => SyscallError::InternalError,
    }
}

fn map_send_error(e: IpcError) -> (r: SyscallError)
    ensures
        r == send_error(e),
{
    match e {
        IpcError::InvalidEndpoint => SyscallError::InvalidArgument,
        IpcError::AccessDenied => SyscallError::AccessDenied,
        IpcError::WouldBlock => SyscallError::WouldBlock,
        _ => SyscallError::InternalError,
    }
}

fn map_call_error(e: IpcError) -> (r: SyscallError)
    ensures
        r == call_error(e),
{
    match e {
        IpcError::InvalidEndpoint => SyscallError::InvalidArgument,
        IpcError::AccessDenied => SyscallError::AccessDenied,
        _ => SyscallError::InternalError,
    }
}

fn map_reply_error(e: IpcError) -> (r: SyscallError)
    ensures
        r == reply_error(e),
{
    match e {
        IpcError::InvalidEndpoint => SyscallError::InvalidArgument,
        IpcError::InvalidState => SyscallError::InvalidOperation,
        IpcError::AccessDenied => SyscallError::AccessDenied,
        _ => SyscallError::InternalError,
    }
}

/// Whether a message at `ptr` lies in user memory.
pub open spec fn message_in_user_memory(ptr: usize) -> bool {
    ptr >= USER_BASE && ptr + MESSAGE_SIZE <= USER_STACK_TOP
}

/// Send `message`, read by the caller from user address `message_ptr`,
/// on endpoint `endpoint_id` for `caller`, who needs a send capability:
/// the fast path when a receiver waits, else the message is queued and
/// the caller waits to send.
pub fn sys_ipc_send(ipc: &mut IpcManager, caps: &CapabilityManager, procs: &mut Vec<Option<Process>>,
    endpoint_id: u32, message_ptr: usize, message: &Message, caller: ProcessId, cycles: u64) -> (r: Result<u64, SyscallError>)
    requires
        old(ipc).wf(),
        caps.wf(),
    ensures
        final(ipc).wf(),
        final(ipc).next_id() == old(ipc).next_id(),
        ({
            let unchanged = final(ipc).eps() == old(ipc).eps() && final(ipc).stats() == old(ipc).stats() && final(procs)@ == old(procs)@;
            let ep = old(ipc).eps()[endpoint_id];
            if message_ptr == 0 {
                r == Err::<u64, SyscallError>(SyscallError::InvalidPointer) && unchanged
            } else if !endpoint_access(caps.procs(), caller.0, endpoint_id, KRIGHT_WRITE) {
                r == Err::<u64, SyscallError>(SyscallError::AccessDenied) && unchanged
            } else if !message_in_user_memory(message_ptr) {
                r == Err::<u64, SyscallError>(SyscallError::InvalidPointer) && unchanged
            } else if slot(old(procs)@, caller) is None {
                r == Err::<u64, SyscallError>(SyscallError::InvalidProcess) && unchanged
            } else if !old(ipc).eps().dom().contains(endpoint_id) {
                r == Err::<u64, SyscallError>(SyscallError::InvalidArgument) && unchanged
            } else {
                match ep.state {
                    EndpointState::Receiving(rcv) => if slot(old(procs)@, rcv) is None {
                        r == Err::<u64, SyscallError>(SyscallError::InternalError) && unchanged
                    } else {
                        &&& r == Ok::<u64, SyscallError>(0)
                        &&& final(procs)@ == with_state(old(procs)@, rcv, ProcessState::Ready)
                        &&& final(ipc).eps() == old(ipc).eps().insert(endpoint_id, EndpointView { state: EndpointState::Idle, ..ep })
                        &&& final(ipc).stats() == crate::kernel::ipc::stats_after(old(ipc).stats(), true, cycles)
                    },
                    _ => {
                        &&& r == Ok::<u64, SyscallError>(0)
                        &&& final(procs)@ == with_state(old(procs)@, caller, ProcessState::SendWait)
                        &&& final(ipc).eps() == old(ipc).eps().insert(endpoint_id, EndpointView { queue: ep.queue.push((caller, *message)), ..ep })
                        &&& final(ipc).stats() == crate::kernel::ipc::stats_after(old(ipc).stats(), false, cycles)
                    },
                }
            }
        }),
{
    if message_ptr == 0 {
        return Err(SyscallError::InvalidPointer);
    }
    if !caps.has_endpoint_access(caller, EndpointId(endpoint_id), Rights(KRIGHT_WRITE)) {
        return Err(SyscallError::AccessDenied);
    }
    if !is_user_readable(message_ptr, MESSAGE_SIZE) {
        return Err(SyscallError::InvalidPointer);
    }
    let i = caller.0 as usize;
    if i >= procs.len() || procs[i].is_none() {
        return Err(SyscallError::InvalidProcess);
    }
    match ipc.fastpath_send(EndpointId(endpoint_id), message, caller, procs, cycles) {
        Ok(true) => Ok(0),
        Ok(false) => {
            match ipc.slowpath_send(EndpointId(endpoint_id), message, caller, procs) {
                Ok(()) => Ok(0),
                Err(e) => Err(map_send_error(e)),
            }
        },
        Err(e) => Err(map_call_error(e)),
    }
}

/// Receive on endpoint `endpoint_id` for `caller`, who needs a receive
/// capability and a writable user buffer at `message_ptr`: `Ok(Some(m))`
/// when a message was waiting (to be written to the buffer; the call
/// returns 0), `Ok(None)` when the caller now waits.
pub fn sys_ipc_receive(ipc: &mut IpcManager, caps: &CapabilityManager, procs: &mut Vec<Option<Process>>,
    endpoint_id: u32, message_ptr: usize, caller: ProcessId) -> (r: Result<Option<Message>, SyscallError>)
    requires
        old(ipc).wf(),
        caps.wf(),
    ensures
        final(ipc).wf(),
        final(ipc).next_id() == old(ipc).next_id(),
        final(ipc).stats() == old(ipc).stats(),
        ({
            let unchanged = final(ipc).eps() == old(ipc).eps() && final(procs)@ == old(procs)@;
            let ep = old(ipc).eps()[endpoint_id];
            if message_ptr == 0 || !message_in_user_memory(message_ptr) {
                r == Err::<Option<Message>, SyscallError>(SyscallError::InvalidPointer) && unchanged
            } else if !endpoint_access(caps.procs(), caller.0, endpoint_id, KRIGHT_READ) {
                r == Err::<Option<Message>, SyscallError>(SyscallError::AccessDenied) && unchanged
            } else if !old(ipc).eps().dom().contains(endpoint_id) {
                r == Err::<Option<Message>, SyscallError>(SyscallError::InvalidArgument) && unchanged
            } else if ep.queue.len() > 0 {
                &&& r == Ok::<Option<Message>, SyscallError>(Some(ep.queue[0].1))
                &&& final(ipc).eps() == old(ipc).eps().insert(endpoint_id, EndpointView { queue: ep.queue.drop_first(), ..ep })
                &&& final(procs)@ == old(procs)@
            } else {
                &&& final(ipc).eps() == old(ipc).eps().insert(endpoint_id, EndpointView { state: EndpointState::Receiving(caller), ..ep })
                &&& final(procs)@ == with_state(old(procs)@, caller, ProcessState::ReceiveWait)
                &&& r == if slot(old(procs)@, caller) is Some { Ok::<Option<Message>, SyscallError>(None) }
                        else { Err(SyscallError::InternalError) }
            }
        }),
{
    if message_ptr == 0 {
        return Err(SyscallError::InvalidPointer);
    }
    if !is_user_writable(message_ptr, MESSAGE_SIZE) {
        return Err(SyscallError::InvalidPointer);
    }
    if !caps.has_endpoint_access(caller, EndpointId(endpoint_id), Rights(KRIGHT_READ)) {
        return Err(SyscallError::AccessDenied);
    }
    match ipc.receive(EndpointId(endpoint_id), caller, procs) {
        Ok(m) => Ok(m),
        Err(e) => Err(map_call_error(e)),
    }
}

/// Call through endpoint `endpoint_id` with `message` (read from the
/// caller's buffer at `message_ptr`, which must be readable and
/// writable); the caller needs READ and WRITE on the endpoint. The fast
/// path hands the call to a waiting receiver; otherwise the message is
/// queued and the caller waits to send.
pub fn sys_ipc_call(ipc: &mut IpcManager, caps: &CapabilityManager, procs: &mut Vec<Option<Process>>,
    endpoint_id: u32, message_ptr: usize, message: &Message, caller: ProcessId, cycles: u64) -> (r: Result<u64, SyscallError>)
    requires
        old(ipc).wf(),
        caps.wf(),
    ensures
        final(ipc).wf(),
        final(ipc).next_id() == old(ipc).next_id(),
        ({
            let unchanged = final(ipc).eps() == old(ipc).eps() && final(ipc).stats() == old(ipc).stats() && final(procs)@ == old(procs)@;
            let ep = old(ipc).eps()[endpoint_id];
            if message_ptr == 0 || !message_in_user_memory(message_ptr) {
                r == Err::<u64, SyscallError>(SyscallError::InvalidPointer) && unchanged
            } else if !endpoint_access(caps.procs(), caller.0, endpoint_id, KRIGHT_READ | KRIGHT_WRITE) {
                r == Err::<u64, SyscallError>(SyscallError::AccessDenied) && unchanged
            } else if slot(old(procs)@, caller) is None {
                r == Err::<u64, SyscallError>(SyscallError::InvalidProcess) && unchanged
            } else if !old(ipc).eps().dom().contains(endpoint_id) {
                r == Err::<u64, SyscallError>(SyscallError::InvalidArgument) && unchanged
            } else {
                match ep.state {
                    EndpointState::Receiving(rcv) => if slot(old(procs)@, rcv) is None {
                        r == Err::<u64, SyscallError>(SyscallError::InternalError) && unchanged
                    } else {
                        &&& r == Ok::<u64, SyscallError>(0)
                        &&& final(procs)@ == with_state(with_state(old(procs)@, rcv, ProcessState::Ready), caller, ProcessState::ReplyWait)
                        &&& final(ipc).eps() == old(ipc).eps().insert(endpoint_id, EndpointView { state: EndpointState::Call(caller), ..ep })
                        &&& final(ipc).stats() == crate::kernel::ipc::stats_after(old(ipc).stats(), true, cycles)
                    },
                    _ => {
                        &&& r == Ok::<u64, SyscallError>(0)
                        &&& final(procs)@ == with_state(old(procs)@, caller, ProcessState::SendWait)
                        &&& final(ipc).eps() == old(ipc).eps().insert(endpoint_id, EndpointView { queue: ep.queue.push((caller, *message)), ..ep })
                        &&& final(ipc).stats() == crate::kernel::ipc::stats_after(old(ipc).stats(), false, cycles)
                    },
                }
            }
        }),
{
    if message_ptr == 0 {
        return Err(SyscallError::InvalidPointer);
    }
    if !is_user_readable(message_ptr, MESSAGE_SIZE) || !is_user_writable(message_ptr, MESSAGE_SIZE) {
        return Err(SyscallError::InvalidPointer);
    }
    if !caps.has_endpoint_access(caller, EndpointId(endpoint_id), Rights(KRIGHT_READ | KRIGHT_WRITE)) {
        return Err(SyscallError::AccessDenied);
    }
    let i = caller.0 as usize;
    if i >= procs.len() || procs[i].is_none() {
        return Err(SyscallError::InvalidProcess);
    }
    match ipc.fastpath_call(EndpointId(endpoint_id), message, caller, procs, cycles) {
        Ok(true) => Ok(0),
        Ok(false) => {
            match ipc.slowpath_send(EndpointId(endpoint_id), message, caller, procs) {
                Ok(()) => Ok(0),
                Err(e) => Err(map_send_error(e)),
            }
        },
        Err(e) => Err(map_call_error(e)),
    }
}

/// Reply with `message` (read from the caller's buffer at `message_ptr`)
/// through endpoint `endpoint_id`.
pub fn sys_ipc_reply(ipc: &mut IpcManager, procs: &mut Vec<Option<Process>>,
    endpoint_id: u32, message_ptr: usize, message: &Message, caller: ProcessId) -> (r: Result<u64, SyscallError>)
    requires
        old(ipc).wf(),
    ensures
        final(ipc).wf(),
        final(ipc).next_id() == old(ipc).next_id(),
        final(ipc).stats() == old(ipc).stats(),
        ({
            let unchanged = final(ipc).eps() == old(ipc).eps() && final(procs)@ == old(procs)@;
            let ep = old(ipc).eps()[endpoint_id];
            if message_ptr == 0 || !message_in_user_memory(message_ptr) {
                r == Err::<u64, SyscallError>(SyscallError::InvalidPointer) && unchanged
            } else if !old(ipc).eps().dom().contains(endpoint_id) {
                r == Err::<u64, SyscallError>(SyscallError::InvalidArgument) && unchanged
            } else {
                match ep.state {
                    EndpointState::Call(c) => if slot(old(procs)@, c) is None {
                        r == Err::<u64, SyscallError>(SyscallError::InternalError) && unchanged
                    } else {
                        &&& r == Ok::<u64, SyscallError>(0)
                        &&& final(procs)@ == with_state(old(procs)@, c, ProcessState::Ready)
                        &&& final(ipc).eps() == old(ipc).eps().insert(endpoint_id, EndpointView { state: EndpointState::Idle, ..ep })
                    },
                    _ => r == Err::<u64, SyscallError>(SyscallError::InvalidOperation) && unchanged,
                }
            }
        }),
{
    if message_ptr == 0 {
        return Err(SyscallError::InvalidPointer);
    }
    if !is_user_readable(message_ptr, MESSAGE_SIZE) {
        return Err(SyscallError::InvalidPointer);
    }
    match ipc.reply(EndpointId(endpoint_id), message, caller, procs) {
        Ok(()) => Ok(0),
        Err(e) => Err(map_reply_error(e)),
    }
}

/// Create an endpoint owned by `caller`; returns its ID.
pub fn sys_create_endpoint(ipc: &mut IpcManager, caller: ProcessId) -> (r: Result<u64, SyscallError>)
    requires
        old(ipc).wf(),
    ensures
        final(ipc).wf(),
        r == Ok::<u64, SyscallError>(old(ipc).next_id() as u64),
        final(ipc).next_id() == old(ipc).next_id().wrapping_add(1),
        final(ipc).eps() == old(ipc).eps().insert(old(ipc).next_id(), EndpointView { id: EndpointId(old(ipc).next_id()), owner: caller,
            rights: crate::types::capability::Rights(crate::types::capability::RIGHT_ALL), state: EndpointState::Idle, queue: Seq::empty() }),
{
    match ipc.create_endpoint(caller) {
        Ok(id) => Ok(id.0 as u64),
        Err(_) => Err(SyscallError::OutOfMemory),
    }
}

/// Delete endpoint `endpoint_id`, which `caller` must own.
pub fn sys_delete_endpoint(ipc: &mut IpcManager, endpoint_id: u32, caller: ProcessId) -> (r: Result<u64, SyscallError>)
    requires
        old(ipc).wf(),
    ensures
        final(ipc).wf(),
        final(ipc).next_id() == old(ipc).next_id(),
        !old(ipc).eps().dom().contains(endpoint_id) ==> r == Err::<u64, SyscallError>(SyscallError::InvalidArgument)
            && final(ipc).eps() == old(ipc).eps(),
        old(ipc).eps().dom().contains(endpoint_id) && old(ipc).eps()[endpoint_id].owner != caller
            ==> r == Err::<u64, SyscallError>(SyscallError::AccessDenied) && final(ipc).eps() == old(ipc).eps(),
        old(ipc).eps().dom().contains(endpoint_id) && old(ipc).eps()[endpoint_id].owner == caller
            ==> r == Ok::<u64, SyscallError>(0) && final(ipc).eps() == old(ipc).eps().remove(endpoint_id),
{
    match ipc.delete_endpoint(EndpointId(endpoint_id), caller) {
        Ok(()) => Ok(0),
        Err(e) => Err(map_call_error(e)),
    }
}

} // verus!
