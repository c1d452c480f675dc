//! Delivery of hardware interrupt lines to the user-mode drivers that
//! registered for them, as IPC notifications.
use vstd::prelude::*;
use crate::types::process::ProcessId;
use crate::types::ipc::EndpointId;
use crate::kernel::KERNEL_PID;
use crate::kernel::capability::{CapabilityId, CapabilityManager, KRIGHT_ADMIN, holds};
use crate::kernel::capability::ResourceType;
use crate::kernel::ipc::{IpcManager, IpcError};
use crate::kernel::ipc::message::{Message, MessageType, IRQ_LABEL};
use crate::kernel::process::process::{Process, ProcessState, slot, with_state};

verus! {

/// Number of legacy interrupt lines.
pub const NUM_IRQS: usize = 16;

/// Failures of IRQ registration.
#[derive(Debug, Clone, Copy, PartialEq, Eq, Structural)]
pub enum IrqError {
    InvalidIrq,
    AlreadyRegistered,
    NotRegistered,
    AccessDenied,
    InvalidCapability,
}

/// The driver that receives an interrupt line.
#[derive(Debug, Clone, Copy, PartialEq, Eq, Structural)]
pub struct IrqHandler {
    pub process_id: ProcessId,
    pub endpoint_id: EndpointId,
    pub capability_id: CapabilityId,
}

/// Interrupt line counters.
#[derive(Debug, Clone, Copy)]
pub struct IrqStatistics {
    pub total_irqs: u64,
    pub unhandled_irqs: u64,
    pub per_irq_counts: [u64; 16],
}

/// What became of an interrupt.
#[derive(Debug, Clone, Copy, PartialEq, Eq, Structural)]
pub enum IrqDelivery {
    /// The timer line: tick the timer and the scheduler.
    Timer,
    /// A notification was queued for the registered driver.
    Delivered,
    /// Queuing the notification failed with this error.
    Failed(IpcError),
    /// No driver is registered: the line should be masked.
    Unhandled,
}

/// The notification a driver gets for line `irq`: a notify from the
/// kernel with the IRQ label and the line in word 0.
pub open spec fn irq_notification_ok(m: Message, irq: u8) -> bool {
    &&& m.header.msg_type == MessageType::Notify
    &&& m.header.label == IRQ_LABEL
    &&& m.header.sender.0 == KERNEL_PID
    &&& m.header.receiver.0 == 0xFFFF
    &&& m.header.flags.0 == 0
    &&& m.data.words@[0] == irq as u64
    &&& forall|i: int| 1 <= i < 6 ==> m.data.words@[i] == 0
}

/// Routes interrupt lines to drivers.
pub struct IrqManager {
    handlers: Vec<Option<IrqHandler>>,
    statistics: IrqStatistics,
}

impl IrqManager {
    /// One slot per line.
    pub closed spec fn wf(&self) -> bool {
        self.handlers@.len() == NUM_IRQS
    }

    /// The registered handlers by line.
    pub closed spec fn handlers(&self) -> Seq<Option<IrqHandler>> {
        self.handlers@
    }

    /// The counters.
    pub closed spec fn stats(&self) -> IrqStatistics {
        self.statistics
    }

    /// Nothing registered, counters zero.
    pub fn new() -> (r: Self)
        ensures
            r.wf(),
            forall|i: int| 0 <= i < NUM_IRQS ==> r.handlers()[i] is None,
            r.stats().total_irqs == 0,
            r.stats().unhandled_irqs == 0,
            forall|i: int| 0 <= i < 16 ==> r.stats().per_irq_counts@[i] == 0,
    {
        let mut handlers: Vec<Option<IrqHandler>> = Vec::new();
        let mut i: usize = 0;
        while i < NUM_IRQS
            invariant
                i <= NUM_IRQS,
                handlers@.len() == i,
                forall|j: int| 0 <= j < i ==> handlers@[j] is None,
            decreases NUM_IRQS - i,
        {
            handlers.push(None);
            i = i + 1;
        }
        IrqManager { handlers, statistics: IrqStatistics { total_irqs: 0, unhandled_irqs: 0, per_irq_counts: [0u64; 16] } }
    }

    /// Register `process_id` to receive line `irq` on `endpoint_id`; it
    /// must hold capability `capability_id` for the line with ADMIN. The
    /// caller unmasks the line on success.
    pub fn register_handler(&mut self, irq: u8, process_id: ProcessId, endpoint_id: EndpointId,
        capability_id: CapabilityId, caps: &CapabilityManager) -> (r: Result<(), IrqError>)
        requires
            old(self).wf(),
            caps.wf(),
        ensures
            final(self).wf(),
            final(self).stats() == old(self).stats(),
            irq >= 16 ==> r == Err::<(), IrqError>(IrqError::InvalidIrq),
            irq < 16 && old(self).handlers()[irq as int] is Some ==> r == Err::<(), IrqError>(IrqError::AlreadyRegistered),
            irq < 16 && old(self).handlers()[irq as int] is None && !irq_capability_ok(*caps, process_id, capability_id, irq)
                ==> r == Err::<(), IrqError>(IrqError::InvalidCapability),
            r is Err ==> final(self).handlers() == old(self).handlers(),
            r is Ok ==> irq < 16 && old(self).handlers()[irq as int] is None && irq_capability_ok(*caps, process_id, capability_id, irq)
                && final(self).handlers() == old(self).handlers().update(irq as int,
                    Some(IrqHandler { process_id, endpoint_id, capability_id })),
            irq < 16 && old(self).handlers()[irq as int] is None && irq_capability_ok(*caps, process_id, capability_id, irq) ==> r is Ok,
    {
        if irq >= 16 {
            return Err(IrqError::InvalidIrq);
        }
        if self.handlers[irq as usize].is_some() {
            return Err(IrqError::AlreadyRegistered);
        }
        if !caps.verify_irq_capability(process_id, capability_id, irq) {
            return Err(IrqError::InvalidCapability);
        }
        self.handlers.set(irq as usize, Some(IrqHandler { process_id, endpoint_id, capability_id }));
        Ok(())
    }

    /// Unregister line `irq`; only the registered process may. The caller
    /// masks the line on success.
    pub fn unregister_handler(&mut self, irq: u8, process_id: ProcessId) -> (r: Result<(), IrqError>)
        requires
            old(self).wf(),
        ensures
            final(self).wf(),
            final(self).stats() == old(self).stats(),
            irq >= 16 ==> r == Err::<(), IrqError>(IrqError::InvalidIrq) && final(self).handlers() == old(self).handlers(),
            irq < 16 ==> match old(self).handlers()[irq as int] {
                None => r == Err::<(), IrqError>(IrqError::NotRegistered) && final(self).handlers() == old(self).handlers(),
                Some(h) => if h.process_id != process_id {
                    r == Err::<(), IrqError>(IrqError::AccessDenied) && final(self).handlers() == old(self).handlers()
                } else {
                    r is Ok && final(self).handlers() == old(self).handlers().update(irq as int, None)
                },
            },
    {
        if irq >= 16 {
            return Err(IrqError::InvalidIrq);
        }
        match self.handlers[irq as usize] {
            Some(h) => {
                if h.process_id.0 != process_id.0 {
                    return Err(IrqError::AccessDenied);
                }
                self.handlers.set(irq as usize, None);
                Ok(())
            },
            None => Err(IrqError::NotRegistered),
        }
    }

    /// Handle line `irq`: count it; the timer line is for the timer;
    /// otherwise the registered driver gets a notification queued from the
    /// kernel on its endpoint, and an unregistered line or a failed
    /// delivery counts as unhandled.
    pub fn handle_irq(&mut self, irq: u8, ipc: &mut IpcManager, procs: &mut Vec<Option<Process>>) -> (r: IrqDelivery)
        requires
            old(self).wf(),
            old(ipc).wf(),
        ensures
            final(self).wf(),
            final(ipc).wf(),
            final(self).handlers() == old(self).handlers(),
            final(self).stats().total_irqs == old(self).stats().total_irqs.wrapping_add(1),
            final(self).stats().per_irq_counts@ == (if irq < 16 {
                old(self).stats().per_irq_counts@.update(irq as int, old(self).stats().per_irq_counts@[irq as int].wrapping_add(1))
            } else { old(self).stats().per_irq_counts@ }),
            irq == 0 ==> r == IrqDelivery::Timer && final(self).stats().unhandled_irqs == old(self).stats().unhandled_irqs
                && final(ipc).eps() == old(ipc).eps() && final(procs)@ == old(procs)@,
            irq != 0 && (irq >= 16 || old(self).handlers()[irq as int] is None) ==> r == IrqDelivery::Unhandled
                && final(self).stats().unhandled_irqs == old(self).stats().unhandled_irqs.wrapping_add(1)
                && final(ipc).eps() == old(ipc).eps() && final(procs)@ == old(procs)@,
            irq != 0 && irq < 16 && old(self).handlers()[irq as int] is Some ==> ({
                let ep = old(self).handlers()[irq as int].unwrap().endpoint_id;
                &&& (r == IrqDelivery::Delivered || r is Failed)
                &&& final(self).stats().unhandled_irqs == (if r is Failed { old(self).stats().unhandled_irqs.wrapping_add(1) }
                        else { old(self).stats().unhandled_irqs })
                &&& !old(ipc).eps().dom().contains(ep.0) ==> r == IrqDelivery::Failed(IpcError::InvalidEndpoint)
                    && final(ipc).eps() == old(ipc).eps() && final(procs)@ == old(procs)@
                &&& old(ipc).eps().dom().contains(ep.0) ==> exists|m: Message| #[trigger] irq_notification_ok(m, irq)
                    && final(ipc).eps() == old(ipc).eps().insert(ep.0, crate::kernel::ipc::endpoint::EndpointView {
                        queue: old(ipc).eps()[ep.0].queue.push((ProcessId(KERNEL_PID), m)), ..old(ipc).eps()[ep.0] })
                &&& old(ipc).eps().dom().contains(ep.0) ==> r == (if slot(old(procs)@, ProcessId(KERNEL_PID)) is Some {
                        IrqDelivery::Delivered } else { IrqDelivery::Failed(IpcError::InvalidProcess) })
                    && final(procs)@ == with_state(old(procs)@, ProcessId(KERNEL_PID), ProcessState::SendWait)
            }),
    {
        self.statistics.total_irqs = self.statistics.total_irqs.wrapping_add(1);
        if irq < 16 {
            let i = irq as usize;
            self.statistics.per_irq_counts[i] = self.statistics.per_irq_counts[i].wrapping_add(1);
        }
        if irq == 0 {
            return IrqDelivery::Timer;
        }
        let handler = if irq < 16 { self.handlers[irq as usize] } else { None };
        match handler {
            Some(h) => {
                let mut message = Message::new(MessageType::Notify);
                message.set_label(IRQ_LABEL);
                message.set_data(0, irq as u64);
                message.set_sender(ProcessId(KERNEL_PID));
                let ghost m = message;
                assert(irq_notification_ok(m, irq));
                match ipc.slowpath_send(h.endpoint_id, &message, ProcessId(KERNEL_PID), procs) {
                    Ok(()) => IrqDelivery::Delivered,
                    Err(e) => {
                        self.statistics.unhandled_irqs = self.statistics.unhandled_irqs.wrapping_add(1);
                        IrqDelivery::Failed(e)
                    },
                }
            },
            None => {
                self.statistics.unhandled_irqs = self.statistics.unhandled_irqs.wrapping_add(1);
                IrqDelivery::Unhandled
            },
        }
    }

    /// The counters.
    pub fn statistics(&self) -> (r: IrqStatistics)
        ensures
            r == self.stats(),
    {
        self.statistics
    }

    /// Whether a driver is registered for `irq`.
    pub fn is_registered(&self, irq: u8) -> (r: bool)
        requires
            self.wf(),
        ensures
            r == (irq < 16 && self.handlers()[irq as int] is Some),
    {
        irq < 16 && self.handlers[irq as usize].is_some()
    }

    /// The process and endpoint registered for `irq`.
    pub fn get_handler(&self, irq: u8) -> (r: Option<(ProcessId, EndpointId)>)
        requires
            self.wf(),
        ensures
            r == (if irq < 16 && self.handlers()[irq as int] is Some {
                Some((self.handlers()[irq as int].unwrap().process_id, self.handlers()[irq as int].unwrap().endpoint_id))
            } else { None }),
    {
        if irq < 16 {
            match self.handlers[irq as usize] {
                Some(h) => Some((h.process_id, h.endpoint_id)),
                None => None,
            }
        } else {
            None
        }
    }
}

/// Whether `caps` gives `pid` capability `cap` for line `irq` with ADMIN.
pub open spec fn irq_capability_ok(caps: CapabilityManager, pid: ProcessId, cap: CapabilityId, irq: u8) -> bool {
    caps.procs().dom().contains(pid.0) && caps.procs()[pid.0].dom().contains(cap.0)
        && caps.procs()[pid.0][cap.0].resource_type == ResourceType::Irq
        && caps.procs()[pid.0][cap.0].resource_id == irq as u64
        && holds(caps.procs()[pid.0][cap.0].rights.0, KRIGHT_ADMIN)
}

} // verus!
