//! Interrupt bookkeeping: the saved register frame, gate descriptors,
//! per-vector statistics and the routing of vectors to their handlers.
use vstd::prelude::*;
use crate::types::process::ProcessId;
use crate::types::ipc::EndpointId;
use crate::kernel::KERNEL_PID;
use crate::kernel::capability::{CapabilityManager, Rights, KRIGHT_READ, KRIGHT_WRITE, endpoint_access};
use crate::kernel::process::{ProcessManager, Rendezvous, called, received, yielded, exited, replied,
    call_can_proceed, receive_can_proceed, exit_can_proceed};
use crate::kernel::process::process::Process;

pub mod irq;
pub mod timer;

use crate::kernel::interrupt::irq::IrqManager;
use crate::kernel::interrupt::timer::Timer;

verus! {

/// The register state saved on kernel entry, in the order the entry stubs
/// push it.
#[derive(Debug, Clone, Copy, PartialEq, Eq, Structural)]
pub struct InterruptFrame {
    pub r15: u64, pub r14: u64, pub r13: u64, pub r12: u64,
    pub r11: u64, pub r10: u64, pub r9: u64, pub r8: u64,
    pub rbp: u64, pub rdi: u64, pub rsi: u64, pub rdx: u64,
    pub rcx: u64, pub rbx: u64, pub rax: u64,
    pub vector: u64,
    pub error_code: u64,
    pub rip: u64, pub cs: u64, pub rflags: u64, pub rsp: u64, pub ss: u64,
}

/// The frame with every register zero.
pub open spec fn zero_frame() -> InterruptFrame {
    InterruptFrame {
        r15: 0, r14: 0, r13: 0, r12: 0, r11: 0, r10: 0, r9: 0, r8: 0,
        rbp: 0, rdi: 0, rsi: 0, rdx: 0, rcx: 0, rbx: 0, rax: 0,
        vector: 0, error_code: 0, rip: 0, cs: 0, rflags: 0, rsp: 0, ss: 0,
    }
}

impl Default for InterruptFrame {
    fn default() -> (r: Self)
        ensures
            r == zero_frame(),
    {
        InterruptFrame {
            r15: 0, r14: 0, r13: 0, r12: 0, r11: 0, r10: 0, r9: 0, r8: 0,
            rbp: 0, rdi: 0, rsi: 0, rdx: 0, rcx: 0, rbx: 0, rax: 0,
            vector: 0, error_code: 0, rip: 0, cs: 0, rflags: 0, rsp: 0, ss: 0,
        }
    }
}

impl InterruptFrame {
    /// The frame that first enters user mode at `entry` on stack
    /// `user_stack` with the given selectors, interrupts enabled.
    pub fn new_user(entry: u64, user_stack: u64, user_cs: u64, user_ss: u64) -> (r: Self)
        ensures
            r == (InterruptFrame { rip: entry, rsp: user_stack, cs: user_cs, ss: user_ss, rflags: 0x202, ..zero_frame() }),
    {
        let mut f = InterruptFrame::default();
        f.rip = entry;
        f.rsp = user_stack;
        f.cs = user_cs;
        f.ss = user_ss;
        f.rflags = 0x202;
        f
    }
}

/// Receive on an endpoint.
pub const SYS_IPC_RECEIVE: u64 = 0x01;
/// Call through an endpoint.
pub const SYS_IPC_CALL: u64 = 0x02;
/// Reply to the caller.
pub const SYS_IPC_REPLY: u64 = 0x03;
/// Reply, then receive.
pub const SYS_IPC_REPLY_RECV: u64 = 0x0C;
/// Terminate the calling process.
pub const SYS_EXIT: u64 = 0x10;
/// Give up the processor.
pub const SYS_YIELD: u64 = 0x11;
/// The caller's PID.
pub const SYS_GETPID: u64 = 0x16;
/// Print bytes of the caller on the console.
pub const SYS_DEBUG_PRINT: u64 = 0xF0;
/// Report benchmark figures.
pub const SYS_REPORT: u64 = 0xF2;
/// Set in a returned value that reports an error.
pub const SYS_ERR: u64 = 0x8000_0000_0000_0000;
/// Largest length a debug print accepts.
pub const MAX_DEBUG_PRINT: u64 = 4096;

/// What the kernel does after a system call.
#[derive(Debug)]
pub enum SyscallOutcome {
    /// Return this value in RAX to the caller.
    Return(u64),
    /// Print the caller's `len` bytes at `ptr` (when they are UTF-8), then
    /// return 0.
    Print { ptr: u64, len: u64 },
    /// Log the benchmark figures, then return 0.
    Report { count: u64, total: u64, per_round_trip: u64 },
    /// Resume another process: its registers and page table.
    Switch(InterruptFrame, u64),
    /// The caller exited: reclaim `dead` once `next` is active, or halt
    /// when there is no `next`.
    Exit { dead: Option<Process>, dead_pid: ProcessId, next: Option<(InterruptFrame, u64)> },
}

/// The PID a system call acts for: the current process, else the kernel.
pub open spec fn caller_of(cur: Option<ProcessId>) -> ProcessId {
    match cur { Some(p) => p, None => ProcessId(KERNEL_PID) }
}

/// What the system call in `frame` needs so that it cannot fail halfway:
/// an allowed call or receive needs a process to switch to, as does a
/// reply-and-receive, and an exit needs a slot for the next process.
pub open spec fn dispatch_can_proceed(pm: ProcessManager, rdv: Rendezvous, caps: CapabilityManager, frame: InterruptFrame) -> bool {
    let pid = caller_of(pm.spec_current());
    if frame.rax == SYS_IPC_CALL {
        endpoint_access(caps.procs(), pid.0, frame.rdi as u32, KRIGHT_WRITE) ==> call_can_proceed(pm.table(), pm.spec_current(), rdv, frame)
    } else if frame.rax == SYS_IPC_RECEIVE {
        endpoint_access(caps.procs(), pid.0, frame.rdi as u32, KRIGHT_READ) ==> receive_can_proceed(pm.table(), pm.spec_current(), rdv, frame)
    } else if frame.rax == SYS_IPC_REPLY_RECV {
        receive_can_proceed(replied(pm.table(), rdv.caller, frame.rdi), pm.spec_current(), Rendezvous { caller: None, ..rdv }, frame)
    } else if frame.rax == SYS_EXIT {
        exit_can_proceed(pm.table(), pm.spec_current())
    } else {
        true
    }
}

/// Carry out the system call in `frame` (its number in RAX, arguments in
/// RDI and RSI): debug print, IPC call/receive/reply (call and receive
/// need a send or receive capability for the endpoint in RDI), benchmark
/// report, PID query, yield and exit; anything else is an invalid call.
pub fn dispatch_syscall(frame: &InterruptFrame, pm: &mut ProcessManager, rdv: &mut Rendezvous, caps: &CapabilityManager)
    -> (r: SyscallOutcome)
    requires
        old(pm).wf(),
        caps.wf(),
        dispatch_can_proceed(*old(pm), *old(rdv), *caps, *frame),
    ensures
        final(pm).wf(),
        frame.rax != SYS_EXIT ==> final(pm).sched() == old(pm).sched(),
        final(pm).spec_next_pid() == old(pm).spec_next_pid(),
        ({
            let n = frame.rax;
            let pid = caller_of(old(pm).spec_current());
            let unchanged = final(pm).table() == old(pm).table() && final(pm).spec_current() == old(pm).spec_current()
                && *final(rdv) == *old(rdv);
            if n == SYS_DEBUG_PRINT {
                unchanged && r == (if frame.rdi != 0 && frame.rsi <= MAX_DEBUG_PRINT {
                    SyscallOutcome::Print { ptr: frame.rdi, len: frame.rsi } } else { SyscallOutcome::Return(0) })
            } else if n == SYS_IPC_CALL {
                if endpoint_access(caps.procs(), pid.0, frame.rdi as u32, KRIGHT_WRITE) {
                    r matches SyscallOutcome::Switch(f, root) && called(old(pm).table(), old(pm).spec_current(), *old(rdv), *frame,
                        frame.rsi, final(pm).table(), final(pm).spec_current(), *final(rdv), (f, root))
                } else {
                    unchanged && r == SyscallOutcome::Return(SYS_ERR | 3)
                }
            } else if n == SYS_IPC_RECEIVE {
                if endpoint_access(caps.procs(), pid.0, frame.rdi as u32, KRIGHT_READ) {
                    exists|res: Result<u64, (InterruptFrame, u64)>| received(old(pm).table(), old(pm).spec_current(), *old(rdv), *frame,
                        final(pm).table(), final(pm).spec_current(), *final(rdv), res)
                        && r == outcome_of(res)
                } else {
                    unchanged && r == SyscallOutcome::Return(SYS_ERR | 3)
                }
            } else if n == SYS_IPC_REPLY {
                &&& r == SyscallOutcome::Return(0)
                &&& final(pm).table() == replied(old(pm).table(), old(rdv).caller, frame.rdi)
                &&& *final(rdv) == Rendezvous { caller: None, ..*old(rdv) }
                &&& final(pm).spec_current() == old(pm).spec_current()
            } else if n == SYS_IPC_REPLY_RECV {
                exists|res: Result<u64, (InterruptFrame, u64)>| received(replied(old(pm).table(), old(rdv).caller, frame.rdi),
                    old(pm).spec_current(), Rendezvous { caller: None, ..*old(rdv) }, *frame,
                    final(pm).table(), final(pm).spec_current(), *final(rdv), res)
                    && r == outcome_of(res)
            } else if n == SYS_REPORT {
                let count = if frame.rsi > 1 { frame.rsi } else { 1 };
                unchanged && r == SyscallOutcome::Report { count, total: frame.rdi, per_round_trip: frame.rdi / count }
            } else if n == SYS_GETPID {
                unchanged && r == SyscallOutcome::Return(match old(pm).spec_current() { Some(p) => p.0 as u64, None => 0 })
            } else if n == SYS_YIELD {
                &&& *final(rdv) == *old(rdv)
                &&& exists|y: Option<(InterruptFrame, u64)>| yielded(old(pm).table(), old(pm).spec_current(), *frame,
                    final(pm).table(), final(pm).spec_current(), y)
                    && r == (match y { Some((f, root)) => SyscallOutcome::Switch(f, root), None => SyscallOutcome::Return(0) })
            } else if n == SYS_EXIT {
                &&& *final(rdv) == *old(rdv)
                &&& r matches SyscallOutcome::Exit { dead, dead_pid, next }
                    && exited(old(pm).table(), old(pm).spec_current(), final(pm).table(), final(pm).spec_current(), (dead, dead_pid, next))
            } else {
                unchanged && r == SyscallOutcome::Return(SYS_ERR | 1)
            }
        }),
{
    let n = frame.rax;
    if n == SYS_DEBUG_PRINT {
        if frame.rdi != 0 && frame.rsi <= MAX_DEBUG_PRINT {
            SyscallOutcome::Print { ptr: frame.rdi, len: frame.rsi }
        } else {
            SyscallOutcome::Return(0)
        }
    } else if n == SYS_IPC_CALL {
        let pid = match pm.current_process() { Some(p) => p, None => ProcessId(KERNEL_PID) };
        let ep = frame.rdi;
        if caps.has_endpoint_access(pid, EndpointId(ep as u32), Rights(KRIGHT_WRITE)) {
            let (f, root) = pm.ipc_call(rdv, frame, ep, frame.rsi);
            SyscallOutcome::Switch(f, root)
        } else {
            SyscallOutcome::Return(SYS_ERR | 3)
        }
    } else if n == SYS_IPC_RECEIVE {
        let pid = match pm.current_process() { Some(p) => p, None => ProcessId(KERNEL_PID) };
        let ep = frame.rdi;
        if caps.has_endpoint_access(pid, EndpointId(ep as u32), Rights(KRIGHT_READ)) {
            let res = pm.ipc_receive(rdv, frame, ep);
            outcome_from(res)
        } else {
            SyscallOutcome::Return(SYS_ERR | 3)
        }
    } else if n == SYS_IPC_REPLY {
        SyscallOutcome::Return(pm.ipc_reply(rdv, frame, frame.rdi))
    } else if n == SYS_IPC_REPLY_RECV {
        let res = pm.ipc_reply_recv(rdv, frame, frame.rdi, frame.rsi);
        outcome_from(res)
    } else if n == SYS_REPORT {
        let total = frame.rdi;
        let count = if frame.rsi > 1 { frame.rsi } else { 1 };
        SyscallOutcome::Report { count, total, per_round_trip: total / count }
    } else if n == SYS_GETPID {
        match pm.current_process() {
            Some(p) => SyscallOutcome::Return(p.0 as u64),
            None => SyscallOutcome::Return(0),
        }
    } else if n == SYS_YIELD {
        match pm.schedule_yield(frame) {
            Some((f, root)) => SyscallOutcome::Switch(f, root),
            None => SyscallOutcome::Return(0),
        }
    } else if n == SYS_EXIT {
        let (dead, dead_pid, next) = pm.exit_current();
        SyscallOutcome::Exit { dead, dead_pid, next }
    } else {
        SyscallOutcome::Return(SYS_ERR | 1)
    }
}

/// The outcome for the result of a receive: the message, or a switch.
pub open spec fn outcome_of(res: Result<u64, (InterruptFrame, u64)>) -> SyscallOutcome {
    match res {
        Ok(m) => SyscallOutcome::Return(m),
        Err((f, root)) => SyscallOutcome::Switch(f, root),
    }
}

fn outcome_from(res: Result<u64, (InterruptFrame, u64)>) -> (r: SyscallOutcome)
    ensures
        r == outcome_of(res),
{
    match res {
        Ok(m) => SyscallOutcome::Return(m),
        Err((f, root)) => SyscallOutcome::Switch(f, root),
    }
}

/// Where an interrupt vector is handled.
#[derive(Debug, Clone, Copy, PartialEq, Eq, Structural)]
pub enum InterruptRoute {
    /// The system call gate.
    Syscall,
    /// A CPU exception, raised in user mode or in the kernel.
    Exception { from_user: bool },
    /// The timer line: tick, then end of interrupt for line 0.
    Timer,
    /// The keyboard line: read the scancode, then end of interrupt for line 1.
    Keyboard,
    /// Another legacy line: end of interrupt for it.
    Irq(u8),
    /// Nothing to do.
    Ignored,
}

/// The system call vector.
pub const SYSCALL_VECTOR: u8 = 0x80;
/// First vector of the legacy interrupt lines.
pub const IRQ_BASE: u8 = 32;

/// The route of `vector` raised with code selector `cs`.
pub open spec fn route_of(vector: u8, cs: u64) -> InterruptRoute {
    if vector == SYSCALL_VECTOR { InterruptRoute::Syscall }
    else if vector < 32 { InterruptRoute::Exception { from_user: cs & 3 == 3 } }
    else if vector == 32 { InterruptRoute::Timer }
    else if vector == 33 { InterruptRoute::Keyboard }
    else if vector < 48 { InterruptRoute::Irq((vector - 32) as u8) }
    else { InterruptRoute::Ignored }
}

/// Decide where the interrupt in `frame` is handled (its vector is the
/// low byte of the pushed vector number).
pub fn route_interrupt(frame: &InterruptFrame) -> (r: InterruptRoute)
    ensures
        r == route_of(frame.vector as u8, frame.cs),
{
    let vector = frame.vector as u8;
    if vector == SYSCALL_VECTOR {
        InterruptRoute::Syscall
    } else if vector < 32 {
        InterruptRoute::Exception { from_user: frame.cs & 3 == 3 }
    } else if vector == 32 {
        InterruptRoute::Timer
    } else if vector == 33 {
        InterruptRoute::Keyboard
    } else if vector < 48 {
        InterruptRoute::Irq(vector - 32)
    } else {
        InterruptRoute::Ignored
    }
}

/// Interrupt counters.
#[derive(Debug, Clone, Copy)]
pub struct InterruptStats {
    pub total_interrupts: u64,
    pub spurious_interrupts: u64,
    pub irq_counts: [u64; 16],
    pub exception_counts: [u64; 32],
}

impl Default for InterruptStats {
    fn default() -> (r: Self)
        ensures
            r.total_interrupts == 0,
            r.spurious_interrupts == 0,
            forall|i: int| 0 <= i < 16 ==> r.irq_counts@[i] == 0,
            forall|i: int| 0 <= i < 32 ==> r.exception_counts@[i] == 0,
    {
        InterruptStats { total_interrupts: 0, spurious_interrupts: 0, irq_counts: [0u64; 16], exception_counts: [0u64; 32] }
    }
}

impl InterruptStats {
    /// Count an interrupt on `vector`: in the total, and per exception or
    /// per legacy line (counters wrap).
    pub fn record_interrupt(&mut self, vector: u8)
        ensures
            final(self).total_interrupts == old(self).total_interrupts.wrapping_add(1),
            final(self).spurious_interrupts == old(self).spurious_interrupts,
            final(self).exception_counts@ == (if vector < 32 {
                old(self).exception_counts@.update(vector as int, old(self).exception_counts@[vector as int].wrapping_add(1))
            } else { old(self).exception_counts@ }),
            final(self).irq_counts@ == (if 32 <= vector < 48 {
                old(self).irq_counts@.update(vector - 32, old(self).irq_counts@[vector - 32].wrapping_add(1))
            } else { old(self).irq_counts@ }),
    {
        self.total_interrupts = self.total_interrupts.wrapping_add(1);
        if vector < 32 {
            let i = vector as usize;
            self.exception_counts[i] = self.exception_counts[i].wrapping_add(1);
        } else if vector < 48 {
            let i = (vector - 32) as usize;
            self.irq_counts[i] = self.irq_counts[i].wrapping_add(1);
        }
    }

    /// Count a spurious interrupt.
    pub fn record_spurious_interrupt(&mut self)
        ensures
            final(self).spurious_interrupts == old(self).spurious_interrupts.wrapping_add(1),
            final(self).total_interrupts == old(self).total_interrupts,
            final(self).irq_counts == old(self).irq_counts,
            final(self).exception_counts == old(self).exception_counts,
    {
        self.spurious_interrupts = self.spurious_interrupts.wrapping_add(1);
    }
}

/// A 64-bit interrupt gate descriptor.
#[derive(Debug, Clone, Copy, PartialEq, Eq, Structural)]
pub struct IdtEntry {
    pub offset_low: u16,
    pub selector: u16,
    pub ist: u8,
    pub type_attr: u8,
    pub offset_mid: u16,
    pub offset_high: u32,
    pub reserved: u32,
}

/// The handler address a gate points at.
pub open spec fn gate_target(e: IdtEntry) -> u64 {
    ((e.offset_high as u64) << 32u64) | ((e.offset_mid as u64) << 16u64) | (e.offset_low as u64)
}

impl IdtEntry {
    /// An absent gate.
    pub fn missing() -> (r: Self)
        ensures
            r == (IdtEntry { offset_low: 0, selector: 0, ist: 0, type_attr: 0, offset_mid: 0, offset_high: 0, reserved: 0 }),
    {
        IdtEntry { offset_low: 0, selector: 0, ist: 0, type_attr: 0, offset_mid: 0, offset_high: 0, reserved: 0 }
    }

    /// A present kernel-only interrupt gate to `handler`.
    pub fn new(handler: u64) -> (r: Self)
        ensures
            r == IdtEntry::gate(handler, 0),
            gate_target(r) == handler,
    {
        IdtEntry::with_dpl(handler, 0)
    }

    /// Interrupt gate entry for `handler`, usable from ring `dpl`.
    pub open spec fn gate(handler: u64, dpl: u8) -> IdtEntry {
        IdtEntry {
            offset_low: handler as u16,
            selector: 0x08,
            ist: 0,
            type_attr: 0x8E | ((dpl & 3) << 5u8),
            offset_mid: (handler >> 16u64) as u16,
            offset_high: (handler >> 32u64) as u32,
            reserved: 0,
        }
    }

    /// A present interrupt gate to `handler` in the kernel code segment,
    /// callable from privilege level `dpl` (the system call gate uses 3).
    pub fn with_dpl(handler: u64, dpl: u8) -> (r: Self)
        ensures
            r == IdtEntry::gate(handler, dpl),
            gate_target(r) == handler,
    {
        let r = IdtEntry {
            offset_low: handler as u16,
            selector: 0x08,
            ist: 0,
            type_attr: 0x8E | ((dpl & 3) << 5u8),
            offset_mid: (handler >> 16u64) as u16,
            offset_high: (handler >> 32u64) as u32,
            reserved: 0,
        };
        assert((((handler >> 32u64) as u32 as u64) << 32u64) | (((handler >> 16u64) as u16 as u64) << 16u64)
            | (handler as u16 as u64) == handler) by (bit_vector);
        r
    }
}

/// The interrupt descriptor table: gates for the CPU exceptions (their
/// handlers in `exceptions`, vectors 0 to 19 except 9 and 15, which stay
/// absent), the sixteen legacy lines at vectors 32 to 47, and the system
/// call gate at 0x80 callable from user mode; every other gate absent.
pub fn build_idt(exceptions: &[u64; 20], irqs: &[u64; 16], syscall: u64) -> (r: Vec<IdtEntry>)
    ensures
        r@.len() == 256,
        forall|v: int| 0 <= v < 256 ==> #[trigger] r@[v] == (
            if v < 20 && v != 9 && v != 15 { IdtEntry::gate(exceptions@[v], 0) }
            else if 32 <= v < 48 { IdtEntry::gate(irqs@[v - 32], 0) }
            else if v == 0x80 { IdtEntry::gate(syscall, 3) }
            else { IdtEntry::missing_spec() }),
{
    let mut r: Vec<IdtEntry> = Vec::new();
    let mut v: usize = 0;
    while v < 256
        invariant
            v <= 256,
            r@.len() == v,
            forall|w: int| 0 <= w < v ==> #[trigger] r@[w] == (
                if w < 20 && w != 9 && w != 15 { IdtEntry::gate(exceptions@[w], 0) }
                else if 32 <= w < 48 { IdtEntry::gate(irqs@[w - 32], 0) }
                else if w == 0x80 { IdtEntry::gate(syscall, 3) }
                else { IdtEntry::missing_spec() }),
        decreases 256 - v,
    {
        let e = if v < 20 && v != 9 && v != 15 {
            IdtEntry::new(exceptions[v])
        } else if 32 <= v && v < 48 {
            IdtEntry::new(irqs[v - 32])
        } else if v == 0x80 {
            IdtEntry::with_dpl(syscall, 3)
        } else {
            IdtEntry::missing()
        };
        r.push(e);
        v = v + 1;
    }
    r
}

impl IdtEntry {
    /// An absent gate.
    pub open spec fn missing_spec() -> IdtEntry {
        IdtEntry { offset_low: 0, selector: 0, ist: 0, type_attr: 0, offset_mid: 0, offset_high: 0, reserved: 0 }
    }
}

/// Command port of the primary interrupt controller.
pub const PIC1_COMMAND: u16 = 0x20;
/// Data (mask) port of the primary interrupt controller.
pub const PIC1_DATA: u16 = 0x21;
/// Command port of the secondary interrupt controller.
pub const PIC2_COMMAND: u16 = 0xA0;
/// Data (mask) port of the secondary interrupt controller.
pub const PIC2_DATA: u16 = 0xA1;
/// End-of-interrupt command.
pub const PIC_EOI: u8 = 0x20;

/// The mask port of the controller serving line `irq`.
pub open spec fn mask_port(irq: u8) -> u16 {
    if irq < 8 { PIC1_DATA } else { PIC2_DATA }
}

/// The mask bit of line `irq` on its controller.
pub open spec fn mask_bit(irq: u8) -> u8 {
    (1u8 << (irq % 8)) as u8
}

/// Unmask line `irq`: given the mask read from its controller's data
/// port, the port and the mask to write back.
pub fn enable_irq(irq: u8, mask: u8) -> (r: (u16, u8))
    ensures
        r == (mask_port(irq), mask & !mask_bit(irq)),
{
    let port = if irq < 8 { PIC1_DATA } else { PIC2_DATA };
    (port, mask & !(1u8 << (irq % 8)))
}

/// Mask line `irq`: given the mask read from its controller's data port,
/// the port and the mask to write back.
pub fn disable_irq(irq: u8, mask: u8) -> (r: (u16, u8))
    ensures
        r == (mask_port(irq), mask | mask_bit(irq)),
{
    let port = if irq < 8 { PIC1_DATA } else { PIC2_DATA };
    (port, mask | (1u8 << (irq % 8)))
}

/// The command ports that must receive an end-of-interrupt for line
/// `irq`, in order: the secondary controller first when it serves the
/// line, then always the primary.
pub fn end_of_interrupt(irq: u8) -> (r: Vec<u16>)
    ensures
        r@ == (if irq >= 8 { seq![PIC2_COMMAND, PIC1_COMMAND] } else { seq![PIC1_COMMAND] }),
{
    let mut r: Vec<u16> = Vec::new();
    if irq >= 8 {
        r.push(PIC2_COMMAND);
    }
    r.push(PIC1_COMMAND);
    r
}

/// The interrupt subsystem: line routing, the timer and the counters.
pub struct InterruptManager {
    irq_manager: IrqManager,
    timer: Timer,
    stats: InterruptStats,
}

impl InterruptManager {
    /// Line routing is well formed.
    pub closed spec fn wf(&self) -> bool {
        self.irq_manager.wf()
    }

    /// The counters.
    pub closed spec fn spec_stats(&self) -> InterruptStats {
        self.stats
    }

    /// Line routing.
    pub closed spec fn spec_irq(&self) -> IrqManager {
        self.irq_manager
    }

    /// The timer.
    pub closed spec fn spec_timer(&self) -> Timer {
        self.timer
    }

    /// Nothing registered, no ticks, counters zero.
    pub fn new() -> (r: Self)
        ensures
            r.wf(),
            r.spec_stats().total_interrupts == 0,
            r.spec_stats().spurious_interrupts == 0,
    {
        InterruptManager { irq_manager: IrqManager::new(), timer: Timer::new(), stats: InterruptStats::default() }
    }

    /// Line routing.
    pub fn irq_manager(&self) -> (r: &IrqManager)
        ensures
            *r == self.spec_irq(),
    {
        &self.irq_manager
    }

    /// The timer.
    pub fn timer(&self) -> (r: &Timer)
        ensures
            *r == self.spec_timer(),
    {
        &self.timer
    }

    /// Count an interrupt on `vector`.
    pub fn record_interrupt(&mut self, vector: u8)
        ensures
            final(self).spec_stats().total_interrupts == old(self).spec_stats().total_interrupts.wrapping_add(1),
            final(self).spec_stats().spurious_interrupts == old(self).spec_stats().spurious_interrupts,
            final(self).spec_stats().exception_counts@ == (if vector < 32 {
                old(self).spec_stats().exception_counts@.update(vector as int, old(self).spec_stats().exception_counts@[vector as int].wrapping_add(1))
            } else { old(self).spec_stats().exception_counts@ }),
            final(self).spec_stats().irq_counts@ == (if 32 <= vector < 48 {
                old(self).spec_stats().irq_counts@.update(vector - 32, old(self).spec_stats().irq_counts@[vector - 32].wrapping_add(1))
            } else { old(self).spec_stats().irq_counts@ }),
            final(self).wf() == old(self).wf(),
    {
        self.stats.record_interrupt(vector);
    }

    /// Count a spurious interrupt.
    pub fn record_spurious_interrupt(&mut self)
        ensures
            final(self).spec_stats().spurious_interrupts == old(self).spec_stats().spurious_interrupts.wrapping_add(1),
            final(self).spec_stats().total_interrupts == old(self).spec_stats().total_interrupts,
            final(self).wf() == old(self).wf(),
    {
        self.stats.record_spurious_interrupt();
    }

    /// The counters.
    pub fn stats(&self) -> (r: &InterruptStats)
        ensures
            *r == self.spec_stats(),
    {
        &self.stats
    }
}

} // verus!
