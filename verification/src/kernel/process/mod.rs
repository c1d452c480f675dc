//! Processes: the process table, PID allocation, round-robin selection,
//! the scheduler, and the single-channel rendezvous used by call/reply IPC.
use vstd::prelude::*;
use crate::types::process::ProcessId;
use crate::kernel::MAX_PROCESSES;
use crate::kernel::interrupt::InterruptFrame;
use crate::kernel::process::process::{Process, ProcessState, slot, take_slot, created, holds_image, loadable, image_pages};
use crate::kernel::memory::frame::count_free;
use crate::kernel::process::elf::le64;
use crate::kernel::memory::frame::FrameAllocator;
use crate::kernel::memory::page::MAX_TABLE_FRAMES;
use crate::kernel::boot::BootInfo;
use crate::kernel::process::scheduler::{Scheduler, without, requeued, top_level, dispatched};

pub mod context;
pub mod elf;
pub mod process;
pub mod scheduler;

verus! {

/// Highest reincarnation generation: a crashed process is restarted only
/// while its generation is below this.
pub const MAX_GENERATION: u32 = 1;

/// Failures of process operations.
#[derive(Debug, Clone, Copy, PartialEq, Eq, Structural)]
pub enum ProcessError {
    OutOfProcessSlots,
    ProcessNotFound,
    InvalidElf,
    OutOfMemory,
    PermissionDenied,
}

/// Whether a process in this state may be picked to run.
pub open spec fn is_runnable(s: ProcessState) -> bool {
    s == ProcessState::Ready || s == ProcessState::Running
}

/// Whether table slot `i` holds a runnable process.
pub open spec fn runnable_at(t: Seq<Option<Process>>, i: int) -> bool {
    0 <= i < t.len() && t[i] is Some && is_runnable(t[i].unwrap().state)
}

/// Whether the slot `off` places after `cur`, going round the table,
/// holds a runnable process.
pub open spec fn runnable_after(t: Seq<Option<Process>>, cur: int, off: int) -> bool {
    runnable_at(t, (cur + off) % (t.len() as int))
}

/// Whether the slot `off` places after the current one (slot 0 when there
/// is none), wrapping, holds a runnable process and is not the current
/// process's own slot.
pub open spec fn candidate(t: Seq<Option<Process>>, cur: Option<ProcessId>, off: int) -> bool {
    let c = cur_index(cur);
    runnable_after(t, c, off) && !(cur is Some && (c + off) % (t.len() as int) == c)
}

/// The first slot met going round the table after the current one
/// (wrapping) that holds a runnable process other than the current one, or
/// `None`.
pub open spec fn next_runnable(t: Seq<Option<Process>>, cur: Option<ProcessId>) -> Option<int> {
    if exists|off: int| 1 <= off <= t.len() && #[trigger] candidate(t, cur, off) {
        let off = choose|off: int| 1 <= off <= t.len() && #[trigger] candidate(t, cur, off)
            && forall|o: int| 1 <= o < off ==> !#[trigger] candidate(t, cur, o);
        Some((cur_index(cur) + off) % (t.len() as int))
    } else {
        None
    }
}

/// The slot index of the current process, 0 when there is none.
pub open spec fn cur_index(c: Option<ProcessId>) -> int {
    match c { Some(p) => p.0 as int, None => 0 }
}

/// The first free slot at or after `from`, when there is one below the
/// table's end.
pub open spec fn free_from(t: Seq<Option<Process>>, from: int) -> Option<int> {
    if exists|i: int| from <= i < t.len() && t[i] is None {
        Some(choose|i: int| from <= i < t.len() && t[i] is None && forall|j: int| from <= j < i ==> t[j] is Some)
    } else {
        None
    }
}

/// When some slot at or after `from` is free, a first such slot exists.
pub proof fn lemma_first_free(t: Seq<Option<Process>>, from: int)
    requires
        0 <= from,
        exists|i: int| from <= i < t.len() && t[i] is None,
    ensures
        exists|i: int| from <= i < t.len() && t[i] is None && forall|j: int| from <= j < i ==> t[j] is Some,
    decreases t.len() - from,
{
    if t[from] is None {
        assert(forall|j: int| from <= j < from ==> t[j] is Some);
    } else {
        let w = choose|i: int| from <= i < t.len() && t[i] is None;
        assert(from + 1 <= w);
        lemma_first_free(t, from + 1);
        let i = choose|i: int| from + 1 <= i < t.len() && t[i] is None && forall|j: int| from + 1 <= j < i ==> t[j] is Some;
        assert(forall|j: int| from <= j < i ==> t[j] is Some);
    }
}

/// The single synchronous channel: a process blocked receiving, a process
/// blocked in a call awaiting its reply, and a message sent before any
/// receiver was ready.
#[derive(Debug, Clone, Copy, PartialEq, Eq, Structural)]
pub struct Rendezvous {
    pub receiver: Option<ProcessId>,
    pub caller: Option<ProcessId>,
    pub pending_msg: u64,
    pub has_pending: bool,
}

impl Rendezvous {
    /// No one waiting, nothing pending.
    pub fn new() -> (r: Self)
        ensures
            r == (Rendezvous { receiver: None, caller: None, pending_msg: 0, has_pending: false }),
    {
        Rendezvous { receiver: None, caller: None, pending_msg: 0, has_pending: false }
    }
}

/// What resuming `p` needs: its saved registers and its page table.
pub open spec fn resume_point(p: Process) -> (InterruptFrame, u64) {
    (p.saved, p.address_space.root())
}

/// The table with `pid`, if present, holding `frame` and in state `state`.
pub open spec fn parked(t: Seq<Option<Process>>, pid: ProcessId, frame: InterruptFrame, state: ProcessState) -> Seq<Option<Process>> {
    match slot(t, pid) {
        Some(p) => t.update(pid.0 as int, Some(Process { saved: frame, state, ..p })),
        None => t,
    }
}

/// The table with `pid`, if present, holding `value` in RAX and in state
/// `state`.
pub open spec fn delivered(t: Seq<Option<Process>>, pid: ProcessId, value: u64, state: ProcessState) -> Seq<Option<Process>> {
    match slot(t, pid) {
        Some(p) => t.update(pid.0 as int, Some(Process { saved: InterruptFrame { rax: value, ..p.saved }, state, ..p })),
        None => t,
    }
}

/// The table after a reply of `rval` to `caller`.
pub open spec fn replied(t: Seq<Option<Process>>, caller: Option<ProcessId>, rval: u64) -> Seq<Option<Process>> {
    match caller {
        Some(c) => delivered(t, c, rval, ProcessState::Ready),
        None => t,
    }
}

/// Whether, in table `t`, some process other than the one leaving is
/// runnable and has a slot, so that switching to it is possible.
pub open spec fn can_switch(t: Seq<Option<Process>>, cur: Option<ProcessId>) -> bool {
    next_runnable(t, cur) matches Some(i) && slot(t, t[i].unwrap().id) is Some
}

/// What a call needs: a current process, and a waiting receiver with a
/// slot or else a process to switch to.
pub open spec fn call_can_proceed(t: Seq<Option<Process>>, cur: Option<ProcessId>, rdv: Rendezvous, frame: InterruptFrame) -> bool {
    cur matches Some(c) && {
        let t1 = parked(t, c, frame, ProcessState::ReplyWait);
        match rdv.receiver {
            Some(s) => slot(t1, s) is Some,
            None => can_switch(t1, Some(c)),
        }
    }
}

/// What a receive needs: a current process, and a pending message or
/// else a process to switch to.
pub open spec fn receive_can_proceed(t: Seq<Option<Process>>, cur: Option<ProcessId>, rdv: Rendezvous, frame: InterruptFrame) -> bool {
    cur matches Some(c) && (rdv.has_pending || can_switch(parked(t, c, frame, ProcessState::ReceiveWait), Some(c)))
}

/// What an exit needs: a slot for the process switched to, if any.
pub open spec fn exit_can_proceed(t: Seq<Option<Process>>, cur: Option<ProcessId>) -> bool {
    let t1 = match cur {
        Some(c) => if slot(t, c) is Some { t.update(c.0 as int, None) } else { t },
        None => t,
    };
    next_runnable(t1, cur) matches Some(i) ==> slot(t1, t1[i].unwrap().id) is Some
}

/// The outcome of a receive from table `t` with current process `cur`
/// and channel `rdv`: table `t2`, current `cur2`, channel `rdv2`, result `r`.
pub open spec fn received(t: Seq<Option<Process>>, cur: Option<ProcessId>, rdv: Rendezvous, frame: InterruptFrame,
    t2: Seq<Option<Process>>, cur2: Option<ProcessId>, rdv2: Rendezvous, r: Result<u64, (InterruptFrame, u64)>) -> bool
{
    let c = cur.unwrap();
    if rdv.has_pending {
        &&& r == Ok::<u64, (InterruptFrame, u64)>(rdv.pending_msg)
        &&& rdv2 == Rendezvous { has_pending: false, ..rdv }
        &&& t2 == t
        &&& cur2 == cur
    } else {
        let t1 = parked(t, c, frame, ProcessState::ReceiveWait);
        let pid = t1[next_runnable(t1, Some(c)).unwrap()].unwrap().id;
        &&& rdv2 == Rendezvous { receiver: Some(c), ..rdv }
        &&& t2 == delivered(t1, pid, slot(t1, pid).unwrap().saved.rax, ProcessState::Running)
        &&& cur2 == Some(pid)
        &&& r == Err::<u64, (InterruptFrame, u64)>(resume_point(slot(t1, pid).unwrap()))
    }
}

/// The outcome of a yield by `cur` saving `frame`, from table `t`: table
/// `t2`, current `cur2`, result `r`.
pub open spec fn yielded(t: Seq<Option<Process>>, cur: Option<ProcessId>, frame: InterruptFrame,
    t2: Seq<Option<Process>>, cur2: Option<ProcessId>, r: Option<(InterruptFrame, u64)>) -> bool
{
    let t1 = match cur {
        Some(c) => parked(t, c, InterruptFrame { rax: 0, ..frame }, ProcessState::Ready),
        None => t,
    };
    match next_runnable(t1, cur) {
        None => r is None && t2 == t1 && cur2 == cur,
        Some(i) => {
            let pid = t1[i].unwrap().id;
            &&& cur2 == Some(pid)
            &&& match slot(t1, pid) {
                Some(p) => r == Some(resume_point(p)) && t2 == delivered(t1, pid, p.saved.rax, ProcessState::Running),
                None => r is None && t2 == t1,
            }
        },
    }
}

/// The outcome of a call sending `msg` from table `t` with current `cur`
/// and channel `rdv`: table `t2`, current `cur2`, channel `rdv2`, and where
/// to resume `r`.
pub open spec fn called(t: Seq<Option<Process>>, cur: Option<ProcessId>, rdv: Rendezvous, frame: InterruptFrame, msg: u64,
    t2: Seq<Option<Process>>, cur2: Option<ProcessId>, rdv2: Rendezvous, r: (InterruptFrame, u64)) -> bool
{
    let c = cur.unwrap();
    let t1 = parked(t, c, frame, ProcessState::ReplyWait);
    &&& rdv2.caller == Some(c)
    &&& rdv2.receiver is None
    &&& match rdv.receiver {
        Some(s) => {
            &&& rdv2.pending_msg == rdv.pending_msg
            &&& rdv2.has_pending == rdv.has_pending
            &&& t2 == delivered(t1, s, msg, ProcessState::Running)
            &&& cur2 == Some(s)
            &&& r == resume_point(slot(t2, s).unwrap())
        },
        None => {
            let pid = t1[next_runnable(t1, Some(c)).unwrap()].unwrap().id;
            &&& rdv2.pending_msg == msg
            &&& rdv2.has_pending
            &&& t2 == delivered(t1, pid, slot(t1, pid).unwrap().saved.rax, ProcessState::Running)
            &&& cur2 == Some(pid)
            &&& r == resume_point(slot(t1, pid).unwrap())
        },
    }
}

/// The outcome of the exit of `cur` from table `t`: table `t2`, current
/// `cur2`, and the dead process, its PID and where to resume.
pub open spec fn exited(t: Seq<Option<Process>>, cur: Option<ProcessId>, t2: Seq<Option<Process>>, cur2: Option<ProcessId>,
    r: (Option<Process>, ProcessId, Option<(InterruptFrame, u64)>)) -> bool
{
    let t1 = match cur {
        Some(c) => if slot(t, c) is Some { t.update(c.0 as int, None) } else { t },
        None => t,
    };
    &&& r.0 == match cur { Some(c) => slot(t, c), None => None }
    &&& r.1 == match cur { Some(c) => c, None => ProcessId(0) }
    &&& match next_runnable(t1, cur) {
        None => r.2 is None && t2 == t1 && cur2 == cur,
        Some(i) => {
            let pid = t1[i].unwrap().id;
            &&& r.2 == Some(resume_point(slot(t1, pid).unwrap()))
            &&& t2 == delivered(t1, pid, slot(t1, pid).unwrap().saved.rax, ProcessState::Running)
            &&& cur2 == Some(pid)
        },
    }
}

/// What resuming after a fault does, from table `t` with current `cur`,
/// given the restarted process `spawned` if the crashed one was restarted:
/// table `t2`, current `cur2`, and where to resume `r`. The restarted
/// process runs; without one, the next runnable process other than `cur`
/// runs; with neither there is nothing to resume (the processor halts).
pub open spec fn fault_resumed(t: Seq<Option<Process>>, cur: Option<ProcessId>, spawned: Option<ProcessId>,
    t2: Seq<Option<Process>>, cur2: Option<ProcessId>, r: Option<(InterruptFrame, u64)>) -> bool
{
    match spawned {
        Some(n) => {
            &&& cur2 == Some(n)
            &&& t2 == delivered(t, n, slot(t, n).unwrap().saved.rax, ProcessState::Running)
            &&& r == Some(resume_point(slot(t, n).unwrap()))
        },
        None => match next_runnable(t, cur) {
            None => r is None && t2 == t && cur2 == cur,
            Some(i) => {
                let pid = t[i].unwrap().id;
                &&& cur2 == Some(pid)
                &&& match slot(t, pid) {
                    Some(p) => r == Some(resume_point(p)) && t2 == delivered(t, pid, p.saved.rax, ProcessState::Running),
                    None => r is None && t2 == t,
                }
            },
        },
    }
}

/// The table without the process in slot `c`, if any.
pub open spec fn removed(t: Seq<Option<Process>>, c: ProcessId) -> Seq<Option<Process>> {
    if slot(t, c) is Some { t.update(c.0 as int, None) } else { t }
}

/// What handling a fault of the current process `c` does, from manager
/// `m0` and allocator `fa0` to `m1` and `fa1`, restarting from `initrd`
/// and giving the restarted process `spawned` and the resume point `r`.
/// The crashed process (generation `gen`) leaves the table and every
/// frame it owned is free at the end. A restart happens only below
/// `MAX_GENERATION` with the executable at hand, and then surely when a
/// PID is free and the executable loads in the frames there are; the
/// restarted process takes a slot that was free, holds the next
/// generation (also in RDI), and is current, running and resumed, every
/// other slot staying as the fault left it. Without a restart, the next
/// runnable process other than `c` is resumed, as `fault_resume` does,
/// and only the crashed process's frames are freed.
pub open spec fn fault_handled(m0: ProcessManager, fa0: FrameAllocator, c: ProcessId, initrd: Option<&[u8]>,
    m1: ProcessManager, fa1: FrameAllocator, spawned: Option<ProcessId>, r: Option<(InterruptFrame, u64)>) -> bool
{
    let dead = slot(m0.table(), c);
    let gen = match dead { Some(p) => p.generation, None => 0u32 };
    let t1 = removed(m0.table(), c);
    &&& dead matches Some(p) ==> forall|i: int| 0 <= i < fa0.view().len() && p.address_space.owns(i)
        ==> !#[trigger] fa1.view()[i]
    &&& spawned is Some ==> gen < MAX_GENERATION && initrd is Some
    &&& initrd matches Some(d) ==> (gen < MAX_GENERATION && free_from(t1, m0.spec_next_pid() as int) is Some
        && loadable(d@) && count_free(fa0.view()) >= 3 + 4 * image_pages(d@) ==> spawned is Some)
    &&& spawned matches Some(n) ==> {
        &&& slot(t1, n) is None
        &&& m1.spec_current() == Some(n)
        &&& slot(m1.table(), n) matches Some(q) && q.generation == gen + 1 && q.saved.rdi == (gen + 1) as u64
            && q.state == ProcessState::Running && r == Some(resume_point(q))
        &&& forall|pid: ProcessId| pid != n ==> #[trigger] slot(m1.table(), pid) == slot(t1, pid)
    }
    &&& spawned is None ==> fault_resumed(t1, Some(c), None, m1.table(), m1.spec_current(), r)
    &&& (gen >= MAX_GENERATION || initrd is None) ==> (spawned is None
        && forall|i: int| 0 <= i < fa0.view().len() ==> #[trigger] fa1.view()[i]
            == (fa0.view()[i] && !(dead matches Some(p) && p.address_space.owns(i))))
}

/// What `kill_process` of `pid` does, from manager `m0` and allocator
/// `fa0` to `m1` and `fa1`, returning `r`: without a process under `pid`
/// it is `ProcessNotFound` and nothing changes; otherwise the slot is
/// emptied, the PID leaves every ready queue (and the scheduler's current
/// one), and exactly the frames of its address space become free.
pub open spec fn kill_outcome(m0: ProcessManager, m1: ProcessManager, fa0: FrameAllocator, fa1: FrameAllocator,
    pid: ProcessId, r: Result<(), ProcessError>) -> bool
{
    &&& m1.wf()
    &&& fa1.wf()
    &&& fa1.view().len() == fa0.view().len()
    &&& m1.spec_next_pid() == m0.spec_next_pid()
    &&& m1.spec_current() == m0.spec_current()
    &&& m0.table()[pid.0 as int] is None ==> r == Err::<(), ProcessError>(ProcessError::ProcessNotFound)
        && m1.table() == m0.table() && m1.sched() == m0.sched() && fa1 == fa0
    &&& m0.table()[pid.0 as int] matches Some(p) ==> r is Ok
        && m1.table() == m0.table().update(pid.0 as int, None)
        && m1.sched().queues() == Seq::new(5, |l: int| without(m0.sched().queues()[l], pid))
        && m1.sched().spec_current() == (if m0.sched().spec_current() == Some(pid) { None } else { m0.sched().spec_current() })
        && (forall|i: int| 0 <= i < fa0.view().len()
            ==> #[trigger] fa1.view()[i] == (fa0.view()[i] && !p.address_space.owns(i)))
        && fa1.free_count() + count_free(fa0.view()) == fa0.free_count() + count_free(fa1.view())
}

/// The process table, PID allocation and the scheduler.
pub struct ProcessManager {
    processes: Vec<Option<Process>>,
    next_pid: u16,
    current_process: Option<ProcessId>,
    scheduler: Scheduler,
}

impl ProcessManager {
    /// The table has one slot per PID below `MAX_PROCESSES`, the next PID
    /// to try is a user PID, and the scheduler is well formed.
    pub closed spec fn wf(&self) -> bool {
        &&& self.processes@.len() == MAX_PROCESSES
        &&& 1 <= self.next_pid <= MAX_PROCESSES
        &&& self.scheduler.wf()
    }

    /// The table, indexed by PID.
    pub closed spec fn table(&self) -> Seq<Option<Process>> {
        self.processes@
    }

    /// The PID tried first by the next allocation.
    pub closed spec fn spec_next_pid(&self) -> u16 {
        self.next_pid
    }

    /// The process holding the processor.
    pub closed spec fn spec_current(&self) -> Option<ProcessId> {
        self.current_process
    }

    /// The scheduler.
    pub closed spec fn sched(&self) -> Scheduler {
        self.scheduler
    }

    /// An empty table; PIDs start at 1 (0 is the kernel's).
    pub fn new() -> (r: Self)
        ensures
            r.wf(),
            r.table() == Seq::new(MAX_PROCESSES as nat, |i: int| None::<Process>),
            r.spec_next_pid() == 1,
            r.spec_current() is None,
            r.sched().spec_current() is None,
            r.sched().idle() is None,
    {
        let mut processes: Vec<Option<Process>> = Vec::new();
        let mut i: usize = 0;
        while i < MAX_PROCESSES
            invariant
                i <= MAX_PROCESSES,
                processes@ == Seq::new(i as nat, |j: int| None::<Process>),
            decreases MAX_PROCESSES - i,
        {
            processes.push(None);
            assert(processes@ =~= Seq::new((i + 1) as nat, |j: int| None::<Process>));
            i = i + 1;
        }
        ProcessManager { processes, next_pid: 1, current_process: None, scheduler: Scheduler::new() }
    }

    /// Whether the next allocation finds a free slot before the table's
    /// end.
    pub closed spec fn can_allocate(&self) -> bool {
        free_from(self.processes@, self.next_pid as int) is Some
    }

    /// Whether the next allocation finds a free slot before the table's end.
    pub fn has_free_pid(&self) -> (r: bool)
        requires
            self.wf(),
        ensures
            r == self.can_allocate(),
    {
        let mut i: usize = self.next_pid as usize;
        while i < self.processes.len()
            invariant
                self.wf(),
                self.next_pid <= i <= self.processes@.len(),
                forall|j: int| self.next_pid <= j < i ==> self.processes@[j] is Some,
            decreases self.processes@.len() - i,
        {
            if self.processes[i].is_none() {
                return true;
            }
            i = i + 1;
        }
        false
    }

    /// Take the first free PID at or after the next one to try.
    fn allocate_pid(&mut self) -> (r: Result<ProcessId, ProcessError>)
        requires
            old(self).wf(),
            old(self).can_allocate(),
        ensures
            final(self).wf(),
            final(self).table() == old(self).table(),
            final(self).spec_current() == old(self).spec_current(),
            final(self).sched() == old(self).sched(),
            r matches Ok(p) && Some(p.0 as int) == free_from(old(self).table(), old(self).spec_next_pid() as int)
                && final(self).spec_next_pid() == p.0 + 1,
    {
        proof { lemma_first_free(self.processes@, self.next_pid as int); }
        let ghost f = free_from(self.processes@, self.next_pid as int).unwrap();
        let ghost start = self.next_pid;
        loop
            invariant
                self.wf(),
                self.processes@ == old(self).processes@,
                self.current_process == old(self).current_process,
                self.scheduler == old(self).scheduler,
                start == old(self).next_pid,
                start <= self.next_pid <= f,
                f < MAX_PROCESSES,
                self.processes@[f] is None,
                forall|j: int| start <= j < f ==> self.processes@[j] is Some,
                free_from(self.processes@, start as int) == Some(f),
            decreases f - self.next_pid,
        {
            let pid = ProcessId(self.next_pid);
            self.next_pid = self.next_pid + 1;
            if self.processes[pid.0 as usize].is_none() {
                assert(pid.0 == f);
                return Ok(pid);
            }
        }
    }

    /// The process with PID `pid`, if any.
    pub fn get_process(&self, pid: ProcessId) -> (r: Option<&Process>)
        ensures
            match r {
                Some(p) => slot(self.table(), pid) == Some(*p),
                None => slot(self.table(), pid) is None,
            },
    {
        let i = pid.0 as usize;
        if i < self.processes.len() {
            self.processes[i].as_ref()
        } else {
            None
        }
    }

    /// Put `process` in the table under its PID and queue it.
    pub fn insert_process(&mut self, process: Process)
        requires
            old(self).wf(),
            (process.id.0 as int) < MAX_PROCESSES,
        ensures
            final(self).wf(),
            final(self).table() == old(self).table().update(process.id.0 as int, Some(process)),
            final(self).spec_next_pid() == old(self).spec_next_pid(),
            final(self).spec_current() == old(self).spec_current(),
            final(self).sched().queues() == old(self).sched().queues().update(2, old(self).sched().queues()[2].push(process.id)),
            final(self).sched().spec_current() == old(self).sched().spec_current(),
            final(self).sched().idle() == old(self).sched().idle(),
    {
        let pid = process.id;
        self.processes.set(pid.0 as usize, Some(process));
        self.scheduler.add_process(pid);
    }

    /// Take `pid` out of the table and, if it was there, out of the
    /// scheduler.
    pub fn take_process(&mut self, pid: ProcessId) -> (r: Option<Process>)
        requires
            old(self).wf(),
        ensures
            final(self).wf(),
            r == slot(old(self).table(), pid),
            final(self).spec_next_pid() == old(self).spec_next_pid(),
            final(self).spec_current() == old(self).spec_current(),
            r is None ==> final(self).table() == old(self).table() && final(self).sched() == old(self).sched(),
            r is Some ==> final(self).table() == old(self).table().update(pid.0 as int, None)
                && final(self).sched().queues() == Seq::new(5, |l: int| without(old(self).sched().queues()[l], pid))
                && final(self).sched().spec_current() == (if old(self).sched().spec_current() == Some(pid) { None } else { old(self).sched().spec_current() })
                && final(self).sched().idle() == old(self).sched().idle(),
    {
        let i = pid.0 as usize;
        if i >= self.processes.len() {
            return None;
        }
        let taken = take_slot(&mut self.processes, i);
        if taken.is_some() {
            self.scheduler.remove_process(pid);
        } else {
            assert(self.processes@ =~= old(self).processes@);
        }
        taken
    }

    /// Remove process `pid` (below `MAX_PROCESSES`), giving the frames of
    /// its address space back to `fa`; it is an error if there is none.
    pub fn kill_process(&mut self, pid: ProcessId, fa: &mut FrameAllocator) -> (r: Result<(), ProcessError>)
        requires
            old(self).wf(),
            old(fa).wf(),
            (pid.0 as int) < MAX_PROCESSES,
        ensures
            kill_outcome(*old(self), *final(self), *old(fa), *final(fa), pid, r),
    {
        match self.take_process(pid) {
            Some(process) => {
                process.address_space.release(fa);
                Ok(())
            },
            None => Err(ProcessError::ProcessNotFound),
        }
    }

    /// Let the scheduler pick the next process.
    pub fn schedule(&mut self) -> (r: Option<ProcessId>)
        requires
            old(self).wf(),
        ensures
            final(self).wf(),
            final(self).spec_next_pid() == old(self).spec_next_pid(),
            final(self).spec_current() == old(self).spec_current(),
            final(self).sched().spec_current() == r,
            final(self).sched().idle() == old(self).sched().idle(),
            ({
                let qs = requeued(old(self).sched().queues(), old(self).table(), old(self).sched().spec_current());
                let l = top_level(qs, 4);
                &&& l >= 0 ==> r == Some(qs[l][0])
                    && final(self).sched().queues() == qs.update(l, qs[l].drop_first())
                    && final(self).table() == (match slot(old(self).table(), qs[l][0]) {
                        Some(p) => old(self).table().update(qs[l][0].0 as int, Some(dispatched(p))),
                        None => old(self).table(),
                    })
                &&& l < 0 ==> r == old(self).sched().idle() && final(self).sched().queues() == qs && final(self).table() == old(self).table()
            }),
    {
        self.scheduler.schedule(&mut self.processes)
    }

    /// Round robin: the first runnable process after the current one,
    /// wrapping round the table and leaving the current process out;
    /// `None` when no other process is runnable.
    pub fn pick_next(&self) -> (r: Option<ProcessId>)
        requires
            self.wf(),
        ensures
            match next_runnable(self.table(), self.spec_current()) {
                Some(i) => r == Some(self.table()[i].unwrap().id),
                None => r is None,
            },
    {
        let n = self.processes.len();
        let cur: usize = match self.current_process {
            Some(p) => p.0 as usize,
            None => 0,
        };
        let ghost t = self.processes@;
        let mut off: usize = 1;
        while off <= n
            invariant
                n == t.len(),
                t == self.processes@,
                n == MAX_PROCESSES,
                cur == cur_index(self.current_process),
                cur <= 0xFFFF,
                1 <= off <= n + 1,
                forall|o: int| 1 <= o < off ==> !#[trigger] candidate(t, self.current_process, o),
            decreases n + 1 - off,
        {
            let idx = (cur + off) % n;
            let own = self.current_process.is_some() && idx == cur;
            if !own {
                if let Some(p) = &self.processes[idx] {
                    if p.state == ProcessState::Ready || p.state == ProcessState::Running {
                        proof {
                            assert(candidate(t, self.current_process, off as int));
                            let w = choose|o: int| 1 <= o <= t.len() && #[trigger] candidate(t, self.current_process, o)
                                && forall|o2: int| 1 <= o2 < o ==> !#[trigger] candidate(t, self.current_process, o2);
                            if w < off { } else if w > off { assert(!candidate(t, self.current_process, off as int)); }
                        }
                        return Some(p.id);
                    }
                }
            }
            off = off + 1;
        }
        None
    }

    /// The process holding the processor.
    pub fn current_process(&self) -> (r: Option<ProcessId>)
        ensures
            r == self.spec_current(),
    {
        self.current_process
    }

    /// Record which process holds the processor.
    pub fn set_current_process(&mut self, pid: Option<ProcessId>)
        ensures
            final(self).spec_current() == pid,
            final(self).wf() == old(self).wf(),
            final(self).table() == old(self).table(),
            final(self).spec_next_pid() == old(self).spec_next_pid(),
            final(self).sched() == old(self).sched(),
    {
        self.current_process = pid;
    }

    /// Save `frame` as the registers of `pid` and put it in state `state`.
    fn park(&mut self, pid: ProcessId, frame: InterruptFrame, state: ProcessState)
        requires
            old(self).wf(),
        ensures
            final(self).wf(),
            final(self).table() == parked(old(self).table(), pid, frame, state),
            final(self).spec_next_pid() == old(self).spec_next_pid(),
            final(self).spec_current() == old(self).spec_current(),
            final(self).sched() == old(self).sched(),
    {
        let i = pid.0 as usize;
        if i < self.processes.len() {
            match take_slot(&mut self.processes, i) {
                Some(mut p) => {
                    p.saved = frame;
                    p.state = state;
                    self.processes.set(i, Some(p));
                },
                None => {
                    assert(self.processes@ =~= old(self).processes@);
                },
            }
        }
    }

    /// Put `value` in the RAX of the saved registers of `pid` and put it in
    /// state `state`.
    fn deliver(&mut self, pid: ProcessId, value: u64, state: ProcessState)
        requires
            old(self).wf(),
        ensures
            final(self).wf(),
            final(self).table() == delivered(old(self).table(), pid, value, state),
            final(self).spec_next_pid() == old(self).spec_next_pid(),
            final(self).spec_current() == old(self).spec_current(),
            final(self).sched() == old(self).sched(),
    {
        let i = pid.0 as usize;
        if i < self.processes.len() {
            match take_slot(&mut self.processes, i) {
                Some(mut p) => {
                    p.saved.rax = value;
                    p.state = state;
                    self.processes.set(i, Some(p));
                },
                None => {
                    assert(self.processes@ =~= old(self).processes@);
                },
            }
        }
    }

    /// Make `pid`, which has a slot, the running process and give what
    /// resuming it needs: its saved registers and its page table.
    fn run(&mut self, pid: ProcessId) -> (r: (InterruptFrame, u64))
        requires
            old(self).wf(),
            slot(old(self).table(), pid) is Some,
        ensures
            final(self).wf(),
            final(self).table() == delivered(old(self).table(), pid, slot(old(self).table(), pid).unwrap().saved.rax, ProcessState::Running),
            r == resume_point(slot(old(self).table(), pid).unwrap()),
            final(self).spec_next_pid() == old(self).spec_next_pid(),
            final(self).spec_current() == Some(pid),
            final(self).sched() == old(self).sched(),
    {
        self.current_process = Some(pid);
        let i = pid.0 as usize;
        let mut p = take_slot(&mut self.processes, i).unwrap();
        p.state = ProcessState::Running;
        let r = (p.saved, p.address_space.cr3().0);
        self.processes.set(i, Some(p));
        r
    }

    /// Cooperative yield: the current process saves `frame` (with 0 as the
    /// value yield returns) and becomes ready; the next runnable process
    /// round the table is made current and running, and its resume point
    /// is returned. `None` when no process is runnable, in which case the
    /// caller resumes the current one.
    pub fn schedule_yield(&mut self, frame: &InterruptFrame) -> (r: Option<(InterruptFrame, u64)>)
        requires
            old(self).wf(),
        ensures
            final(self).wf(),
            final(self).spec_next_pid() == old(self).spec_next_pid(),
            final(self).sched() == old(self).sched(),
            yielded(old(self).table(), old(self).spec_current(), *frame, final(self).table(), final(self).spec_current(), r),
    {
        if let Some(cur) = self.current_process {
            let mut f = *frame;
            f.rax = 0;
            self.park(cur, f, ProcessState::Ready);
        }
        let next_pid = match self.pick_next() {
            Some(n) => n,
            None => return None,
        };
        match self.get_process(next_pid) {
            Some(_) => Some(self.run(next_pid)),
            None => {
                self.current_process = Some(next_pid);
                None
            },
        }
    }

    /// `call` on the rendezvous: the current process saves `frame`, waits
    /// for a reply and is recorded as the caller. A waiting receiver gets
    /// `msg` in RAX and runs; otherwise `msg` is kept pending and the next
    /// runnable process runs. Returns where to resume.
    pub fn ipc_call(&mut self, rdv: &mut Rendezvous, frame: &InterruptFrame, ep: u64, msg: u64) -> (r: (InterruptFrame, u64))
        requires
            old(self).wf(),
            call_can_proceed(old(self).table(), old(self).spec_current(), *old(rdv), *frame),
        ensures
            final(self).wf(),
            final(self).spec_next_pid() == old(self).spec_next_pid(),
            final(self).sched() == old(self).sched(),
            called(old(self).table(), old(self).spec_current(), *old(rdv), *frame, msg,
                final(self).table(), final(self).spec_current(), *final(rdv), r),
    {
        let cur = self.current_process.unwrap();
        self.park(cur, *frame, ProcessState::ReplyWait);
        rdv.caller = Some(cur);
        match rdv.receiver.take() {
            Some(server) => {
                self.deliver(server, msg, ProcessState::Running);
                self.current_process = Some(server);
                let s = self.get_process(server).unwrap();
                (s.saved, s.address_space.cr3().0)
            },
            None => {
                rdv.pending_msg = msg;
                rdv.has_pending = true;
                let next = self.pick_next().unwrap();
                self.run(next)
            },
        }
    }

    /// `receive` on the rendezvous: a pending message is taken and
    /// returned at once (`Ok`); otherwise the current process saves
    /// `frame`, waits to receive and is recorded as the receiver, and the
    /// next runnable process runs (`Err` with where to resume).
    pub fn ipc_receive(&mut self, rdv: &mut Rendezvous, frame: &InterruptFrame, ep: u64) -> (r: Result<u64, (InterruptFrame, u64)>)
        requires
            old(self).wf(),
            receive_can_proceed(old(self).table(), old(self).spec_current(), *old(rdv), *frame),
        ensures
            final(self).wf(),
            final(self).spec_next_pid() == old(self).spec_next_pid(),
            final(self).sched() == old(self).sched(),
            received(old(self).table(), old(self).spec_current(), *old(rdv), *frame,
                final(self).table(), final(self).spec_current(), *final(rdv), r),
    {
        let cur = self.current_process.unwrap();
        if rdv.has_pending {
            rdv.has_pending = false;
            return Ok(rdv.pending_msg);
        }
        self.park(cur, *frame, ProcessState::ReceiveWait);
        rdv.receiver = Some(cur);
        let next = self.pick_next().unwrap();
        Err(self.run(next))
    }

    /// `reply` on the rendezvous: the waiting caller, if any, gets `rval`
    /// in RAX and becomes ready; the replier goes on with 0.
    pub fn ipc_reply(&mut self, rdv: &mut Rendezvous, frame: &InterruptFrame, rval: u64) -> (r: u64)
        requires
            old(self).wf(),
        ensures
            final(self).wf(),
            r == 0,
            final(self).spec_next_pid() == old(self).spec_next_pid(),
            final(self).spec_current() == old(self).spec_current(),
            final(self).sched() == old(self).sched(),
            *final(rdv) == (Rendezvous { caller: None, ..*old(rdv) }),
            final(self).table() == replied(old(self).table(), old(rdv).caller, rval),
    {
        if let Some(caller) = rdv.caller.take() {
            self.deliver(caller, rval, ProcessState::Ready);
        }
        0
    }

    /// Reply and receive in one step: the reply of `ipc_reply`, then the
    /// receive of `ipc_receive`.
    pub fn ipc_reply_recv(&mut self, rdv: &mut Rendezvous, frame: &InterruptFrame, rval: u64, ep: u64)
        -> (r: Result<u64, (InterruptFrame, u64)>)
        requires
            old(self).wf(),
            receive_can_proceed(replied(old(self).table(), old(rdv).caller, rval), old(self).spec_current(),
                Rendezvous { caller: None, ..*old(rdv) }, *frame),
        ensures
            final(self).wf(),
            final(self).spec_next_pid() == old(self).spec_next_pid(),
            final(self).sched() == old(self).sched(),
            received(replied(old(self).table(), old(rdv).caller, rval), old(self).spec_current(),
                Rendezvous { caller: None, ..*old(rdv) }, *frame,
                final(self).table(), final(self).spec_current(), *final(rdv), r),
    {
        self.ipc_reply(rdv, frame, rval);
        self.ipc_receive(rdv, frame, ep)
    }

    /// Terminate the current process: it leaves the table (and is handed
    /// back so that its memory can be reclaimed once another address space
    /// is active), and the next runnable process is made current and
    /// running. Gives the dead process, its PID (the kernel's when nothing
    /// was current) and where to resume, if anywhere.
    pub fn exit_current(&mut self) -> (r: (Option<Process>, ProcessId, Option<(InterruptFrame, u64)>))
        requires
            old(self).wf(),
            exit_can_proceed(old(self).table(), old(self).spec_current()),
        ensures
            final(self).wf(),
            final(self).spec_next_pid() == old(self).spec_next_pid(),
            exited(old(self).table(), old(self).spec_current(), final(self).table(), final(self).spec_current(), r),
            match old(self).spec_current() {
                Some(c) => if slot(old(self).table(), c) is Some {
                    &&& final(self).sched().queues() == Seq::new(5, |l: int| without(old(self).sched().queues()[l], c))
                    &&& final(self).sched().spec_current() == (if old(self).sched().spec_current() == Some(c) { None } else { old(self).sched().spec_current() })
                    &&& final(self).sched().idle() == old(self).sched().idle()
                } else {
                    final(self).sched() == old(self).sched()
                },
                None => final(self).sched() == old(self).sched(),
            },
    {
        let cur = self.current_process;
        let dead = match cur {
            Some(c) => self.take_process(c),
            None => None,
        };
        let next = match self.pick_next() {
            Some(n) => Some(self.run(n)),
            None => None,
        };
        let dead_pid = match cur {
            Some(c) => c,
            None => ProcessId(0),
        };
        (dead, dead_pid, next)
    }

    /// A ring-3 fault in the current process: the process leaves the table
    /// (handed back for reclamation). Gives it, its PID and generation,
    /// and the generation to restart it with when it is still below
    /// `MAX_GENERATION`.
    pub fn fault_kill_current(&mut self) -> (r: (Option<Process>, Option<(ProcessId, u32)>, Option<u32>))
        requires
            old(self).wf(),
        ensures
            final(self).wf(),
            final(self).spec_next_pid() == old(self).spec_next_pid(),
            final(self).spec_current() == old(self).spec_current(),
            match old(self).spec_current() {
                Some(c) => {
                    let gen = match slot(old(self).table(), c) { Some(p) => p.generation, None => 0u32 };
                    &&& r.0 == slot(old(self).table(), c)
                    &&& r.1 == Some((c, gen))
                    &&& r.2 == (if gen < MAX_GENERATION { Some((gen + 1) as u32) } else { None })
                    &&& final(self).table() == (if slot(old(self).table(), c) is Some { old(self).table().update(c.0 as int, None) } else { old(self).table() })
                },
                None => r.0 is None && r.1 is None && r.2 is None && *final(self) == *old(self),
            },
    {
        match self.current_process {
            Some(cur) => {
                let gen = match self.get_process(cur) {
                    Some(p) => p.generation,
                    None => 0,
                };
                let dead = self.take_process(cur);
                let restart = if gen < MAX_GENERATION { Some(gen + 1) } else { None };
                (dead, Some((cur, gen)), restart)
            },
            None => (None, None, None),
        }
    }

    /// After a fault has removed the current process: resume the process
    /// it was restarted as (`spawned`, when the restart succeeded), which
    /// becomes current and running; otherwise the next runnable process
    /// round the table. Gives where to resume, or `None` when there is
    /// nothing to run and the processor halts.
    pub fn fault_resume(&mut self, spawned: Option<ProcessId>) -> (r: Option<(InterruptFrame, u64)>)
        requires
            old(self).wf(),
            spawned matches Some(n) ==> slot(old(self).table(), n) is Some,
        ensures
            final(self).wf(),
            final(self).spec_next_pid() == old(self).spec_next_pid(),
            final(self).sched() == old(self).sched(),
            fault_resumed(old(self).table(), old(self).spec_current(), spawned, final(self).table(), final(self).spec_current(), r),
    {
        match spawned {
            Some(n) => Some(self.run(n)),
            None => {
                let next_pid = match self.pick_next() {
                    Some(n) => n,
                    None => return None,
                };
                match self.get_process(next_pid) {
                    Some(_) => Some(self.run(next_pid)),
                    None => {
                        self.current_process = Some(next_pid);
                        None
                    },
                }
            },
        }
    }

    /// A ring-3 fault in the current process, handled whole: the process
    /// leaves the table; while its generation is below `MAX_GENERATION` and
    /// the init executable `initrd` is at hand, it is restarted from it
    /// with the next generation (a restart that fails is passed over); the
    /// restarted process is resumed, or else the next runnable one; last,
    /// the crashed process's frames go back to `fa`. Gives the PID of the
    /// restarted process, if any, and where to resume, if anywhere (`None`:
    /// the processor halts). With nothing current, nothing changes.
    pub fn handle_fault(&mut self, fa: &mut FrameAllocator, initrd: Option<&[u8]>)
        -> (r: (Option<ProcessId>, Option<(InterruptFrame, u64)>))
        requires
            old(self).wf(),
            old(fa).wf(),
            old(fa).view().len() <= MAX_TABLE_FRAMES,
        ensures
            final(self).wf(),
            final(fa).wf(),
            final(fa).view().len() == old(fa).view().len(),
            old(self).spec_current() is None ==> r.0 is None && r.1 is None && *final(self) == *old(self) && *final(fa) == *old(fa),
            old(self).spec_current() matches Some(c) ==> fault_handled(*old(self), *old(fa), c, initrd,
                *final(self), *final(fa), r.0, r.1),
    {
        let ghost m0 = *self;
        let ghost fa0 = *fa;
        let (dead, info, restart) = self.fault_kill_current();
        if info.is_none() {
            return (None, None);
        }
        let ghost m1 = *self;
        let spawned = match (restart, initrd) {
            (Some(g), Some(d)) => {
                if self.has_free_pid() {
                    match self.spawn(d, fa, g) {
                        Ok(n) => {
                            assert(slot(self.table(), n) is Some);
                            Some(n)
                        },
                        Err(_) => None,
                    }
                } else {
                    None
                }
            },
            _ => None,
        };
        let ghost m2 = *self;
        let ghost fa2 = *fa;
        let target = self.fault_resume(spawned);
        match dead {
            Some(p) => p.address_space.release(fa),
            None => {},
        }
        proof {
            let c = m0.spec_current().unwrap();
            let dead0 = slot(m0.table(), c);
            let gen = match dead0 { Some(p) => p.generation, None => 0u32 };
            let t1 = removed(m0.table(), c);
            assert(m1.table() == t1);
            assert(dead == dead0);
            if spawned is None {
                assert(m2.table() == m1.table());
                assert(fault_resumed(t1, Some(c), None, self.table(), self.spec_current(), target));
            } else {
                let n = spawned.unwrap();
                assert(slot(t1, n) is None);
                assert(forall|pid: ProcessId| pid != n ==> #[trigger] slot(self.table(), pid) == slot(t1, pid));
            }
            assert(dead0 matches Some(p) ==> forall|i: int| 0 <= i < fa0.view().len() && p.address_space.owns(i)
                ==> !#[trigger] fa.view()[i]);
        }
        (spawned, target)
    }

    /// Create a process for `elf_data` under the first free PID at or
    /// after the next one (which then advances even when the executable is
    /// refused), with its address space built from frames of `fa`, and
    /// queue it.
    pub fn create_process(&mut self, elf_data: &[u8], parent: Option<ProcessId>, fa: &mut FrameAllocator)
        -> (r: Result<ProcessId, ProcessError>)
        requires
            old(self).wf(),
            old(self).can_allocate(),
            old(fa).wf(),
            old(fa).view().len() <= MAX_TABLE_FRAMES,
        ensures
            creation(*old(self), *final(self), *old(fa), *final(fa), elf_data@, parent, r),
    {
        let pid = self.allocate_pid()?;
        let process = Process::create(pid, elf_data, parent, fa)?;
        self.insert_process(process);
        Ok(pid)
    }

    /// Restart an executable as a new process of reincarnation generation
    /// `generation`, which it also finds in RDI when it starts.
    pub fn spawn(&mut self, elf_data: &[u8], fa: &mut FrameAllocator, generation: u32) -> (r: Result<ProcessId, ProcessError>)
        requires
            old(self).wf(),
            old(self).can_allocate(),
            old(fa).wf(),
            old(fa).view().len() <= MAX_TABLE_FRAMES,
        ensures
            final(self).wf(),
            final(fa).wf(),
            final(fa).view().len() == old(fa).view().len(),
            final(self).spec_current() == old(self).spec_current(),
            ({
                let pid = free_from(old(self).table(), old(self).spec_next_pid() as int).unwrap();
                &&& !loadable(elf_data@) ==> r == Err::<ProcessId, ProcessError>(ProcessError::InvalidElf)
                &&& loadable(elf_data@) ==> (r is Err ==> r == Err::<ProcessId, ProcessError>(ProcessError::OutOfMemory)
                    && count_free(old(fa).view()) < 3 + 4 * image_pages(elf_data@))
                &&& r is Err ==> final(self).table() == old(self).table() && final(self).sched() == old(self).sched()
                &&& r is Ok ==> (r == Ok::<ProcessId, ProcessError>(ProcessId(pid as u16))
                    && 0 <= pid < MAX_PROCESSES
                    && old(self).table()[pid] is None
                    && final(self).table() == old(self).table().update(pid, final(self).table()[pid])
                    && (final(self).table()[pid] matches Some(p) && p.generation == generation && p.saved.rdi == generation as u64
                        && holds_image(p.address_space, *final(fa), elf_data@)))
            }),
    {
        proof { lemma_first_free(old(self).table(), old(self).spec_next_pid() as int); }
        let pid = self.create_process(elf_data, None, fa)?;
        let i = pid.0 as usize;
        let mut p = take_slot(&mut self.processes, i).unwrap();
        p.generation = generation;
        p.saved.rdi = generation as u64;
        self.processes.set(i, Some(p));
        Ok(pid)
    }
}

/// What `create_process` of the executable `d` with `parent` does, from
/// manager `m0` and allocator `fa0` to `m1` and `fa1`, returning `r`: the
/// first free PID at or after the next one is taken (the next one moves
/// past it even on failure); an executable the loader refuses is
/// `InvalidElf` with no frame taken, running out of frames `OutOfMemory`
/// (fewer than three free frames and four per page of the image),
/// and on failure the table and scheduler stay; on success the new process
/// is made as `Process::create` makes it, with its image loaded, stored
/// under its PID and queued at normal priority, its top-level page table
/// in a frame that was free.
pub open spec fn creation(m0: ProcessManager, m1: ProcessManager, fa0: FrameAllocator, fa1: FrameAllocator,
    d: Seq<u8>, parent: Option<ProcessId>, r: Result<ProcessId, ProcessError>) -> bool
{
    let pid = free_from(m0.table(), m0.spec_next_pid() as int).unwrap();
    &&& free_from(m0.table(), m0.spec_next_pid() as int) is Some
    &&& m1.wf()
    &&& fa1.wf()
    &&& fa1.view().len() == fa0.view().len()
    &&& m1.spec_current() == m0.spec_current()
    &&& m1.spec_next_pid() == pid + 1
    &&& r is Err ==> m1.table() == m0.table() && m1.sched() == m0.sched()
    &&& !loadable(d) ==> r == Err::<ProcessId, ProcessError>(ProcessError::InvalidElf) && fa1 == fa0
    &&& loadable(d) ==> (r is Err ==> r == Err::<ProcessId, ProcessError>(ProcessError::OutOfMemory)
        && count_free(fa0.view()) < 3 + 4 * image_pages(d))
    &&& r is Ok ==> (r == Ok::<ProcessId, ProcessError>(ProcessId(pid as u16))
        && (m1.table()[pid] matches Some(p)
        && created(ProcessId(pid as u16), le64(d, 0x18) as u64, parent, p)
        && holds_image(p.address_space, fa1, d)
        && p.address_space.root() / 4096 < fa0.view().len()
        && !fa0.view()[(p.address_space.root() / 4096) as int]
        && m1.table() == m0.table().update(pid, Some(p))
        && m1.sched().queues() == m0.sched().queues().update(2, m0.sched().queues()[2].push(ProcessId(pid as u16)))))
}

/// Load the init process from the initrd `boot_info` describes, whose
/// bytes are `initrd`: the whole initrd is the init executable, created
/// with no parent. Without an initrd it is `InvalidElf` and nothing
/// changes.
pub fn load_init(pm: &mut ProcessManager, boot_info: &BootInfo, initrd: &[u8], fa: &mut FrameAllocator)
    -> (r: Result<ProcessId, ProcessError>)
    requires
        old(pm).wf(),
        old(pm).can_allocate(),
        old(fa).wf(),
        old(fa).view().len() <= MAX_TABLE_FRAMES,
    ensures
        boot_info.initrd_start is None || boot_info.initrd_end is None ==>
            r == Err::<ProcessId, ProcessError>(ProcessError::InvalidElf) && *final(pm) == *old(pm) && *final(fa) == *old(fa),
        boot_info.initrd_start is Some && boot_info.initrd_end is Some ==>
            creation(*old(pm), *final(pm), *old(fa), *final(fa), initrd@, None, r),
{
    match (boot_info.initrd_start, boot_info.initrd_end) {
        (Some(_), Some(_)) => pm.create_process(initrd, None, fa),
        _ => Err(ProcessError::InvalidElf),
    }
}

/// Each process gets an address space of its own: of two processes created
/// one after the other from the same frame allocator, each is in its slot
/// afterwards and their top-level page tables differ.
pub proof fn law_own_address_space(
    m0: ProcessManager, m1: ProcessManager, m2: ProcessManager,
    fa0: FrameAllocator, fa1: FrameAllocator, fa2: FrameAllocator,
    d1: Seq<u8>, d2: Seq<u8>, parent1: Option<ProcessId>, parent2: Option<ProcessId>, a: ProcessId, b: ProcessId,
)
    requires
        creation(m0, m1, fa0, fa1, d1, parent1, Ok(a)),
        creation(m1, m2, fa1, fa2, d2, parent2, Ok(b)),
    ensures
        m2.table()[a.0 as int] matches Some(p) && m2.table()[b.0 as int] matches Some(q)
            && p.address_space.root() != q.address_space.root(),
{
    let i = free_from(m0.table(), m0.spec_next_pid() as int).unwrap();
    let k = free_from(m1.table(), m1.spec_next_pid() as int).unwrap();
    let p = m1.table()[i].unwrap();
    let q = m2.table()[k].unwrap();
    lemma_first_free(m1.table(), m1.spec_next_pid() as int);
    assert(i != k);
    assert(m2.table()[i] == m1.table()[i]);
    let ts = p.address_space.tables();
    let root = p.address_space.root();
    let w = choose|w: int| 0 <= w < ts.len() && #[trigger] ts[w].addr == root;
    assert(fa1.view()[(ts[w].addr / 4096) as int]);
}

/// A message sent by a call while no receiver waits is what the next
/// receive on the channel returns, whatever ran in between.
pub proof fn law_call_then_receive(
    t: Seq<Option<Process>>, cur: Option<ProcessId>, rdv: Rendezvous, frame: InterruptFrame, msg: u64,
    t2: Seq<Option<Process>>, cur2: Option<ProcessId>, rdv2: Rendezvous, r2: (InterruptFrame, u64),
    t3: Seq<Option<Process>>, cur3: Option<ProcessId>, frame3: InterruptFrame,
    t4: Seq<Option<Process>>, cur4: Option<ProcessId>, rdv4: Rendezvous, r4: Result<u64, (InterruptFrame, u64)>,
)
    requires
        rdv.receiver is None,
        called(t, cur, rdv, frame, msg, t2, cur2, rdv2, r2),
        received(t3, cur3, rdv2, frame3, t4, cur4, rdv4, r4),
    ensures
        r4 == Ok::<u64, (InterruptFrame, u64)>(msg),
        !rdv4.has_pending,
{
}

/// A call to a waiting receiver runs the receiver at once, with the
/// message in RAX.
pub proof fn law_call_reaches_receiver(
    t: Seq<Option<Process>>, cur: Option<ProcessId>, rdv: Rendezvous, frame: InterruptFrame, msg: u64,
    t2: Seq<Option<Process>>, cur2: Option<ProcessId>, rdv2: Rendezvous, r2: (InterruptFrame, u64),
)
    requires
        rdv.receiver is Some,
        call_can_proceed(t, cur, rdv, frame),
        called(t, cur, rdv, frame, msg, t2, cur2, rdv2, r2),
    ensures
        cur2 == rdv.receiver,
        r2.0.rax == msg,
        slot(t2, rdv.receiver.unwrap()) is Some,
        slot(t2, rdv.receiver.unwrap()).unwrap().state == ProcessState::Running,
        rdv2.caller == cur,
{
}

/// The value a reply passes back is what the caller finds in RAX when it
/// resumes, and the caller is ready again, provided it still exists.
pub proof fn law_call_then_reply(
    t: Seq<Option<Process>>, cur: Option<ProcessId>, rdv: Rendezvous, frame: InterruptFrame, msg: u64,
    t2: Seq<Option<Process>>, cur2: Option<ProcessId>, rdv2: Rendezvous, r2: (InterruptFrame, u64),
    t3: Seq<Option<Process>>, rval: u64,
)
    requires
        called(t, cur, rdv, frame, msg, t2, cur2, rdv2, r2),
        cur is Some,
        slot(t3, cur.unwrap()) is Some,
    ensures
        slot(replied(t3, rdv2.caller, rval), cur.unwrap()) is Some,
        slot(replied(t3, rdv2.caller, rval), cur.unwrap()).unwrap().saved.rax == rval,
        slot(replied(t3, rdv2.caller, rval), cur.unwrap()).unwrap().state == ProcessState::Ready,
        resume_point(slot(replied(t3, rdv2.caller, rval), cur.unwrap()).unwrap()).0.rax == rval,
{
}

/// A process killed for a fault leaves every other process's slot as it
/// was; the faulting one is restarted with the next generation while its
/// generation is below the limit.
pub proof fn law_fault_isolation(
    t: Seq<Option<Process>>, c: ProcessId, gen: u32, t2: Seq<Option<Process>>, restart: Option<u32>, pid: ProcessId,
)
    requires
        t.len() == MAX_PROCESSES,
        t2 == (if slot(t, c) is Some { t.update(c.0 as int, None) } else { t }),
        restart == (if gen < MAX_GENERATION { Some((gen + 1) as u32) } else { None }),
        pid != c,
    ensures
        slot(t2, pid) == slot(t, pid),
        slot(t2, c) is None,
        restart is Some <==> gen < MAX_GENERATION,
{
}

/// Reincarnation: when the crashed process is restarted as `n` with the
/// next generation `g` (which the restarted process also holds in RDI), it
/// is the process resumed: current and running, with that generation; the
/// crashed process stays gone.
pub proof fn law_reincarnation(
    t: Seq<Option<Process>>, cur: Option<ProcessId>, c: ProcessId, n: ProcessId, g: u32,
    t2: Seq<Option<Process>>, cur2: Option<ProcessId>, r: Option<(InterruptFrame, u64)>,
)
    requires
        slot(t, c) is None,
        slot(t, n) matches Some(p) && p.generation == g && p.saved.rdi == g as u64,
        fault_resumed(t, cur, Some(n), t2, cur2, r),
    ensures
        cur2 == Some(n),
        r is Some,
        slot(t2, n) matches Some(q) && q.state == ProcessState::Running && q.generation == g && q.saved.rdi == g as u64,
        slot(t2, c) is None,
{
}

/// A PID taken out of a queue no longer occurs in it.
pub proof fn lemma_without_absent(s: Seq<ProcessId>, pid: ProcessId)
    ensures
        !without(s, pid).contains(pid),
    decreases s.len(),
{
    if s.len() > 0 {
        lemma_without_absent(s.drop_last(), pid);
        let r = without(s.drop_last(), pid);
        if s.last() != pid {
            assert forall|k: int| 0 <= k < r.push(s.last()).len() implies r.push(s.last())[k] != pid by {
                if k < r.len() {
                    assert(r[k] != pid);
                }
            }
        }
    }
}

/// Killing a process just created removes it: it was there, the kill
/// succeeds, afterwards its slot is empty and its PID is in no ready queue,
/// and killing it again is refused as not found, changing nothing.
pub proof fn law_create_then_kill(
    m0: ProcessManager, fa0: FrameAllocator, d: Seq<u8>, parent: Option<ProcessId>, pid: ProcessId,
    m1: ProcessManager, fa1: FrameAllocator, r1: Result<(), ProcessError>,
    m2: ProcessManager, fa2: FrameAllocator, r2: Result<(), ProcessError>,
    m3: ProcessManager, fa3: FrameAllocator,
)
    requires
        creation(m0, m1, fa0, fa1, d, parent, Ok(pid)),
        kill_outcome(m1, m2, fa1, fa2, pid, r1),
        kill_outcome(m2, m3, fa2, fa3, pid, r2),
    ensures
        slot(m1.table(), pid) is Some,
        r1 is Ok,
        slot(m2.table(), pid) is None,
        forall|l: int| 0 <= l < 5 ==> !(#[trigger] m2.sched().queues()[l]).contains(pid),
        r2 == Err::<(), ProcessError>(ProcessError::ProcessNotFound),
        m3.table() == m2.table(),
        m3.sched() == m2.sched(),
        fa3 == fa2,
{
    lemma_first_free(m0.table(), m0.spec_next_pid() as int);
    let i = free_from(m0.table(), m0.spec_next_pid() as int).unwrap();
    assert(0 <= i < m0.table().len());
    assert(pid.0 as int == i);
    assert forall|l: int| 0 <= l < 5 implies !(#[trigger] m2.sched().queues()[l]).contains(pid) by {
        lemma_without_absent(m1.sched().queues()[l], pid);
    }
}

} // verus!
