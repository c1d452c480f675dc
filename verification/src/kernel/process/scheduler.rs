//! Priority scheduler: five FIFO ready queues, a current process and an
//! optional idle process. Operations that read or change a process take
//! the process table as an argument.
use vstd::prelude::*;
use std::collections::VecDeque;
use crate::types::process::ProcessId;
use crate::kernel::process::process::{Process, ProcessState, Priority, ProcessStats, priority_level, slot, take_slot,
    ascending_priorities, law_priority_levels_rise};

verus! {

/// Number of priority levels.
pub const NUM_PRIORITIES: usize = 5;
/// Quantum a new process starts with (ms).
pub const INITIAL_QUANTUM: u32 = 10;
/// Smallest quantum.
pub const MIN_QUANTUM: u32 = 1;
/// Largest quantum.
pub const MAX_QUANTUM: u32 = 100;
/// Ticks between two starvation-preventing priority boosts.
pub const BOOST_INTERVAL: u64 = 1000;

/// The quantum given to a process of priority `p` when its quantum runs out.
pub open spec fn quantum_of(p: Priority) -> u32 {
    match p {
        Priority::Idle => 5,
        Priority::Low => 10,
        Priority::Normal => 20,
        Priority::High => 30,
        Priority::Critical => 50,
    }
}

/// The quantum for `priority`.
pub fn calculate_quantum(priority: Priority) -> (r: u32)
    ensures
        r == quantum_of(priority),
{
    match priority {
        Priority::Idle => 5,
        Priority::Low => 10,
        Priority::Normal => 20,
        Priority::High => 30,
        Priority::Critical => 50,
    }
}

/// One ready queue.
struct RunQueue {
    processes: VecDeque<ProcessId>,
    quantum_boost: u32,
}

impl RunQueue {
    fn new() -> (r: Self)
        ensures
            r.processes@ == Seq::<ProcessId>::empty(),
            r.quantum_boost == 0,
    {
        RunQueue { processes: VecDeque::new(), quantum_boost: 0 }
    }

    fn enqueue(&mut self, pid: ProcessId)
        ensures
            final(self).processes@ == old(self).processes@.push(pid),
            final(self).quantum_boost == old(self).quantum_boost,
    {
        self.processes.push_back(pid);
    }

    fn dequeue(&mut self) -> (r: Option<ProcessId>)
        ensures
            final(self).quantum_boost == old(self).quantum_boost,
            old(self).processes@.len() == 0 ==> r is None && final(self).processes@ == old(self).processes@,
            old(self).processes@.len() > 0 ==> r == Some(old(self).processes@[0])
                && final(self).processes@ == old(self).processes@.drop_first(),
    {
        let r = self.processes.pop_front();
        proof {
            if old(self).processes@.len() > 0 {
                assert(self.processes@ =~= old(self).processes@.drop_first());
            }
        }
        r
    }

    fn is_empty(&self) -> (r: bool)
        ensures
            r == (self.processes@.len() == 0),
    {
        self.processes.len() == 0
    }

    fn len(&self) -> (r: usize)
        ensures
            r == self.processes@.len(),
    {
        self.processes.len()
    }
}

/// `s` with every occurrence of `pid` taken out, order kept.
pub open spec fn without(s: Seq<ProcessId>, pid: ProcessId) -> Seq<ProcessId>
    decreases s.len(),
{
    if s.len() == 0 {
        s
    } else {
        let r = without(s.drop_last(), pid);
        if s.last() == pid { r } else { r.push(s.last()) }
    }
}

/// The highest level at or below `from` whose queue is not empty, or -1.
pub open spec fn top_level(qs: Seq<Seq<ProcessId>>, from: int) -> int
    decreases from + 1,
{
    if from < 0 { -1 } else if qs[from].len() > 0 { from } else { top_level(qs, from - 1) }
}

/// Whether every process waiting in the queues `qs` has a slot in `t` and
/// waits in the queue of its priority's level.
pub open spec fn queued_by_priority(qs: Seq<Seq<ProcessId>>, t: Seq<Option<Process>>) -> bool {
    &&& qs.len() == 5
    &&& forall|l: int, j: int| 0 <= l < 5 && 0 <= j < qs[l].len()
        ==> (slot(t, #[trigger] qs[l][j]) matches Some(p) && priority_level(p.priority) == l)
}

/// The level `top_level` finds holds a process, and every queue above it
/// up to `from` is empty.
pub proof fn lemma_top_level(qs: Seq<Seq<ProcessId>>, from: int)
    requires
        -1 <= from < qs.len(),
    ensures
        top_level(qs, from) <= from,
        top_level(qs, from) >= 0 ==> qs[top_level(qs, from)].len() > 0,
        forall|l: int| top_level(qs, from) < l <= from ==> (#[trigger] qs[l]).len() == 0,
    decreases from + 1,
{
    if from >= 0 && qs[from].len() == 0 {
        lemma_top_level(qs, from - 1);
    }
}

/// The scheduler runs the most urgent waiting process: when the queues
/// hold each process under its priority and something is waiting, the
/// process dispatched (the front of the highest non-empty queue) has a
/// priority no lower than that of any waiting process, in the order Idle,
/// Low, Normal, High, Critical.
pub proof fn law_schedule_runs_highest_priority(qs: Seq<Seq<ProcessId>>, t: Seq<Option<Process>>, r: ProcessId,
    q: ProcessId, i: int, k: int)
    requires
        queued_by_priority(qs, t),
        top_level(qs, 4) >= 0,
        r == qs[top_level(qs, 4)][0],
        exists|l: int, j: int| 0 <= l < 5 && 0 <= j < qs[l].len() && qs[l][j] == q,
        0 <= i < 5,
        0 <= k < 5,
        slot(t, r) matches Some(p) && ascending_priorities()[i] == p.priority,
        slot(t, q) matches Some(p) && ascending_priorities()[k] == p.priority,
    ensures
        k <= i,
{
    lemma_top_level(qs, 4);
    let top = top_level(qs, 4);
    let (l, j) = choose|l: int, j: int| 0 <= l < 5 && 0 <= j < qs[l].len() && qs[l][j] == q;
    assert(qs[l].len() > 0);
    assert(l <= top);
    assert(slot(t, qs[top][0]) is Some);
    assert(slot(t, qs[l][j]) is Some);
    let pr = slot(t, r).unwrap().priority;
    let pq = slot(t, q).unwrap().priority;
    law_priority_levels_rise(pq, pr, k, i);
}

/// The process of `p` after being dispatched: running, one more switch.
pub open spec fn dispatched(p: Process) -> Process {
    Process { state: ProcessState::Running,
        stats: ProcessStats { context_switches: p.stats.context_switches.wrapping_add(1), ..p.stats }, ..p }
}

/// The queues after the current process `cur`, if it is still running,
/// rejoined the end of its priority's queue.
pub open spec fn requeued(qs: Seq<Seq<ProcessId>>, t: Seq<Option<Process>>, cur: Option<ProcessId>) -> Seq<Seq<ProcessId>> {
    match cur {
        Some(c) => match slot(t, c) {
            Some(p) => if p.state == ProcessState::Running {
                qs.update(priority_level(p.priority) as int, qs[priority_level(p.priority) as int].push(c))
            } else {
                qs
            },
            None => qs,
        },
        None => qs,
    }
}

/// The priority of level `l`.
pub open spec fn level_priority(l: int) -> Priority {
    if l <= 0 { Priority::Idle } else if l == 1 { Priority::Low } else if l == 2 { Priority::Normal }
    else if l == 3 { Priority::High } else { Priority::Critical }
}

/// The queues of levels `l` down to 0, concatenated from the top.
pub open spec fn stacked(qs: Seq<Seq<ProcessId>>, l: int) -> Seq<ProcessId>
    decreases l,
{
    if l <= 0 { qs[0] } else { qs[l] + stacked(qs, l - 1) }
}

/// Whether some entry of `s` names table slot `i`.
pub open spec fn names(s: Seq<ProcessId>, i: int) -> bool {
    exists|j: int| 0 <= j < s.len() && (#[trigger] s[j]).0 == i
}

/// The queues after a starvation boost: all in the critical queue.
pub open spec fn boost_queues(qs: Seq<Seq<ProcessId>>) -> Seq<Seq<ProcessId>> {
    seq![Seq::empty(), Seq::empty(), Seq::empty(), Seq::empty(), stacked(qs, 4)]
}

/// The table after a starvation boost: each process queued below the
/// critical level becomes critical.
pub open spec fn boost_table(t: Seq<Option<Process>>, qs: Seq<Seq<ProcessId>>) -> Seq<Option<Process>> {
    staged(t, qs, 4)
}

/// The table once the boost has passed levels below `l`: each process
/// queued below `l` has the priority of level `l`.
pub open spec fn staged(t: Seq<Option<Process>>, qs: Seq<Seq<ProcessId>>, l: int) -> Seq<Option<Process>> {
    Seq::new(t.len(), |i: int| match t[i] {
        Some(p) => if l > 0 && names(stacked(qs, l - 1), i) { Some(Process { priority: level_priority(l), ..p }) } else { t[i] },
        None => None,
    })
}

/// A process queued below level `l` is queued at or below `l`.
pub proof fn lemma_names_stacked(qs: Seq<Seq<ProcessId>>, l: int, i: int)
    requires
        l > 0,
        names(stacked(qs, l - 1), i),
    ensures
        names(stacked(qs, l), i),
{
    let s = stacked(qs, l - 1);
    let j = choose|j: int| 0 <= j < s.len() && (#[trigger] s[j]).0 == i;
    assert(stacked(qs, l) == qs[l] + s);
    assert(stacked(qs, l)[qs[l].len() + j] == s[j]);
}

/// `p` charged one tick: one more tick of CPU time and one less of
/// quantum; a process whose quantum runs out gets the quantum of its
/// priority and becomes ready.
pub open spec fn charged(p: Process) -> Process {
    let stats = ProcessStats { cpu_time: p.stats.cpu_time.wrapping_add(1), ..p.stats };
    if p.quantum <= 1 {
        Process { stats, quantum: quantum_of(p.priority), state: ProcessState::Ready, ..p }
    } else {
        Process { stats, quantum: (p.quantum - 1) as u32, ..p }
    }
}

/// The table with the current process, if it has a slot, charged one tick.
pub open spec fn charge_current(t: Seq<Option<Process>>, cur: Option<ProcessId>) -> Seq<Option<Process>> {
    match cur {
        Some(c) => match slot(t, c) {
            Some(p) => t.update(c.0 as int, Some(charged(p))),
            None => t,
        },
        None => t,
    }
}

/// Whether a process in state `s` waits to be unblocked.
pub open spec fn is_waiting(s: ProcessState) -> bool {
    s == ProcessState::Blocked || s == ProcessState::SendWait || s == ProcessState::ReceiveWait
        || s == ProcessState::ReplyWait
}

/// Scheduler statistics.
pub struct SchedulerStats {
    pub tick_count: u64,
    pub total_runtime: u64,
    pub current_process: Option<ProcessId>,
    pub queue_lengths: Vec<usize>,
}

/// The scheduler.
pub struct Scheduler {
    ready_queues: Vec<RunQueue>,
    current: Option<ProcessId>,
    idle_process: Option<ProcessId>,
    tick_count: u64,
    total_runtime: u64,
}

impl Scheduler {
    /// There is one queue per priority level.
    pub closed spec fn wf(&self) -> bool {
        self.ready_queues@.len() == NUM_PRIORITIES
    }

    /// The ready queues, indexed by priority level, each front first.
    pub closed spec fn queues(&self) -> Seq<Seq<ProcessId>> {
        Seq::new(NUM_PRIORITIES as nat, |l: int| self.ready_queues@[l].processes@)
    }

    /// The process picked last, if it still holds the processor.
    pub closed spec fn spec_current(&self) -> Option<ProcessId> {
        self.current
    }

    /// The process run when no other is ready.
    pub closed spec fn idle(&self) -> Option<ProcessId> {
        self.idle_process
    }

    /// Ticks seen.
    pub closed spec fn ticks(&self) -> u64 {
        self.tick_count
    }

    /// Ticks of run time seen.
    pub closed spec fn runtime(&self) -> u64 {
        self.total_runtime
    }

    /// Empty queues, nothing current, no idle process, no ticks.
    pub fn new() -> (r: Self)
        ensures
            r.wf(),
            r.queues() == Seq::new(NUM_PRIORITIES as nat, |l: int| Seq::<ProcessId>::empty()),
            r.spec_current() is None,
            r.idle() is None,
            r.ticks() == 0,
            r.runtime() == 0,
    {
        let mut qs: Vec<RunQueue> = Vec::new();
        qs.push(RunQueue::new());
        qs.push(RunQueue::new());
        qs.push(RunQueue::new());
        qs.push(RunQueue::new());
        qs.push(RunQueue::new());
        let r = Scheduler { ready_queues: qs, current: None, idle_process: None, tick_count: 0, total_runtime: 0 };
        assert(r.queues() =~= Seq::new(NUM_PRIORITIES as nat, |l: int| Seq::<ProcessId>::empty()));
        r
    }

    /// Append `pid` to the queue of `level`.
    fn push_at(&mut self, level: usize, pid: ProcessId)
        requires
            old(self).wf(),
            level < NUM_PRIORITIES,
        ensures
            final(self).wf(),
            final(self).queues() == old(self).queues().update(level as int, old(self).queues()[level as int].push(pid)),
            final(self).current == old(self).current,
            final(self).idle_process == old(self).idle_process,
            final(self).tick_count == old(self).tick_count,
            final(self).total_runtime == old(self).total_runtime,
    {
        let mut q = RunQueue::new();
        self.ready_queues.set_and_swap(level, &mut q);
        q.enqueue(pid);
        self.ready_queues.set(level, q);
        assert(self.queues() =~= old(self).queues().update(level as int, old(self).queues()[level as int].push(pid)));
    }

    /// Take the front of the queue of `level`.
    fn pop_at(&mut self, level: usize) -> (r: Option<ProcessId>)
        requires
            old(self).wf(),
            level < NUM_PRIORITIES,
        ensures
            final(self).wf(),
            old(self).queues()[level as int].len() == 0 ==> r is None && final(self).queues() == old(self).queues(),
            old(self).queues()[level as int].len() > 0 ==> r == Some(old(self).queues()[level as int][0])
                && final(self).queues() == old(self).queues().update(level as int, old(self).queues()[level as int].drop_first()),
            final(self).current == old(self).current,
            final(self).idle_process == old(self).idle_process,
            final(self).tick_count == old(self).tick_count,
            final(self).total_runtime == old(self).total_runtime,
    {
        let mut q = RunQueue::new();
        self.ready_queues.set_and_swap(level, &mut q);
        let r = q.dequeue();
        self.ready_queues.set(level, q);
        proof {
            if old(self).queues()[level as int].len() == 0 {
                assert(self.queues() =~= old(self).queues());
            } else {
                assert(self.queues() =~= old(self).queues().update(level as int, old(self).queues()[level as int].drop_first()));
            }
        }
        r
    }

    /// Take every occurrence of `pid` out of the queue of `level`.
    fn remove_at(&mut self, level: usize, pid: ProcessId)
        requires
            old(self).wf(),
            level < NUM_PRIORITIES,
        ensures
            final(self).wf(),
            final(self).queues() == old(self).queues().update(level as int, without(old(self).queues()[level as int], pid)),
            final(self).current == old(self).current,
            final(self).idle_process == old(self).idle_process,
            final(self).tick_count == old(self).tick_count,
            final(self).total_runtime == old(self).total_runtime,
    {
        let mut q = RunQueue::new();
        self.ready_queues.set_and_swap(level, &mut q);
        let ghost s = q.processes@;
        let n = q.processes.len();
        let mut kept: VecDeque<ProcessId> = VecDeque::new();
        let mut k: usize = 0;
        while q.processes.len() > 0
            invariant
                s.len() == n,
                k <= s.len(),
                q.processes@ == s.skip(k as int),
                kept@ == without(s.take(k as int), pid),
            decreases q.processes@.len(),
        {
            let p = q.processes.pop_front().unwrap();
            proof {
                assert(s.take(k + 1).drop_last() =~= s.take(k as int));
                assert(s.take(k + 1).last() == s[k as int]);
            }
            if p.0 != pid.0 {
                kept.push_back(p);
            } else {
                assert(p == pid);
            }
            k = k + 1;
            assert(q.processes@ =~= s.skip(k as int));
        }
        assert(s.take(k as int) =~= s);
        q.processes = kept;
        self.ready_queues.set(level, q);
        assert(self.queues() =~= old(self).queues().update(level as int, without(old(self).queues()[level as int], pid)));
    }

    /// Queue a new process at normal priority.
    pub fn add_process(&mut self, pid: ProcessId)
        requires
            old(self).wf(),
        ensures
            final(self).wf(),
            final(self).queues() == old(self).queues().update(2, old(self).queues()[2].push(pid)),
            final(self).spec_current() == old(self).spec_current(),
            final(self).idle() == old(self).idle(),
            final(self).ticks() == old(self).ticks(),
            final(self).runtime() == old(self).runtime(),
    {
        self.push_at(Priority::Normal.as_usize(), pid);
    }

    /// Take `pid` out of every queue, and off the processor if current.
    pub fn remove_process(&mut self, pid: ProcessId)
        requires
            old(self).wf(),
        ensures
            final(self).wf(),
            final(self).queues() == Seq::new(NUM_PRIORITIES as nat, |l: int| without(old(self).queues()[l], pid)),
            final(self).spec_current() == (if old(self).spec_current() == Some(pid) { None } else { old(self).spec_current() }),
            final(self).idle() == old(self).idle(),
            final(self).ticks() == old(self).ticks(),
            final(self).runtime() == old(self).runtime(),
    {
        let ghost q0 = self.queues();
        let mut level: usize = 0;
        while level < NUM_PRIORITIES
            invariant
                self.wf(),
                level <= NUM_PRIORITIES,
                self.current == old(self).current,
                self.idle_process == old(self).idle_process,
                self.tick_count == old(self).tick_count,
                self.total_runtime == old(self).total_runtime,
                q0 == old(self).queues(),
                forall|l: int| 0 <= l < NUM_PRIORITIES ==> #[trigger] self.queues()[l]
                    == if l < level { without(q0[l], pid) } else { q0[l] },
            decreases NUM_PRIORITIES - level,
        {
            self.remove_at(level, pid);
            level = level + 1;
        }
        assert(self.queues() =~= Seq::new(NUM_PRIORITIES as nat, |l: int| without(q0[l], pid)));
        if let Some(c) = self.current {
            if c.0 == pid.0 {
                self.current = None;
            }
        }
        assert(self.queues() =~= Seq::new(NUM_PRIORITIES as nat, |l: int| without(q0[l], pid)));
    }

    /// The process holding the processor, if any.
    pub fn current(&self) -> (r: Option<ProcessId>)
        ensures
            r == self.spec_current(),
    {
        self.current
    }

    /// Set the idle process.
    pub fn set_idle_process(&mut self, pid: ProcessId)
        ensures
            final(self).idle() == Some(pid),
            final(self).wf() == old(self).wf(),
            final(self).queues() == old(self).queues(),
            final(self).spec_current() == old(self).spec_current(),
            final(self).ticks() == old(self).ticks(),
            final(self).runtime() == old(self).runtime(),
    {
        self.idle_process = Some(pid);
    }

    /// Counters, the current process and the length of each queue.
    pub fn statistics(&self) -> (r: SchedulerStats)
        requires
            self.wf(),
        ensures
            r.tick_count == self.ticks(),
            r.total_runtime == self.runtime(),
            r.current_process == self.spec_current(),
            r.queue_lengths@ == Seq::new(NUM_PRIORITIES as nat, |l: int| self.queues()[l].len() as usize),
    {
        let mut lengths: Vec<usize> = Vec::new();
        let mut l: usize = 0;
        while l < NUM_PRIORITIES
            invariant
                self.wf(),
                l <= NUM_PRIORITIES,
                lengths@ == Seq::new(l as nat, |i: int| self.queues()[i].len() as usize),
            decreases NUM_PRIORITIES - l,
        {
            lengths.push(self.ready_queues[l].len());
            assert(lengths@ =~= Seq::new((l + 1) as nat, |i: int| self.queues()[i].len() as usize));
            l = l + 1;
        }
        SchedulerStats { tick_count: self.tick_count, total_runtime: self.total_runtime, current_process: self.current,
            queue_lengths: lengths }
    }

    /// Set the priority of the process in slot `pid`, if there is one.
    fn set_priority_of(procs: &mut Vec<Option<Process>>, pid: ProcessId, priority: Priority)
        ensures
            final(procs)@ == (match slot(old(procs)@, pid) {
                Some(p) => old(procs)@.update(pid.0 as int, Some(Process { priority, ..p })),
                None => old(procs)@,
            }),
    {
        let i = pid.0 as usize;
        if i < procs.len() {
            match take_slot(procs, i) {
                Some(mut p) => {
                    p.priority = priority;
                    procs.set(i, Some(p));
                },
                None => {
                    assert(procs@ =~= old(procs)@);
                },
            }
        }
    }

    /// Pick the next process: the current one goes back to the end of its
    /// queue if it is still running; then the front of the highest non-empty
    /// queue is dispatched, or the idle process when all are empty.
    pub fn schedule(&mut self, procs: &mut Vec<Option<Process>>) -> (r: Option<ProcessId>)
        requires
            old(self).wf(),
        ensures
            final(self).wf(),
            final(self).idle() == old(self).idle(),
            final(self).ticks() == old(self).ticks(),
            final(self).runtime() == old(self).runtime(),
            final(self).spec_current() == r,
            ({
                let qs = requeued(old(self).queues(), old(procs)@, old(self).spec_current());
                let l = top_level(qs, 4);
                &&& l >= 0 ==> r == Some(qs[l][0])
                    && final(self).queues() == qs.update(l, qs[l].drop_first())
                    && final(procs)@ == (match slot(old(procs)@, qs[l][0]) {
                        Some(p) => old(procs)@.update(qs[l][0].0 as int, Some(dispatched(p))),
                        None => old(procs)@,
                    })
                &&& l < 0 ==> r == old(self).idle() && final(self).queues() == qs && final(procs)@ == old(procs)@
            }),
    {
        if let Some(current_pid) = self.current {
            let i = current_pid.0 as usize;
            if i < procs.len() {
                if let Some(p) = &procs[i] {
                    if p.state == ProcessState::Running {
                        let level = p.priority.as_usize();
                        self.push_at(level, current_pid);
                    }
                }
            }
        }
        let ghost qs = self.queues();
        assert(qs == requeued(old(self).queues(), old(procs)@, old(self).spec_current()));
        let mut level: usize = NUM_PRIORITIES;
        while level > 0
            invariant
                self.wf(),
                level <= NUM_PRIORITIES,
                self.queues() == qs,
                qs == requeued(old(self).queues(), old(procs)@, old(self).spec_current()),
                procs@ == old(procs)@,
                self.idle_process == old(self).idle_process,
                self.tick_count == old(self).tick_count,
                self.total_runtime == old(self).total_runtime,
                top_level(qs, 4) == top_level(qs, level - 1),
            decreases level,
        {
            level = level - 1;
            assert(top_level(qs, level as int) == if qs[level as int].len() > 0 { level as int } else { top_level(qs, level - 1) });
            if let Some(next_pid) = self.pop_at(level) {
                self.current = Some(next_pid);
                let i = next_pid.0 as usize;
                if i < procs.len() {
                    match take_slot(procs, i) {
                        Some(mut p) => {
                            p.state = ProcessState::Running;
                            p.stats.context_switches = p.stats.context_switches.wrapping_add(1);
                            procs.set(i, Some(p));
                        },
                        None => {
                            assert(procs@ =~= old(procs)@);
                        },
                    }
                }
                return Some(next_pid);
            }
        }
        self.current = self.idle_process;
        self.idle_process
    }

    /// Leave the processor: the current process, if any, takes state
    /// `reason` and nothing is current.
    pub fn block_current(&mut self, procs: &mut Vec<Option<Process>>, reason: ProcessState)
        requires
            old(self).wf(),
        ensures
            final(self).wf(),
            final(self).queues() == old(self).queues(),
            final(self).idle() == old(self).idle(),
            final(self).ticks() == old(self).ticks(),
            final(self).runtime() == old(self).runtime(),
            old(self).spec_current() is None ==> final(self).spec_current() is None && final(procs)@ == old(procs)@,
            old(self).spec_current() matches Some(c) ==> final(self).spec_current() is None
                && final(procs)@ == (match slot(old(procs)@, c) {
                    Some(p) => old(procs)@.update(c.0 as int, Some(Process { state: reason, ..p })),
                    None => old(procs)@,
                }),
    {
        if let Some(current_pid) = self.current {
            let i = current_pid.0 as usize;
            if i < procs.len() {
                match take_slot(procs, i) {
                    Some(mut p) => {
                        p.state = reason;
                        procs.set(i, Some(p));
                    },
                    None => {
                        assert(procs@ =~= old(procs)@);
                    },
                }
            }
            self.current = None;
        }
    }

    /// Make a waiting process ready again: if `pid` is blocked or waiting
    /// on IPC it becomes ready and joins the end of its priority's queue.
    pub fn unblock_process(&mut self, procs: &mut Vec<Option<Process>>, pid: ProcessId)
        requires
            old(self).wf(),
        ensures
            final(self).wf(),
            final(self).spec_current() == old(self).spec_current(),
            final(self).idle() == old(self).idle(),
            final(self).ticks() == old(self).ticks(),
            final(self).runtime() == old(self).runtime(),
            (match slot(old(procs)@, pid) {
                Some(p) => if is_waiting(p.state) {
                    &&& final(procs)@ == old(procs)@.update(pid.0 as int, Some(Process { state: ProcessState::Ready, ..p }))
                    &&& final(self).queues() == old(self).queues().update(priority_level(p.priority) as int,
                            old(self).queues()[priority_level(p.priority) as int].push(pid))
                } else {
                    final(procs)@ == old(procs)@ && final(self).queues() == old(self).queues()
                },
                None => final(procs)@ == old(procs)@ && final(self).queues() == old(self).queues(),
            }),
    {
        let i = pid.0 as usize;
        if i < procs.len() {
            match take_slot(procs, i) {
                Some(mut p) => {
                    if p.state == ProcessState::Blocked || p.state == ProcessState::SendWait
                        || p.state == ProcessState::ReceiveWait || p.state == ProcessState::ReplyWait {
                        p.state = ProcessState::Ready;
                        let level = p.priority.as_usize();
                        procs.set(i, Some(p));
                        self.push_at(level, pid);
                    } else {
                        procs.set(i, Some(p));
                        assert(procs@ =~= old(procs)@);
                    }
                },
                None => {
                    assert(procs@ =~= old(procs)@);
                },
            }
        }
    }

    /// Raise `pid` to high priority unless it is critical; a ready process
    /// also moves from its old queue to the end of the high queue.
    pub fn boost_priority(&mut self, procs: &mut Vec<Option<Process>>, pid: ProcessId)
        requires
            old(self).wf(),
        ensures
            final(self).wf(),
            final(self).spec_current() == old(self).spec_current(),
            final(self).idle() == old(self).idle(),
            final(self).ticks() == old(self).ticks(),
            final(self).runtime() == old(self).runtime(),
            (match slot(old(procs)@, pid) {
                Some(p) => if p.priority != Priority::Critical {
                    &&& final(procs)@ == old(procs)@.update(pid.0 as int, Some(Process { priority: Priority::High, ..p }))
                    &&& final(self).queues() == (if p.state == ProcessState::Ready {
                            let q1 = old(self).queues().update(priority_level(p.priority) as int,
                                without(old(self).queues()[priority_level(p.priority) as int], pid));
                            q1.update(3, q1[3].push(pid))
                        } else {
                            old(self).queues()
                        })
                } else {
                    final(procs)@ == old(procs)@ && final(self).queues() == old(self).queues()
                },
                None => final(procs)@ == old(procs)@ && final(self).queues() == old(self).queues(),
            }),
    {
        let i = pid.0 as usize;
        if i < procs.len() {
            match take_slot(procs, i) {
                Some(mut p) => {
                    if p.priority != Priority::Critical {
                        let old_priority = p.priority;
                        p.priority = Priority::High;
                        let ready = p.state == ProcessState::Ready;
                        procs.set(i, Some(p));
                        if ready {
                            self.remove_at(old_priority.as_usize(), pid);
                            self.push_at(Priority::High.as_usize(), pid);
                        }
                    } else {
                        procs.set(i, Some(p));
                        assert(procs@ =~= old(procs)@);
                    }
                },
                None => {
                    assert(procs@ =~= old(procs)@);
                },
            }
        }
    }

    /// Move every queued process one level up, level by level from the
    /// lowest, so that everything ends in the critical queue (in the order
    /// critical, high, normal, low, idle) with critical priority.
    fn priority_boost(&mut self, procs: &mut Vec<Option<Process>>)
        requires
            old(self).wf(),
        ensures
            final(self).wf(),
            final(self).spec_current() == old(self).spec_current(),
            final(self).idle() == old(self).idle(),
            final(self).ticks() == old(self).ticks(),
            final(self).runtime() == old(self).runtime(),
            final(self).queues() == boost_queues(old(self).queues()),
            final(procs)@ == boost_table(old(procs)@, old(self).queues()),
    {
        let ghost qs0 = self.queues();
        let ghost t0 = procs@;
        let mut level: usize = 0;
        proof {
            assert(self.queues() =~= Seq::new(NUM_PRIORITIES as nat, |l: int|
                if l < 0 { Seq::<ProcessId>::empty() } else if l == 0 { stacked(qs0, 0) } else { qs0[l] }));
            assert(procs@ =~= staged(t0, qs0, 0));
        }
        while level < NUM_PRIORITIES - 1
            invariant
                self.wf(),
                level <= NUM_PRIORITIES - 1,
                self.current == old(self).current,
                self.idle_process == old(self).idle_process,
                self.tick_count == old(self).tick_count,
                self.total_runtime == old(self).total_runtime,
                qs0 == old(self).queues(),
                t0 == old(procs)@,
                self.queues() == Seq::new(NUM_PRIORITIES as nat, |l: int|
                    if l < level { Seq::<ProcessId>::empty() } else if l == level { stacked(qs0, level as int) } else { qs0[l] }),
                procs@ == staged(t0, qs0, level as int),
            decreases NUM_PRIORITIES - level,
        {
            let ghost acc = stacked(qs0, level as int);
            assert(self.queues()[level as int] == acc);
            let n = self.ready_queues[level].len();
            let mut k: usize = 0;
            proof {
                assert(acc.skip(0) =~= acc);
                assert forall|l: int| 0 <= l < NUM_PRIORITIES && l == level + 1 implies qs0[l] + acc.take(0) =~= qs0[l] by {}
                assert(self.queues() =~= Seq::new(NUM_PRIORITIES as nat, |l: int|
                    if l < level { Seq::<ProcessId>::empty() } else if l == level { acc.skip(0) }
                    else if l == level + 1 { qs0[l] + acc.take(0) } else { qs0[l] }));
                assert(procs@ =~= Seq::new(t0.len(), |i: int| match t0[i] {
                    Some(p) => if names(acc.take(0), i) { Some(Process { priority: level_priority(level + 1), ..p }) }
                        else if level > 0 && names(stacked(qs0, level - 1), i) { Some(Process { priority: level_priority(level as int), ..p }) }
                        else { t0[i] },
                    None => None,
                }));
            }
            while k < n
                invariant
                    self.wf(),
                    level < NUM_PRIORITIES - 1,
                    n == acc.len(),
                    k <= n,
                    acc == stacked(qs0, level as int),
                    self.current == old(self).current,
                    self.idle_process == old(self).idle_process,
                    self.tick_count == old(self).tick_count,
                    self.total_runtime == old(self).total_runtime,
                    self.queues() == Seq::new(NUM_PRIORITIES as nat, |l: int|
                        if l < level { Seq::<ProcessId>::empty() } else if l == level { acc.skip(k as int) }
                        else if l == level + 1 { qs0[l] + acc.take(k as int) } else { qs0[l] }),
                    procs@ == Seq::new(t0.len(), |i: int| match t0[i] {
                        Some(p) => if names(acc.take(k as int), i) { Some(Process { priority: level_priority(level + 1), ..p }) }
                            else if level > 0 && names(stacked(qs0, level - 1), i) { Some(Process { priority: level_priority(level as int), ..p }) }
                            else { t0[i] },
                        None => None,
                    }),
                decreases n - k,
            {
                let ghost before = self.queues();
                let ghost tb = procs@;
                assert(before[level as int] == acc.skip(k as int));
                assert(before[level + 1] == qs0[level + 1] + acc.take(k as int));
                let pid = self.pop_at(level).unwrap();
                assert(pid == acc[k as int]);
                self.push_at(level + 1, pid);
                let pr = match level + 1 {
                    0 => Priority::Idle,
                    1 => Priority::Low,
                    2 => Priority::Normal,
                    3 => Priority::High,
                    4 => Priority::Critical,
                    _ => Priority::Normal,
                };
                assert(pr == level_priority(level + 1));
                Self::set_priority_of(procs, pid, pr);
                proof {
                    assert(acc.skip(k as int).drop_first() =~= acc.skip(k + 1));
                    assert((qs0[level + 1] + acc.take(k as int)).push(pid) =~= qs0[level + 1] + acc.take(k + 1));
                    assert(self.queues() =~= Seq::new(NUM_PRIORITIES as nat, |l: int|
                        if l < level { Seq::<ProcessId>::empty() } else if l == level { acc.skip(k + 1) }
                        else if l == level + 1 { qs0[l] + acc.take(k + 1) } else { qs0[l] }));
                    assert forall|i: int| names(acc.take(k + 1), i) <==> (names(acc.take(k as int), i) || pid.0 == i) by {
                        if names(acc.take(k + 1), i) {
                            let j = choose|j: int| 0 <= j < acc.take(k + 1).len() && (#[trigger] acc.take(k + 1)[j]).0 == i;
                            if j < k { assert(acc.take(k as int)[j] == acc.take(k + 1)[j]); }
                        }
                        if names(acc.take(k as int), i) {
                            let j = choose|j: int| 0 <= j < acc.take(k as int).len() && (#[trigger] acc.take(k as int)[j]).0 == i;
                            assert(acc.take(k + 1)[j] == acc.take(k as int)[j]);
                        }
                        if pid.0 == i { assert(acc.take(k + 1)[k as int] == pid); }
                    }
                    assert(procs@ =~= Seq::new(t0.len(), |i: int| match t0[i] {
                        Some(p) => if names(acc.take(k + 1), i) { Some(Process { priority: level_priority(level + 1), ..p }) }
                            else if level > 0 && names(stacked(qs0, level - 1), i) { Some(Process { priority: level_priority(level as int), ..p }) }
                            else { t0[i] },
                        None => None,
                    }));
                }
                k = k + 1;
            }
            proof {
                assert(acc.take(k as int) =~= acc);
                assert(acc.skip(k as int) =~= Seq::<ProcessId>::empty());
                assert(stacked(qs0, level + 1) == qs0[level + 1] + acc);
                assert(self.queues() =~= Seq::new(NUM_PRIORITIES as nat, |l: int|
                    if l < level + 1 { Seq::<ProcessId>::empty() } else if l == level + 1 { stacked(qs0, level + 1) } else { qs0[l] }));
                assert forall|i: int| level > 0 && names(stacked(qs0, level - 1), i) implies names(acc, i) by {
                    lemma_names_stacked(qs0, level as int, i);
                }
                assert(procs@ =~= staged(t0, qs0, level + 1));
            }
            level = level + 1;
        }
        proof {
            assert(self.queues() =~= boost_queues(qs0));
            assert(procs@ =~= boost_table(t0, qs0));
        }
    }

    /// One timer tick: count it, charge the current process one tick of
    /// CPU time and of quantum (when its quantum runs out it gets a fresh
    /// one for its priority, becomes ready and leaves the processor), and
    /// boost priorities every `BOOST_INTERVAL` ticks.
    pub fn tick(&mut self, procs: &mut Vec<Option<Process>>)
        requires
            old(self).wf(),
        ensures
            final(self).wf(),
            final(self).idle() == old(self).idle(),
            final(self).ticks() == old(self).ticks().wrapping_add(1),
            final(self).runtime() == old(self).runtime().wrapping_add(1),
            final(self).spec_current() == (match old(self).spec_current() {
                Some(c) => match slot(old(procs)@, c) {
                    Some(p) => if p.quantum <= 1 { None } else { Some(c) },
                    None => Some(c),
                },
                None => None,
            }),
            ({
                let t1 = charge_current(old(procs)@, old(self).spec_current());
                if old(self).ticks().wrapping_add(1) % BOOST_INTERVAL == 0 {
                    final(self).queues() == boost_queues(old(self).queues()) && final(procs)@ == boost_table(t1, old(self).queues())
                } else {
                    final(self).queues() == old(self).queues() && final(procs)@ == t1
                }
            }),
    {
        self.tick_count = self.tick_count.wrapping_add(1);
        self.total_runtime = self.total_runtime.wrapping_add(1);
        if let Some(current_pid) = self.current {
            let i = current_pid.0 as usize;
            if i < procs.len() {
                match take_slot(procs, i) {
                    Some(mut p) => {
                        p.stats.cpu_time = p.stats.cpu_time.wrapping_add(1);
                        if p.quantum > 0 {
                            p.quantum = p.quantum - 1;
                        }
                        if p.quantum == 0 {
                            p.quantum = calculate_quantum(p.priority);
                            p.state = ProcessState::Ready;
                            self.current = None;
                        }
                        procs.set(i, Some(p));
                    },
                    None => {
                        assert(procs@ =~= old(procs)@);
                    },
                }
            }
        }
        if self.tick_count % BOOST_INTERVAL == 0 {
            self.priority_boost(procs);
        }
    }
}

} // verus!
