//! Process and thread identifiers, states, priorities and CPU affinity.
use vstd::prelude::*;

verus! {

/// Raw value that marks an invalid process or thread ID.
pub const INVALID_ID: u16 = 0xFFFF;

/// Unique identifier for a process; `0xFFFF` is invalid, `0` is the kernel.
#[derive(Debug, Clone, Copy, PartialEq, Eq, PartialOrd, Ord, Hash, Structural)]
pub struct ProcessId(pub u16);

impl ProcessId {
    /// The invalid process ID.
    pub fn invalid() -> (r: Self)
        ensures
            r.0 == INVALID_ID,
    {
        ProcessId(INVALID_ID)
    }

    /// Create a process ID; `None` for the invalid value.
    pub fn new(id: u16) -> (r: Option<Self>)
        ensures
            id == INVALID_ID ==> r is None,
            id != INVALID_ID ==> r == Some(ProcessId(id)),
    {
        if id == INVALID_ID {
            None
        } else {
            Some(ProcessId(id))
        }
    }

    /// Create a process ID without validation.
    pub fn new_const(id: u16) -> (r: Self)
        ensures
            r.0 == id,
    {
        ProcessId(id)
    }

    /// Create a process ID from a raw value.
    pub fn from_raw(id: u16) -> (r: Self)
        ensures
            r.0 == id,
    {
        ProcessId(id)
    }

    /// The raw value.
    pub fn as_u16(self) -> (r: u16)
        ensures
            r == self.0,
    {
        self.0
    }

    /// The raw value widened to `u32`.
    pub fn as_u32(self) -> (r: u32)
        ensures
            r == self.0,
    {
        self.0 as u32
    }

    /// The raw value widened to `u64`.
    pub fn as_u64(self) -> (r: u64)
        ensures
            r == self.0,
    {
        self.0 as u64
    }

    /// Whether this is a valid process ID.
    pub fn is_valid(self) -> (r: bool)
        ensures
            r == (self.0 != INVALID_ID),
    {
        self.0 != INVALID_ID
    }

    /// Whether this is the kernel process.
    pub fn is_kernel(self) -> (r: bool)
        ensures
            r == (self.0 == 0),
    {
        self.0 == 0
    }

    /// Whether this is a userspace process.
    pub fn is_userspace(self) -> (r: bool)
        ensures
            r == (self.0 > 0 && self.0 != INVALID_ID),
    {
        self.0 > 0 && self.0 != INVALID_ID
    }

    /// A raw value converted as `From<u16>` does: the invalid value stays
    /// invalid.
    pub fn from_u16(id: u16) -> (r: Self)
        ensures
            r.0 == id,
    {
        match Self::new(id) {
            Some(p) => p,
            None => Self::invalid(),
        }
    }
}

impl Default for ProcessId {
    fn default() -> (r: Self)
        ensures
            r.0 == INVALID_ID,
    {
        ProcessId(INVALID_ID)
    }
}

/// Identifier of a thread within a process; `0xFFFF` is invalid, `0` is the
/// main thread.
#[derive(Debug, Clone, Copy, PartialEq, Eq, PartialOrd, Ord, Hash, Structural)]
pub struct ThreadId(pub u16);

impl ThreadId {
    /// The invalid thread ID.
    pub fn invalid() -> (r: Self)
        ensures
            r.0 == INVALID_ID,
    {
        ThreadId(INVALID_ID)
    }

    /// The main thread ID.
    pub fn main() -> (r: Self)
        ensures
            r.0 == 0,
    {
        ThreadId(0)
    }

    /// Create a thread ID; `None` for the invalid value.
    pub fn new(id: u16) -> (r: Option<Self>)
        ensures
            id == INVALID_ID ==> r is None,
            id != INVALID_ID ==> r == Some(ThreadId(id)),
    {
        if id == INVALID_ID {
            None
        } else {
            Some(ThreadId(id))
        }
    }

    /// Create a thread ID without validation.
    pub fn new_const(id: u16) -> (r: Self)
        ensures
            r.0 == id,
    {
        ThreadId(id)
    }

    /// Create a thread ID from a raw value.
    pub fn from_raw(id: u16) -> (r: Self)
        ensures
            r.0 == id,
    {
        ThreadId(id)
    }

    /// The raw value.
    pub fn as_u16(self) -> (r: u16)
        ensures
            r == self.0,
    {
        self.0
    }

    /// The raw value widened to `u32`.
    pub fn as_u32(self) -> (r: u32)
        ensures
            r == self.0,
    {
        self.0 as u32
    }

    /// The raw value widened to `u64`.
    pub fn as_u64(self) -> (r: u64)
        ensures
            r == self.0,
    {
        self.0 as u64
    }

    /// Whether this is a valid thread ID.
    pub fn is_valid(self) -> (r: bool)
        ensures
            r == (self.0 != INVALID_ID),
    {
        self.0 != INVALID_ID
    }

    /// Whether this is the main thread.
    pub fn is_main(self) -> (r: bool)
        ensures
            r == (self.0 == 0),
    {
        self.0 == 0
    }
}

impl Default for ThreadId {
    fn default() -> (r: Self)
        ensures
            r.0 == INVALID_ID,
    {
        ThreadId(INVALID_ID)
    }
}

/// A thread named by its process and its ID within that process.
#[derive(Debug, Clone, Copy, PartialEq, Eq, PartialOrd, Ord, Hash, Structural)]
pub struct GlobalThreadId {
    /// Process ID.
    pub process: ProcessId,
    /// Thread ID within the process.
    pub thread: ThreadId,
}

impl GlobalThreadId {
    /// Create a global thread ID.
    pub fn new(process: ProcessId, thread: ThreadId) -> (r: Self)
        ensures
            r.process == process,
            r.thread == thread,
    {
        GlobalThreadId { process, thread }
    }

    /// Create from raw values.
    pub fn from_raw(process: u16, thread: u16) -> (r: Self)
        ensures
            r.process.0 == process,
            r.thread.0 == thread,
    {
        GlobalThreadId { process: ProcessId::new_const(process), thread: ThreadId::new_const(thread) }
    }

    /// Whether both parts are valid.
    pub fn is_valid(self) -> (r: bool)
        ensures
            r == (self.process.0 != INVALID_ID && self.thread.0 != INVALID_ID),
    {
        self.process.is_valid() && self.thread.is_valid()
    }

    /// Whether the thread belongs to the kernel.
    pub fn is_kernel(self) -> (r: bool)
        ensures
            r == (self.process.0 == 0),
    {
        self.process.is_kernel()
    }

    /// Whether this is the main thread of its process.
    pub fn is_main_thread(self) -> (r: bool)
        ensures
            r == (self.thread.0 == 0),
    {
        self.thread.is_main()
    }
}

/// Lifecycle state of a process.
#[derive(Debug, Clone, Copy, PartialEq, Eq, Structural)]
pub enum ProcessState {
    /// Ready to run.
    Ready,
    /// Currently running.
    Running,
    /// Blocked waiting for IPC.
    Blocked,
    /// Waiting for a reply.
    ReplyWait,
    /// Waiting to send.
    SendWait,
    /// Waiting to receive.
    ReceiveWait,
    /// Has exited.
    Exited,
    /// Has been killed.
    Killed,
    /// Being created.
    Creating,
}

impl ProcessState {
    /// Whether the process can be scheduled.
    pub fn is_schedulable(self) -> (r: bool)
        ensures
            r == (self == ProcessState::Ready),
    {
        match self {
            ProcessState::Ready => true,
            _ => false,
        }
    }

    /// Whether the process is running.
    pub fn is_running(self) -> (r: bool)
        ensures
            r == (self == ProcessState::Running),
    {
        match self {
            ProcessState::Running => true,
            _ => false,
        }
    }

    /// Whether the process is blocked in any way.
    pub fn is_blocked(self) -> (r: bool)
        ensures
            r == (self == ProcessState::Blocked || self == ProcessState::ReplyWait
                || self == ProcessState::SendWait || self == ProcessState::ReceiveWait),
    {
        match self {
            ProcessState::Blocked | ProcessState::ReplyWait | ProcessState::SendWait
            | ProcessState::ReceiveWait => true,
            _ => false,
        }
    }

    /// Whether the process has terminated.
    pub fn is_terminated(self) -> (r: bool)
        ensures
            r == (self == ProcessState::Exited || self == ProcessState::Killed),
    {
        match self {
            ProcessState::Exited | ProcessState::Killed => true,
            _ => false,
        }
    }
}

/// Process priority: `0` is the highest, `255` the lowest.
#[derive(Debug, Clone, Copy, PartialEq, Eq, PartialOrd, Ord, Structural)]
pub struct Priority(pub u8);

impl Priority {
    /// Create a priority.
    pub fn new(priority: u8) -> (r: Self)
        ensures
            r.0 == priority,
    {
        Priority(priority)
    }

    /// The raw value.
    pub fn as_u8(self) -> (r: u8)
        ensures
            r == self.0,
    {
        self.0
    }

    /// Whether this is a system priority (below 100).
    pub fn is_system(self) -> (r: bool)
        ensures
            r == (self.0 < 100),
    {
        self.0 < 100
    }

    /// Whether this is a user priority (100 and above).
    pub fn is_user(self) -> (r: bool)
        ensures
            r == (self.0 >= 100),
    {
        self.0 >= 100
    }
}

impl Default for Priority {
    fn default() -> (r: Self)
        ensures
            r.0 == 100,
    {
        Priority(100)
    }
}

/// The bit that stands for CPU `cpu` in an affinity mask.
pub open spec fn cpu_bit(cpu: u8) -> u64 {
    1u64 << cpu
}

/// Set of CPUs a process may run on; the empty mask means any CPU.
#[derive(Debug, Clone, Copy, PartialEq, Eq, Structural)]
pub struct CpuAffinityMask(pub u64);

impl CpuAffinityMask {
    /// Any CPU (the empty mask).
    pub fn any() -> (r: Self)
        ensures
            r.0 == 0,
    {
        CpuAffinityMask(0)
    }

    /// Create a mask.
    pub fn new(mask: u64) -> (r: Self)
        ensures
            r.0 == mask,
    {
        CpuAffinityMask(mask)
    }

    /// Affinity for one CPU; any CPU when `cpu_id` is 64 or more.
    pub fn cpu(cpu_id: u8) -> (r: Self)
        ensures
            cpu_id >= 64 ==> r.0 == 0,
            cpu_id < 64 ==> r.0 == cpu_bit(cpu_id),
    {
        if cpu_id >= 64 {
            CpuAffinityMask(0)
        } else {
            CpuAffinityMask(1u64 << cpu_id)
        }
    }

    /// The raw mask.
    pub fn as_u64(self) -> (r: u64)
        ensures
            r == self.0,
    {
        self.0
    }

    /// Whether the process may run on any CPU.
    pub fn is_any(self) -> (r: bool)
        ensures
            r == (self.0 == 0),
    {
        self.0 == 0
    }

    /// Whether the process may run on `cpu_id`.
    pub fn can_run_on(self, cpu_id: u8) -> (r: bool)
        ensures
            r == (self.0 == 0 || cpu_id >= 64 || self.0 & cpu_bit(cpu_id) != 0),
    {
        if self.is_any() || cpu_id >= 64 {
            true
        } else {
            (self.0 & (1u64 << cpu_id)) != 0
        }
    }

    /// The mask with `cpu_id` added.
    pub fn with_cpu(self, cpu_id: u8) -> (r: Self)
        ensures
            cpu_id >= 64 ==> r == self,
            cpu_id < 64 ==> r.0 == self.0 | cpu_bit(cpu_id),
    {
        if cpu_id >= 64 {
            self
        } else {
            CpuAffinityMask(self.0 | (1u64 << cpu_id))
        }
    }

    /// The mask with `cpu_id` removed.
    pub fn without_cpu(self, cpu_id: u8) -> (r: Self)
        ensures
            cpu_id >= 64 ==> r == self,
            cpu_id < 64 ==> r.0 == self.0 & !cpu_bit(cpu_id),
    {
        if cpu_id >= 64 {
            self
        } else {
            CpuAffinityMask(self.0 & !(1u64 << cpu_id))
        }
    }
}

/// Adding a CPU to a non-empty mask lets the process run there, and removing
/// it forbids that unless the mask becomes empty.
pub proof fn lemma_affinity_with_without(m: u64, cpu: u8)
    requires
        cpu < 64,
    ensures
        (m | cpu_bit(cpu)) & cpu_bit(cpu) != 0,
        (m & !cpu_bit(cpu)) & cpu_bit(cpu) == 0,
{
    assert((m | (1u64 << cpu)) & (1u64 << cpu) != 0) by (bit_vector) requires cpu < 64;
    assert((m & !(1u64 << cpu)) & (1u64 << cpu) == 0) by (bit_vector);
}

impl Default for CpuAffinityMask {
    fn default() -> (r: Self)
        ensures
            r.0 == 0,
    {
        CpuAffinityMask(0)
    }
}

} // verus!
