//! The text forms of the core types, as they are shown to a reader.
use vstd::prelude::*;
use crate::text::{push_decimal, decimal_digits, push_lower_hex_padded, lower_hex_digits, pad_left};
use crate::types::process::{ProcessId, ThreadId, GlobalThreadId, ProcessState, Priority, INVALID_ID};
use crate::types::capability::{CapabilityId, ResourceType, Rights, Capability, RIGHT_READ, RIGHT_WRITE,
    RIGHT_EXECUTE, RIGHT_GRANT, RIGHT_DELETE, RIGHT_MAP, RIGHT_SEND, RIGHT_RECEIVE, RIGHT_CONTROL};
use crate::types::ipc::{EndpointId, MessageType};
use crate::types::memory::{PhysAddr, VirtAddr, SharedMemoryId};
use crate::types::error::{ErrorContext, error_message};

verus! {

/// `prefix` followed by `n` in decimal and a closing bracket when `valid`,
/// else by `INVALID)`.
pub open spec fn id_text(prefix: Seq<char>, n: nat, valid: bool) -> Seq<char> {
    if valid { prefix + decimal_digits(n) + ")"@ } else { prefix + "INVALID)"@ }
}

fn id_string(prefix: &str, n: u64, valid: bool) -> (r: String)
    ensures
        r@ == id_text(prefix@, n as nat, valid),
{
    let mut s = String::from_str(prefix);
    if valid {
        push_decimal(&mut s, n);
        s.append(")");
    } else {
        s.append("INVALID)");
    }
    s
}

/// `PID(n)`, or `PID(INVALID)`.
pub open spec fn process_id_text(p: ProcessId) -> Seq<char> {
    id_text("PID("@, p.0 as nat, p.0 != INVALID_ID)
}

/// `TID(n)`, or `TID(INVALID)`.
pub open spec fn thread_id_text(t: ThreadId) -> Seq<char> {
    id_text("TID("@, t.0 as nat, t.0 != INVALID_ID)
}

/// The process's text, a colon and the thread's text.
pub open spec fn global_thread_id_text(g: GlobalThreadId) -> Seq<char> {
    process_id_text(g.process) + ":"@ + thread_id_text(g.thread)
}

/// The name of a process state.
pub open spec fn process_state_text(s: ProcessState) -> Seq<char> {
    match s {
        ProcessState::Ready => "Ready"@,
        ProcessState::Running => "Running"@,
        ProcessState::Blocked => "Blocked"@,
        ProcessState::ReplyWait => "ReplyWait"@,
        ProcessState::SendWait => "SendWait"@,
        ProcessState::ReceiveWait => "ReceiveWait"@,
        ProcessState::Exited => "Exited"@,
        ProcessState::Killed => "Killed"@,
        ProcessState::Creating => "Creating"@,
    }
}

/// `Priority(n)`.
pub open spec fn priority_text(p: Priority) -> Seq<char> {
    "Priority("@ + decimal_digits(p.0 as nat) + ")"@
}

/// `Cap(n)`, or `Cap(INVALID)` for ID 0.
pub open spec fn capability_id_text(c: CapabilityId) -> Seq<char> {
    id_text("Cap("@, c.0 as nat, c.0 != 0)
}

/// The name of a resource type.
pub open spec fn resource_type_text(t: ResourceType) -> Seq<char> {
    match t {
        ResourceType::Endpoint => "Endpoint"@,
        ResourceType::Memory => "Memory"@,
        ResourceType::Irq => "Irq"@,
        ResourceType::IoPort => "IoPort"@,
        ResourceType::Process => "Process"@,
        ResourceType::Frame => "Frame"@,
        ResourceType::SharedMemory => "SharedMemory"@,
        ResourceType::DeviceMemory => "DeviceMemory"@,
        ResourceType::Timer => "Timer"@,
        ResourceType::Debug => "Debug"@,
    }
}

/// The `k`-th right named in the text of a set of rights.
pub open spec fn right_flag(k: int) -> u32 {
    if k == 0 { RIGHT_READ } else if k == 1 { RIGHT_WRITE } else if k == 2 { RIGHT_EXECUTE }
    else if k == 3 { RIGHT_GRANT } else if k == 4 { RIGHT_DELETE } else if k == 5 { RIGHT_MAP }
    else if k == 6 { RIGHT_SEND } else if k == 7 { RIGHT_RECEIVE } else { RIGHT_CONTROL }
}

/// The letters of the `k`-th right named.
pub open spec fn right_letters(k: int) -> Seq<char> {
    if k == 0 { "R"@ } else if k == 1 { "W"@ } else if k == 2 { "X"@ }
    else if k == 3 { "G"@ } else if k == 4 { "D"@ } else if k == 5 { "M"@ }
    else if k == 6 { "S"@ } else if k == 7 { "Rc"@ } else { "C"@ }
}

/// The number of rights named in the text of a set of rights.
pub const NAMED_RIGHTS: usize = 9;

/// The letters of those of the first `k` named rights that `bits` holds,
/// in order.
pub open spec fn rights_parts(bits: u32, k: int) -> Seq<Seq<char>>
    decreases k,
{
    if k <= 0 {
        Seq::empty()
    } else {
        let rest = rights_parts(bits, k - 1);
        if bits & right_flag(k - 1) == right_flag(k - 1) { rest.push(right_letters(k - 1)) } else { rest }
    }
}

/// `parts` joined with `|` between them.
pub open spec fn joined(parts: Seq<Seq<char>>) -> Seq<char>
    decreases parts.len(),
{
    if parts.len() == 0 {
        Seq::empty()
    } else if parts.len() == 1 {
        parts[0]
    } else {
        joined(parts.drop_last()) + "|"@ + parts.last()
    }
}

/// `None` for no right, else the letters of the named rights held, joined
/// with `|`.
pub open spec fn rights_text(r: Rights) -> Seq<char> {
    if r.0 == 0 { "None"@ } else { joined(rights_parts(r.0, NAMED_RIGHTS as int)) }
}

/// The `k`-th named right and its letters.
fn right_at(k: usize) -> (r: (u32, &'static str))
    requires
        k < NAMED_RIGHTS,
    ensures
        r.0 == right_flag(k as int),
        r.1@ == right_letters(k as int),
{
    if k == 0 { (RIGHT_READ, "R") } else if k == 1 { (RIGHT_WRITE, "W") } else if k == 2 { (RIGHT_EXECUTE, "X") }
    else if k == 3 { (RIGHT_GRANT, "G") } else if k == 4 { (RIGHT_DELETE, "D") } else if k == 5 { (RIGHT_MAP, "M") }
    else if k == 6 { (RIGHT_SEND, "S") } else if k == 7 { (RIGHT_RECEIVE, "Rc") } else { (RIGHT_CONTROL, "C") }
}

/// The capability's ID, a colon, its resource type, its rights and its
/// resource number in brackets.
pub open spec fn capability_text(c: Capability) -> Seq<char> {
    capability_id_text(c.id) + ":"@ + resource_type_text(c.resource_type) + " "@ + rights_text(c.rights)
        + " ("@ + decimal_digits(c.resource_id as nat) + ")"@
}

/// `Endpoint(n)`, or `Endpoint(INVALID)` for ID 0.
pub open spec fn endpoint_id_text(e: EndpointId) -> Seq<char> {
    id_text("Endpoint("@, e.0 as nat, e.0 != 0)
}

/// The name of a message type.
pub open spec fn message_type_text(t: MessageType) -> Seq<char> {
    match t {
        MessageType::Send => "Send"@,
        MessageType::Call => "Call"@,
        MessageType::Reply => "Reply"@,
        MessageType::Notify => "Notify"@,
        MessageType::Irq => "Irq"@,
    }
}

/// `name(0x` followed by `a` in sixteen lower-case hexadecimal digits and a
/// closing bracket.
pub open spec fn address_text(name: Seq<char>, a: u64) -> Seq<char> {
    name + "(0x"@ + pad_left(lower_hex_digits(a as nat), 16, '0') + ")"@
}

fn address_string(name: &str, a: u64) -> (r: String)
    ensures
        r@ == address_text(name@, a),
{
    let mut s = String::from_str(name);
    s.append("(0x");
    push_lower_hex_padded(&mut s, a, 16);
    s.append(")");
    s
}

/// `SharedMem(n)`, or `SharedMem(INVALID)` for ID 0.
pub open spec fn shared_memory_id_text(m: SharedMemoryId) -> Seq<char> {
    id_text("SharedMem("@, m.0 as nat, m.0 != 0)
}

/// The error's message, then ` at ` and the file, line and function
/// separated by colons, then the message in brackets if there is one.
pub open spec fn error_context_text(c: ErrorContext) -> Seq<char> {
    error_message(c.error) + " at "@ + c.file@ + ":"@ + decimal_digits(c.line as nat) + ":"@ + c.function@
        + match c.message {
            Some(m) => " ("@ + m@ + ")"@,
            None => Seq::empty(),
        }
}

impl ProcessId {
    /// The text form: `PID(n)`, or `PID(INVALID)`.
    pub fn to_string(&self) -> (r: String)
        ensures
            r@ == process_id_text(*self),
    {
        id_string("PID(", self.0 as u64, self.0 != INVALID_ID)
    }
}

impl ThreadId {
    /// The text form: `TID(n)`, or `TID(INVALID)`.
    pub fn to_string(&self) -> (r: String)
        ensures
            r@ == thread_id_text(*self),
    {
        id_string("TID(", self.0 as u64, self.0 != INVALID_ID)
    }
}

impl GlobalThreadId {
    /// The text form: the process's and the thread's, joined by a colon.
    pub fn to_string(&self) -> (r: String)
        ensures
            r@ == global_thread_id_text(*self),
    {
        let mut s = self.process.to_string();
        s.append(":");
        let t = self.thread.to_string();
        s.append(t.as_str());
        s
    }
}

impl ProcessState {
    /// The state's name.
    pub fn to_string(&self) -> (r: String)
        ensures
            r@ == process_state_text(*self),
    {
        match self {
            ProcessState::Ready => String::from_str("Ready"),
            ProcessState::Running => String::from_str("Running"),
            ProcessState::Blocked => String::from_str("Blocked"),
            ProcessState::ReplyWait => String::from_str("ReplyWait"),
            ProcessState::SendWait => String::from_str("SendWait"),
            ProcessState::ReceiveWait => String::from_str("ReceiveWait"),
            ProcessState::Exited => String::from_str("Exited"),
            ProcessState::Killed => String::from_str("Killed"),
            ProcessState::Creating => String::from_str("Creating"),
        }
    }
}

impl Priority {
    /// The text form: `Priority(n)`.
    pub fn to_string(&self) -> (r: String)
        ensures
            r@ == priority_text(*self),
    {
        let mut s = String::from_str("Priority(");
        push_decimal(&mut s, self.0 as u64);
        s.append(")");
        s
    }
}

impl CapabilityId {
    /// The text form: `Cap(n)`, or `Cap(INVALID)`.
    pub fn to_string(&self) -> (r: String)
        ensures
            r@ == capability_id_text(*self),
    {
        id_string("Cap(", self.0 as u64, self.0 != 0)
    }
}

impl ResourceType {
    /// The resource type's name.
    pub fn to_string(&self) -> (r: String)
        ensures
            r@ == resource_type_text(*self),
    {
        match self {
            ResourceType::Endpoint => String::from_str("Endpoint"),
            ResourceType::Memory => String::from_str("Memory"),
            ResourceType::Irq => String::from_str("Irq"),
            ResourceType::IoPort => String::from_str("IoPort"),
            ResourceType::Process => String::from_str("Process"),
            ResourceType::Frame => String::from_str("Frame"),
            ResourceType::SharedMemory => String::from_str("SharedMemory"),
            ResourceType::DeviceMemory => String::from_str("DeviceMemory"),
            ResourceType::Timer => String::from_str("Timer"),
            ResourceType::Debug => String::from_str("Debug"),
        }
    }
}

impl Rights {
    /// The text form: `None` for no right, else the letters of the rights
    /// held (R, W, X, G, D, M, S, Rc, C in that order) joined with `|`.
    pub fn to_string(&self) -> (r: String)
        ensures
            r@ == rights_text(*self),
    {
        if self.0 == 0 {
            return String::from_str("None");
        }
        let bits = self.0;
        let mut s = String::new();
        let mut any = false;
        let mut k: usize = 0;
        while k < NAMED_RIGHTS
            invariant
                k <= NAMED_RIGHTS,
                s@ == joined(rights_parts(bits, k as int)),
                any == (rights_parts(bits, k as int).len() > 0),
            decreases NAMED_RIGHTS - k,
        {
            let (flag, letters) = right_at(k);
            let ghost parts = rights_parts(bits, k as int);
            if bits & flag == flag {
                if any {
                    s.append("|");
                }
                s.append(letters);
                proof {
                    let next = parts.push(letters@);
                    assert(next.drop_last() =~= parts);
                    assert(rights_parts(bits, k + 1) == next);
                    if parts.len() == 0 {
                        assert(s@ =~= joined(next));
                    } else {
                        assert(s@ =~= joined(next));
                    }
                }
                any = true;
            }
            k = k + 1;
        }
        s
    }
}

impl Capability {
    /// The text form: ID, colon, resource type, rights and the resource
    /// number in brackets.
    pub fn to_string(&self) -> (r: String)
        ensures
            r@ == capability_text(*self),
    {
        let mut s = self.id.to_string();
        s.append(":");
        let t = self.resource_type.to_string();
        s.append(t.as_str());
        s.append(" ");
        let rights = self.rights.to_string();
        s.append(rights.as_str());
        s.append(" (");
        push_decimal(&mut s, self.resource_id);
        s.append(")");
        s
    }
}

impl EndpointId {
    /// The text form: `Endpoint(n)`, or `Endpoint(INVALID)`.
    pub fn to_string(&self) -> (r: String)
        ensures
            r@ == endpoint_id_text(*self),
    {
        id_string("Endpoint(", self.0 as u64, self.0 != 0)
    }
}

impl MessageType {
    /// The message type's name.
    pub fn to_string(&self) -> (r: String)
        ensures
            r@ == message_type_text(*self),
    {
        match self {
            MessageType::Send => String::from_str("Send"),
            MessageType::Call => String::from_str("Call"),
            MessageType::Reply => String::from_str("Reply"),
            MessageType::Notify => String::from_str("Notify"),
            MessageType::Irq => String::from_str("Irq"),
        }
    }
}

impl PhysAddr {
    /// The text form: `PhysAddr(0x` and sixteen hexadecimal digits.
    pub fn to_string(&self) -> (r: String)
        ensures
            r@ == address_text("PhysAddr"@, self.0),
    {
        address_string("PhysAddr", self.0)
    }
}

impl VirtAddr {
    /// The text form: `VirtAddr(0x` and sixteen hexadecimal digits.
    pub fn to_string(&self) -> (r: String)
        ensures
            r@ == address_text("VirtAddr"@, self.0),
    {
        address_string("VirtAddr", self.0)
    }
}

impl SharedMemoryId {
    /// The text form: `SharedMem(n)`, or `SharedMem(INVALID)`.
    pub fn to_string(&self) -> (r: String)
        ensures
            r@ == shared_memory_id_text(*self),
    {
        id_string("SharedMem(", self.0 as u64, self.0 != 0)
    }
}

impl ErrorContext {
    /// The text form: the error's message, where it occurred, and the
    /// message if any.
    pub fn to_string(&self) -> (r: String)
        ensures
            r@ == error_context_text(*self),
    {
        let mut s = String::from_str(self.error.message());
        s.append(" at ");
        s.append(self.file);
        s.append(":");
        push_decimal(&mut s, self.line as u64);
        s.append(":");
        s.append(self.function);
        match self.message {
            Some(m) => {
                s.append(" (");
                s.append(m);
                s.append(")");
            },
            None => {},
        }
        s
    }
}

} // verus!
