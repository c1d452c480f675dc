//! Inter-process communication types and message formats.
use vstd::prelude::*;
use crate::types::process::ProcessId;

verus! {

/// IPC endpoint identifier; zero is invalid and IDs below 256 are reserved
/// for well-known endpoints.
#[derive(Debug, Clone, Copy, PartialEq, Eq, PartialOrd, Ord, Hash, Structural)]
pub struct EndpointId(pub u32);

impl EndpointId {
    /// The invalid endpoint ID.
    pub fn invalid() -> (r: Self)
        ensures
            r.0 == 0,
    {
        EndpointId(0)
    }

    /// A well-known endpoint ID.
    pub fn well_known(id: u32) -> (r: Self)
        requires
            id < 256,
        ensures
            r.0 == id,
    {
        EndpointId(id)
    }

    /// Create an endpoint ID; `None` for zero.
    pub fn new(id: u32) -> (r: Option<Self>)
        ensures
            id == 0 ==> r is None,
            id != 0 ==> r == Some(EndpointId(id)),
    {
        if id == 0 {
            None
        } else {
            Some(EndpointId(id))
        }
    }

    /// Create an endpoint ID without validation.
    pub fn new_unchecked(id: u32) -> (r: Self)
        ensures
            r.0 == id,
    {
        EndpointId(id)
    }

    /// The raw value.
    pub fn as_u32(self) -> (r: u32)
        ensures
            r == self.0,
    {
        self.0
    }

    /// The raw value widened to `u64`.
    pub fn as_u64(self) -> (r: u64)
        ensures
            r == self.0,
    {
        self.0 as u64
    }

    /// Whether this is a valid endpoint ID.
    pub fn is_valid(self) -> (r: bool)
        ensures
            r == (self.0 != 0),
    {
        self.0 != 0
    }

    /// Whether this is a well-known endpoint.
    pub fn is_well_known(self) -> (r: bool)
        ensures
            r == (self.0 < 256),
    {
        self.0 < 256
    }
}

impl Default for EndpointId {
    fn default() -> (r: Self)
        ensures
            r.0 == 0,
    {
        EndpointId(0)
    }
}

/// Kind of an IPC message.
#[derive(Debug, Clone, Copy, PartialEq, Eq, Structural)]
pub enum MessageType {
    /// Asynchronous send.
    Send,
    /// Synchronous call that expects a reply.
    Call,
    /// Reply to a call.
    Reply,
    /// Lightweight notification.
    Notify,
    /// Interrupt notification.
    Irq,
}

/// The wire number of a message type.
pub open spec fn message_type_code(t: MessageType) -> u32 {
    match t {
        MessageType::Send => 0,
        MessageType::Call => 1,
        MessageType::Reply => 2,
        MessageType::Notify => 3,
        MessageType::Irq => 4,
    }
}

impl MessageType {
    /// The message type with the given wire number.
    pub fn from_u32(value: u32) -> (r: Option<Self>)
        ensures
            value <= 4 <==> r is Some,
            r matches Some(t) ==> message_type_code(t) == value,
    {
        match value {
            0 => Some(MessageType::Send),
            1 => Some(MessageType::Call),
            2 => Some(MessageType::Reply),
            3 => Some(MessageType::Notify),
            4 => Some(MessageType::Irq),
            _ => None,
        }
    }

    /// The wire number.
    pub fn as_u32(self) -> (r: u32)
        ensures
            r == message_type_code(self),
    {
        match self {
            MessageType::Send => 0,
            MessageType::Call => 1,
            MessageType::Reply => 2,
            MessageType::Notify => 3,
            MessageType::Irq => 4,
        }
    }

    /// Whether this message type expects a reply.
    pub fn expects_reply(self) -> (r: bool)
        ensures
            r == (self == MessageType::Call),
    {
        match self {
            MessageType::Call => true,
            _ => false,
        }
    }

    /// Whether this is a reply.
    pub fn is_reply(self) -> (r: bool)
        ensures
            r == (self == MessageType::Reply),
    {
        match self {
            MessageType::Reply => true,
            _ => false,
        }
    }

    /// Whether this is a notification.
    pub fn is_notification(self) -> (r: bool)
        ensures
            r == (self == MessageType::Notify || self == MessageType::Irq),
    {
        match self {
            MessageType::Notify | MessageType::Irq => true,
            _ => false,
        }
    }
}

/// Every defined message flag bit.
pub const MESSAGE_FLAGS_ALL: u32 = 0xFF;
/// The message carries capabilities.
pub const MSG_HAS_CAPABILITIES: u32 = 0x1;
/// The message is urgent.
pub const MSG_URGENT: u32 = 0x2;
/// The message must not block.
pub const MSG_NON_BLOCKING: u32 = 0x4;
/// The payload is in shared memory.
pub const MSG_SHARED_MEMORY: u32 = 0x8;
/// The message is a broadcast.
pub const MSG_BROADCAST: u32 = 0x10;
/// The message requires acknowledgment.
pub const MSG_ACK_REQUIRED: u32 = 0x20;
/// The message comes from the kernel.
pub const MSG_KERNEL_MESSAGE: u32 = 0x40;
/// The message carries error information.
pub const MSG_ERROR: u32 = 0x80;

/// Message flags, a set of the bits above.
#[derive(Debug, Clone, Copy, PartialEq, Eq, Structural)]
pub struct MessageFlags(pub u32);

impl MessageFlags {
    /// No flag set.
    pub fn empty() -> (r: Self)
        ensures
            r.0 == 0,
    {
        MessageFlags(0)
    }

    /// The raw bits.
    pub fn bits(self) -> (r: u32)
        ensures
            r == self.0,
    {
        self.0
    }

    /// The flags named by `bits`, undefined bits dropped.
    pub fn from_bits_truncate(bits: u32) -> (r: Self)
        ensures
            r.0 == bits & MESSAGE_FLAGS_ALL,
    {
        MessageFlags(bits & MESSAGE_FLAGS_ALL)
    }

    /// Whether every flag of `other` is set.
    pub fn contains(self, other: MessageFlags) -> (r: bool)
        ensures
            r == (self.0 & other.0 == other.0),
    {
        self.0 & other.0 == other.0
    }

    /// The flags of both.
    pub fn union(self, other: MessageFlags) -> (r: Self)
        ensures
            r.0 == self.0 | other.0,
    {
        MessageFlags(self.0 | other.0)
    }

    /// The flags of `self` without those of `other`.
    pub fn difference(self, other: MessageFlags) -> (r: Self)
        ensures
            r.0 == self.0 & !other.0,
    {
        MessageFlags(self.0 & !other.0)
    }
}

/// Message header: type, flags, sender, receiver and label.
#[derive(Debug, Clone, Copy)]
pub struct MessageHeader {
    /// Message type.
    pub msg_type: MessageType,
    /// Message flags.
    pub flags: MessageFlags,
    /// Sender process ID.
    pub sender: ProcessId,
    /// Receiver process ID (for routing).
    pub receiver: ProcessId,
    /// User-defined label.
    pub label: u32,
}

impl MessageHeader {
    /// A header of the given type with no flags, sender and receiver 0 and
    /// label 0.
    pub fn new(msg_type: MessageType) -> (r: Self)
        ensures
            r.msg_type == msg_type,
            r.flags.0 == 0,
            r.sender.0 == 0,
            r.receiver.0 == 0,
            r.label == 0,
    {
        MessageHeader {
            msg_type,
            flags: MessageFlags(0),
            sender: ProcessId(0),
            receiver: ProcessId(0),
            label: 0,
        }
    }

    /// The header with its flags replaced.
    pub fn with_flags(self, flags: MessageFlags) -> (r: Self)
        ensures
            r == (MessageHeader { flags, ..self }),
    {
        let mut h = self;
        h.flags = flags;
        h
    }

    /// The header with its sender replaced.
    pub fn with_sender(self, sender: ProcessId) -> (r: Self)
        ensures
            r == (MessageHeader { sender, ..self }),
    {
        let mut h = self;
        h.sender = sender;
        h
    }

    /// The header with its receiver replaced.
    pub fn with_receiver(self, receiver: ProcessId) -> (r: Self)
        ensures
            r == (MessageHeader { receiver, ..self }),
    {
        let mut h = self;
        h.receiver = receiver;
        h
    }

    /// The header with its label replaced.
    pub fn with_label(self, label: u32) -> (r: Self)
        ensures
            r == (MessageHeader { label, ..self }),
    {
        let mut h = self;
        h.label = label;
        h
    }

    /// Whether the message carries capabilities.
    pub fn has_capabilities(self) -> (r: bool)
        ensures
            r == (self.flags.0 & MSG_HAS_CAPABILITIES == MSG_HAS_CAPABILITIES),
    {
        self.flags.contains(MessageFlags(MSG_HAS_CAPABILITIES))
    }

    /// Whether the message is urgent.
    pub fn is_urgent(self) -> (r: bool)
        ensures
            r == (self.flags.0 & MSG_URGENT == MSG_URGENT),
    {
        self.flags.contains(MessageFlags(MSG_URGENT))
    }

    /// Whether the message must not block.
    pub fn is_non_blocking(self) -> (r: bool)
        ensures
            r == (self.flags.0 & MSG_NON_BLOCKING == MSG_NON_BLOCKING),
    {
        self.flags.contains(MessageFlags(MSG_NON_BLOCKING))
    }

    /// Whether the message carries an error.
    pub fn is_error(self) -> (r: bool)
        ensures
            r == (self.flags.0 & MSG_ERROR == MSG_ERROR),
    {
        self.flags.contains(MessageFlags(MSG_ERROR))
    }
}

/// Byte `k` (0 is the least significant) of the word `w`.
pub open spec fn byte_of(w: u64, k: u64) -> u8 {
    ((w >> (8 * k) as u64) & 0xff) as u8
}

/// The word `w` with byte `k` replaced by `b`.
pub open spec fn put_byte(w: u64, k: u64, b: u8) -> u64 {
    (w & !(0xffu64 << (8 * k) as u64)) | ((b as u64) << (8 * k) as u64)
}

/// Replacing a byte changes that byte and no other.
pub proof fn lemma_put_byte(w: u64, k: u64, j: u64, b: u8)
    requires
        k < 8,
        j < 8,
    ensures
        byte_of(put_byte(w, k, b), k) == b,
        j != k ==> byte_of(put_byte(w, k, b), j) == byte_of(w, j),
{
    let s = (8 * k) as u64;
    let t = (8 * j) as u64;
    let bb = b as u64;
    assert((((w & !(0xffu64 << s)) | (bb << s)) >> s) & 0xff == bb) by (bit_vector)
        requires
            s <= 56,
            s % 8 == 0,
            bb <= 0xff,
    ;
    assert(s != t ==> (((w & !(0xffu64 << s)) | (bb << s)) >> t) & 0xff == (w >> t) & 0xff)
        by (bit_vector)
        requires
            s <= 56,
            t <= 56,
            bb <= 0xff,
            s % 8 == 0,
            t % 8 == 0,
    ;
}

/// The 48 payload bytes of six little-endian words.
pub open spec fn words_bytes(words: Seq<u64>) -> Seq<u8> {
    Seq::new(48, |i: int| byte_of(words[i / 8], (i % 8) as u64))
}

/// Message payload: 48 bytes, read as six little-endian words or as bytes.
#[derive(Debug, Clone, Copy)]
pub struct MessageData {
    /// The payload as six words.
    pub words: [u64; 6],
}

impl MessageData {
    /// The payload bytes.
    pub open spec fn bytes(&self) -> Seq<u8> {
        words_bytes(self.words@)
    }

    /// An all-zero payload.
    pub fn empty() -> (r: Self)
        ensures
            forall|i: int| 0 <= i < 6 ==> r.words@[i] == 0,
    {
        MessageData { words: [0u64; 6] }
    }

    /// A payload holding `words`.
    pub fn from_words(words: [u64; 6]) -> (r: Self)
        ensures
            r.words == words,
    {
        MessageData { words }
    }

    /// A payload holding `bytes`.
    pub fn from_bytes(bytes: [u8; 48]) -> (r: Self)
        ensures
            r.bytes() == bytes@,
    {
        let mut d = MessageData::empty();
        let mut i: usize = 0;
        while i < 48
            invariant
                i <= 48,
                d.words@.len() == 6,
                bytes@.len() == 48,
                forall|j: int| 0 <= j < i ==> d.bytes()[j] == bytes@[j],
            decreases 48 - i,
        {
            d.set_byte(i, bytes[i]);
            i = i + 1;
        }
        assert(d.bytes() =~= bytes@);
        d
    }

    /// The word at `index`, or 0 past the end.
    pub fn get_word(&self, index: usize) -> (r: u64)
        ensures
            index < 6 ==> r == self.words@[index as int],
            index >= 6 ==> r == 0,
    {
        if index < 6 {
            self.words[index]
        } else {
            0
        }
    }

    /// Replace the word at `index`; past the end nothing changes.
    pub fn set_word(&mut self, index: usize, value: u64)
        ensures
            index < 6 ==> final(self).words@ == old(self).words@.update(index as int, value),
            index >= 6 ==> *final(self) == *old(self),
    {
        if index < 6 {
            self.words[index] = value;
        }
    }

    /// The byte at `index`, or 0 past the end.
    pub fn get_byte(&self, index: usize) -> (r: u8)
        ensures
            index < 48 ==> r == self.bytes()[index as int],
            index >= 48 ==> r == 0,
    {
        if index < 48 {
            let w = self.words[index / 8];
            let s: u64 = 8 * ((index % 8) as u64);
            ((w >> s) & 0xff) as u8
        } else {
            0
        }
    }

    /// Replace the byte at `index`; past the end nothing changes.
    pub fn set_byte(&mut self, index: usize, value: u8)
        ensures
            index < 48 ==> final(self).bytes() == old(self).bytes().update(index as int, value),
            index >= 48 ==> *final(self) == *old(self),
    {
        if index < 48 {
            let wi = index / 8;
            let k: u64 = (index % 8) as u64;
            let w = self.words[wi];
            let s: u64 = 8 * k;
            let nw: u64 = (w & !(0xffu64 << s)) | ((value as u64) << s);
            assert(nw == put_byte(w, k, value));
            self.words[wi] = nw;
            proof {
                assert forall|j: int| 0 <= j < 48 implies #[trigger] self.bytes()[j]
                    == old(self).bytes().update(index as int, value)[j] by {
                    lemma_put_byte(w, k, (j % 8) as u64, value);
                }
                assert(self.bytes() =~= old(self).bytes().update(index as int, value));
            }
        }
    }
}

/// The payload read as six named words.
#[derive(Debug, Clone, Copy, PartialEq, Eq, Structural)]
pub struct StructuredData {
    /// First 8 bytes as u64.
    pub word0: u64,
    /// Second 8 bytes as u64.
    pub word1: u64,
    /// Third 8 bytes as u64.
    pub word2: u64,
    /// Fourth 8 bytes as u64.
    pub word3: u64,
    /// Fifth 8 bytes as u64.
    pub word4: u64,
    /// Sixth 8 bytes as u64.
    pub word5: u64,
}

impl MessageData {
    /// The payload as named words.
    pub fn structured(&self) -> (r: StructuredData)
        ensures
            r.word0 == self.words@[0] && r.word1 == self.words@[1] && r.word2 == self.words@[2],
            r.word3 == self.words@[3] && r.word4 == self.words@[4] && r.word5 == self.words@[5],
    {
        StructuredData {
            word0: self.words[0],
            word1: self.words[1],
            word2: self.words[2],
            word3: self.words[3],
            word4: self.words[4],
            word5: self.words[5],
        }
    }

    /// A payload holding the named words.
    pub fn from_structured(s: StructuredData) -> (r: Self)
        ensures
            r.words@ == seq![s.word0, s.word1, s.word2, s.word3, s.word4, s.word5],
    {
        MessageData { words: [s.word0, s.word1, s.word2, s.word3, s.word4, s.word5] }
    }
}

impl Default for MessageData {
    fn default() -> (r: Self)
        ensures
            forall|i: int| 0 <= i < 6 ==> r.words@[i] == 0,
    {
        MessageData::empty()
    }
}

/// A complete IPC message: header and 48-byte payload.
#[derive(Debug, Clone, Copy)]
pub struct Message {
    /// Message header.
    pub header: MessageHeader,
    /// Message payload.
    pub data: MessageData,
}

/// The message that `Message::new(t)` builds: fresh header, zero payload.
pub open spec fn fresh_message(m: Message, t: MessageType) -> bool {
    &&& m.header.msg_type == t
    &&& m.header.flags.0 == 0
    &&& m.header.sender.0 == 0
    &&& m.header.receiver.0 == 0
    &&& m.header.label == 0
    &&& forall|i: int| 0 <= i < 6 ==> m.data.words@[i] == 0
}

impl Message {
    /// A message of the given type with a fresh header and zero payload.
    pub fn new(msg_type: MessageType) -> (r: Self)
        ensures
            fresh_message(r, msg_type),
    {
        Message { header: MessageHeader::new(msg_type), data: MessageData::empty() }
    }

    /// A send message.
    pub fn send() -> (r: Self)
        ensures
            fresh_message(r, MessageType::Send),
    {
        Self::new(MessageType::Send)
    }

    /// A call message.
    pub fn call() -> (r: Self)
        ensures
            fresh_message(r, MessageType::Call),
    {
        Self::new(MessageType::Call)
    }

    /// A reply message.
    pub fn reply() -> (r: Self)
        ensures
            fresh_message(r, MessageType::Reply),
    {
        Self::new(MessageType::Reply)
    }

    /// A notification.
    pub fn notify() -> (r: Self)
        ensures
            fresh_message(r, MessageType::Notify),
    {
        Self::new(MessageType::Notify)
    }

    /// An IRQ notification.
    pub fn irq() -> (r: Self)
        ensures
            fresh_message(r, MessageType::Irq),
    {
        Self::new(MessageType::Irq)
    }

    /// A success reply.
    pub fn success() -> (r: Self)
        ensures
            fresh_message(r, MessageType::Reply),
    {
        Self::reply()
    }

    /// An error reply carrying `error_code` in its first word.
    pub fn error(error_code: u32) -> (r: Self)
        ensures
            r.header.msg_type == MessageType::Reply,
            r.header.flags.0 == MSG_ERROR,
            r.header.sender.0 == 0,
            r.header.receiver.0 == 0,
            r.header.label == 0,
            r.data.words@[0] == error_code as u64,
            forall|i: int| 1 <= i < 6 ==> r.data.words@[i] == 0,
    {
        let mut msg = Self::reply();
        assert(0u32 | 128u32 == 128u32) by (bit_vector);
        msg.header.flags = msg.header.flags.union(MessageFlags(MSG_ERROR));
        msg.data.set_word(0, error_code as u64);
        msg
    }

    /// Replace the label.
    pub fn set_label(&mut self, label: u32)
        ensures
            *final(self) == (Message { header: MessageHeader { label, ..old(self).header }, ..*old(self) }),
    {
        self.header.label = label;
    }

    /// The label.
    pub fn label(&self) -> (r: u32)
        ensures
            r == self.header.label,
    {
        self.header.label
    }

    /// Replace the sender.
    pub fn set_sender(&mut self, sender: ProcessId)
        ensures
            *final(self) == (Message { header: MessageHeader { sender, ..old(self).header }, ..*old(self) }),
    {
        self.header.sender = sender;
    }

    /// The sender.
    pub fn sender(&self) -> (r: ProcessId)
        ensures
            r == self.header.sender,
    {
        self.header.sender
    }

    /// Replace the receiver.
    pub fn set_receiver(&mut self, receiver: ProcessId)
        ensures
            *final(self) == (Message { header: MessageHeader { receiver, ..old(self).header }, ..*old(self) }),
    {
        self.header.receiver = receiver;
    }

    /// The receiver.
    pub fn receiver(&self) -> (r: ProcessId)
        ensures
            r == self.header.receiver,
    {
        self.header.receiver
    }

    /// Replace the flags.
    pub fn set_flags(&mut self, flags: MessageFlags)
        ensures
            *final(self) == (Message { header: MessageHeader { flags, ..old(self).header }, ..*old(self) }),
    {
        self.header.flags = flags;
    }

    /// Add flags to those already set.
    pub fn add_flags(&mut self, flags: MessageFlags)
        ensures
            final(self).header.flags.0 == old(self).header.flags.0 | flags.0,
            final(self).header.msg_type == old(self).header.msg_type,
            final(self).header.sender == old(self).header.sender,
            final(self).header.receiver == old(self).header.receiver,
            final(self).header.label == old(self).header.label,
            final(self).data == old(self).data,
    {
        self.header.flags = self.header.flags.union(flags);
    }

    /// The flags.
    pub fn flags(&self) -> (r: MessageFlags)
        ensures
            r == self.header.flags,
    {
        self.header.flags
    }

    /// Replace the payload word at `index`; past the end nothing changes.
    pub fn set_data(&mut self, index: usize, value: u64)
        ensures
            final(self).header == old(self).header,
            index < 6 ==> final(self).data.words@ == old(self).data.words@.update(index as int, value),
            index >= 6 ==> final(self).data == old(self).data,
    {
        self.data.set_word(index, value);
    }

    /// The payload word at `index`, or 0 past the end.
    pub fn get_data(&self, index: usize) -> (r: u64)
        ensures
            index < 6 ==> r == self.data.words@[index as int],
            index >= 6 ==> r == 0,
    {
        self.data.get_word(index)
    }

    /// Copy up to 48 bytes into the payload and zero the rest.
    pub fn set_bytes(&mut self, bytes: &[u8])
        ensures
            final(self).header == old(self).header,
            forall|i: int| 0 <= i < 48 ==> #[trigger] final(self).data.bytes()[i]
                == if i < bytes@.len() { bytes@[i] } else { 0u8 },
    {
        let len: usize = if bytes.len() < 48 { bytes.len() } else { 48 };
        let mut i: usize = 0;
        while i < 48
            invariant
                i <= 48,
                len <= 48,
                len == (if bytes@.len() < 48 { bytes@.len() } else { 48 }),
                self.header == old(self).header,
                forall|j: int| 0 <= j < i ==> #[trigger] self.data.bytes()[j]
                    == if j < bytes@.len() { bytes@[j] } else { 0u8 },
            decreases 48 - i,
        {
            if i < len {
                self.data.set_byte(i, bytes[i]);
            } else {
                self.data.set_byte(i, 0);
            }
            i = i + 1;
        }
    }

    /// The 48 payload bytes.
    pub fn get_bytes(&self) -> (r: [u8; 48])
        ensures
            r@ == self.data.bytes(),
    {
        let mut out = [0u8; 48];
        let mut i: usize = 0;
        while i < 48
            invariant
                i <= 48,
                out@.len() == 48,
                forall|j: int| 0 <= j < i ==> out@[j] == self.data.bytes()[j],
            decreases 48 - i,
        {
            out[i] = self.data.get_byte(i);
            i = i + 1;
        }
        assert(out@ =~= self.data.bytes());
        out
    }

    /// Whether this is an IRQ notification.
    pub fn is_irq_notification(&self) -> (r: bool)
        ensures
            r == (self.header.msg_type == MessageType::Irq),
    {
        match self.header.msg_type {
            MessageType::Irq => true,
            _ => false,
        }
    }

    /// Whether this message expects a reply.
    pub fn expects_reply(&self) -> (r: bool)
        ensures
            r == (self.header.msg_type == MessageType::Call),
    {
        self.header.msg_type.expects_reply()
    }

    /// Whether this is a reply.
    pub fn is_reply(&self) -> (r: bool)
        ensures
            r == (self.header.msg_type == MessageType::Reply),
    {
        self.header.msg_type.is_reply()
    }

    /// Whether this message carries an error.
    pub fn is_error(&self) -> (r: bool)
        ensures
            r == (self.header.flags.0 & MSG_ERROR == MSG_ERROR),
    {
        self.header.is_error()
    }

    /// Whether this message carries capabilities.
    pub fn has_capabilities(&self) -> (r: bool)
        ensures
            r == (self.header.flags.0 & MSG_HAS_CAPABILITIES == MSG_HAS_CAPABILITIES),
    {
        self.header.has_capabilities()
    }
}

impl Default for Message {
    fn default() -> (r: Self)
        ensures
            fresh_message(r, MessageType::Send),
    {
        Self::new(MessageType::Send)
    }
}

/// Number of slots in a message queue.
pub const QUEUE_CAPACITY: usize = 16;

/// Distinct positions less than a full turn apart fall in distinct slots.
pub proof fn lemma_ring_slots_distinct(a: int, b: int)
    requires
        0 <= a < b < a + 16,
    ensures
        a % 16 != b % 16,
{
}

/// Advancing a slot index by one wraps like advancing the position.
pub proof fn lemma_ring_advance(x: int)
    requires
        0 <= x,
    ensures
        ((x % 16) + 1) % 16 == (x + 1) % 16,
{
}

/// A bounded FIFO queue of at most 16 messages, kept in a ring of slots.
#[derive(Debug)]
pub struct MessageQueue {
    messages: Vec<Option<Message>>,
    head: usize,
    tail: usize,
    count: usize,
}

impl MessageQueue {
    /// Ring invariant: the queued messages occupy the `count` slots from
    /// `head`, and `tail` is the slot after them.
    pub closed spec fn wf(&self) -> bool {
        &&& self.messages@.len() == 16
        &&& self.head < 16
        &&& self.count <= 16
        &&& self.tail == (self.head + self.count) % 16
        &&& forall|i: int| 0 <= i < self.count ==> (#[trigger] self.messages@[(self.head + i) % 16]) is Some
    }

    /// The queued messages, oldest first.
    pub closed spec fn view(&self) -> Seq<Message> {
        Seq::new(self.count as nat, |i: int| self.messages@[(self.head + i) % 16]->Some_0)
    }

    /// An empty queue.
    pub fn new() -> (r: Self)
        ensures
            r.wf(),
            r.view() == Seq::<Message>::empty(),
    {
        let mut messages: Vec<Option<Message>> = Vec::new();
        let mut i: usize = 0;
        while i < 16
            invariant
                i <= 16,
                messages@.len() == i,
            decreases 16 - i,
        {
            messages.push(None);
            i = i + 1;
        }
        let q = MessageQueue { messages, head: 0, tail: 0, count: 0 };
        assert(q.view() =~= Seq::<Message>::empty());
        q
    }

    /// Whether the queue is empty.
    pub fn is_empty(&self) -> (r: bool)
        requires
            self.wf(),
        ensures
            r == (self.view().len() == 0),
    {
        self.count == 0
    }

    /// Whether the queue is full.
    pub fn is_full(&self) -> (r: bool)
        requires
            self.wf(),
        ensures
            r == (self.view().len() == 16),
    {
        self.count == 16
    }

    /// The number of queued messages.
    pub fn len(&self) -> (r: usize)
        requires
            self.wf(),
        ensures
            r == self.view().len(),
    {
        self.count
    }

    /// Append `message`; refused (returning false) when the queue is full.
    #[verifier::rlimit(30)]
    pub fn enqueue(&mut self, message: Message) -> (r: bool)
        requires
            old(self).wf(),
        ensures
            final(self).wf(),
            r == (old(self).view().len() < 16),
            r ==> final(self).view() == old(self).view().push(message),
            !r ==> final(self).view() == old(self).view(),
    {
        if self.count == 16 {
            false
        } else {
            let ghost old_view = self.view();
            let t = self.tail;
            self.messages.set(t, Some(message));
            self.tail = (self.tail + 1) % 16;
            self.count = self.count + 1;
            proof {
                lemma_ring_advance(self.head + old(self).count);
                assert(t as int == (self.head + old(self).count) % 16);
                assert forall|i: int| 0 <= i < self.count implies
                    (#[trigger] self.messages@[(self.head + i) % 16]) is Some by {
                    if i < self.count - 1 {
                        lemma_ring_slots_distinct(self.head + i, self.head + old(self).count);
                    }
                }
                assert forall|i: int| 0 <= i < old_view.len() implies
                    #[trigger] self.view()[i] == old_view[i] by {
                    lemma_ring_slots_distinct(self.head + i, self.head + old(self).count);
                }
                assert(self.view() =~= old_view.push(message));
            }
            true
        }
    }

    /// Remove and return the oldest message; `None` when empty.
    #[verifier::spinoff_prover]
    pub fn dequeue(&mut self) -> (r: Option<Message>)
        requires
            old(self).wf(),
        ensures
            final(self).wf(),
            old(self).view().len() == 0 ==> r is None && final(self).view() == old(self).view(),
            old(self).view().len() > 0 ==> r == Some(old(self).view()[0])
                && final(self).view() == old(self).view().drop_first(),
    {
        if self.count == 0 {
            None
        } else {
            let ghost old_view = self.view();
            let h = self.head;
            let message = self.messages[h];
            assert(self.messages@[(self.head + 0) % 16] is Some);
            self.messages.set(h, None);
            self.head = (self.head + 1) % 16;
            self.count = self.count - 1;
            proof {
                assert forall|i: int| 0 <= i < self.count implies
                    (#[trigger] self.messages@[(self.head + i) % 16]) is Some by {
                    assert((self.head + i) % 16 == (h + (i + 1)) % 16);
                    assert(old(self).messages@[(h + (i + 1)) % 16] is Some);
                }
                assert forall|i: int| 0 <= i < self.count implies
                    #[trigger] self.view()[i] == old_view.drop_first()[i] by {
                    assert((self.head + i) % 16 == (h + (i + 1)) % 16);
                }
                assert(self.view() =~= old_view.drop_first());
            }
            message
        }
    }

    /// The oldest message without removing it; `None` when empty.
    pub fn peek(&self) -> (r: Option<Message>)
        requires
            self.wf(),
        ensures
            self.view().len() == 0 ==> r is None,
            self.view().len() > 0 ==> r == Some(self.view()[0]),
    {
        if self.count == 0 {
            None
        } else {
            assert(self.messages@[(self.head + 0) % 16] is Some);
            self.messages[self.head]
        }
    }

    /// Remove every message.
    pub fn clear(&mut self)
        requires
            old(self).wf(),
        ensures
            final(self).wf(),
            final(self).view() == Seq::<Message>::empty(),
    {
        let mut i: usize = 0;
        while i < 16
            invariant
                i <= 16,
                self.messages@.len() == 16,
            decreases 16 - i,
        {
            self.messages.set(i, None);
            i = i + 1;
        }
        self.head = 0;
        self.tail = 0;
        self.count = 0;
        assert(self.view() =~= Seq::<Message>::empty());
    }
}

impl Default for MessageQueue {
    fn default() -> (r: Self)
        ensures
            r.wf(),
            r.view() == Seq::<Message>::empty(),
    {
        Self::new()
    }
}

/// Messages leave a queue in the order they entered: a message enqueued
/// behind others does not change which message is dequeued next, and it is
/// the next one out of an empty queue.
pub proof fn law_queue_fifo(q0: MessageQueue, m: Message, q1: MessageQueue, r: Option<Message>, q2: MessageQueue)
    requires
        q0.view().len() < 16,
        q1.view() == q0.view().push(m),
        r == Some(q1.view()[0]),
        q2.view() == q1.view().drop_first(),
    ensures
        q0.view().len() == 0 ==> r == Some(m) && q2.view().len() == 0,
        q0.view().len() > 0 ==> r == Some(q0.view()[0]) && q2.view() == q0.view().drop_first().push(m),
{
    if q0.view().len() > 0 {
        assert(q2.view() =~= q0.view().drop_first().push(m));
    }
}

/// Over any run of calls a queue holds exactly the messages `enqueue`
/// accepted and `dequeue` has not yet handed out, in the order they were
/// accepted. When `q0` holds `accepted.skip(k)` (the first `k` accepted
/// messages have left), an enqueue of `m` into it keeps this with `m`
/// appended to `accepted` when accepted, and keeps it unchanged when
/// refused (the queue being full).
pub proof fn law_queue_run_enqueue(accepted: Seq<Message>, k: int, q0: MessageQueue, m: Message, ok: bool, q1: MessageQueue)
    requires
        q0.wf(),
        0 <= k <= accepted.len(),
        q0.view() == accepted.skip(k),
        ok == (q0.view().len() < 16),
        ok ==> q1.view() == q0.view().push(m),
        !ok ==> q1.view() == q0.view(),
    ensures
        ok ==> q1.view() == accepted.push(m).skip(k),
        !ok ==> q1.view() == accepted.skip(k) && accepted.len() - k == 16,
{
    if ok {
        assert(accepted.push(m).skip(k) =~= accepted.skip(k).push(m));
    }
}

/// The dequeue half of the run: from a queue holding `accepted.skip(k)`,
/// `dequeue` hands out `accepted[k]`, the oldest message not yet handed
/// out, and then holds `accepted.skip(k + 1)`; with every accepted message
/// handed out it gives nothing and the queue stays empty.
pub proof fn law_queue_run_dequeue(accepted: Seq<Message>, k: int, q0: MessageQueue, r: Option<Message>, q1: MessageQueue)
    requires
        0 <= k <= accepted.len(),
        q0.view() == accepted.skip(k),
        q0.view().len() == 0 ==> r is None && q1.view() == q0.view(),
        q0.view().len() > 0 ==> r == Some(q0.view()[0]) && q1.view() == q0.view().drop_first(),
    ensures
        k < accepted.len() ==> r == Some(accepted[k]) && q1.view() == accepted.skip(k + 1),
        k == accepted.len() ==> r is None && q1.view().len() == 0,
{
    if k < accepted.len() {
        assert(accepted.skip(k).drop_first() =~= accepted.skip(k + 1));
    }
}

} // verus!
