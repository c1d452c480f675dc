//! Kernel IPC messages: a 16-byte header and a 48-byte payload read as
//! words, bytes or capability IDs.
use vstd::prelude::*;
use crate::types::process::ProcessId;
use crate::types::ipc::MessageData;
use crate::kernel::capability::CapabilityId;

verus! {

/// Message kinds.
#[derive(Debug, Clone, Copy, PartialEq, Eq, Structural)]
pub enum MessageType {
    Send,
    Call,
    Reply,
    Notify,
}

/// The sender must not block.
pub const KMSG_NO_BLOCK: u32 = 0x1;
/// Deliver before other messages.
pub const KMSG_URGENT: u32 = 0x2;
/// The payload carries capability IDs.
pub const KMSG_CAPABILITY_TRANSFER: u32 = 0x4;
/// The message reports an error.
pub const KMSG_ERROR: u32 = 0x8;

/// Message flag bits.
#[derive(Debug, Clone, Copy, PartialEq, Eq, Structural)]
pub struct MessageFlags(pub u32);

/// Message header.
#[derive(Debug, Clone, Copy)]
pub struct MessageHeader {
    pub msg_type: MessageType,
    pub flags: MessageFlags,
    pub sender: ProcessId,
    pub receiver: ProcessId,
    pub label: u32,
}

/// An IPC message.
#[derive(Debug, Clone, Copy)]
pub struct Message {
    pub header: MessageHeader,
    pub data: MessageData,
}

/// Label of an IRQ notification.
pub const IRQ_LABEL: u32 = 0xFFFF_FFFF;

/// Capability slot `i` (0 to 11) of a payload: the low or high half of a
/// word.
pub open spec fn cap_slot(words: Seq<u64>, i: int) -> u32 {
    if i % 2 == 0 { (words[i / 2] & 0xFFFF_FFFF) as u32 } else { (words[i / 2] >> 32u64) as u32 }
}

impl Message {
    /// A message of type `msg_type` with no flags, invalid sender and
    /// receiver, label 0 and a zero payload.
    pub fn new(msg_type: MessageType) -> (r: Self)
        ensures
            r.header.msg_type == msg_type,
            r.header.flags.0 == 0,
            r.header.sender.0 == 0xFFFF,
            r.header.receiver.0 == 0xFFFF,
            r.header.label == 0,
            forall|i: int| 0 <= i < 6 ==> r.data.words@[i] == 0,
    {
        Message {
            header: MessageHeader {
                msg_type,
                flags: MessageFlags(0),
                sender: ProcessId(0xFFFF),
                receiver: ProcessId(0xFFFF),
                label: 0,
            },
            data: MessageData::empty(),
        }
    }

    /// A success reply: error flag clear, word 0 zero.
    pub fn success() -> (r: Self)
        ensures
            r.header.msg_type == MessageType::Reply,
            r.header.flags.0 == 0,
            r.header.label == 0,
            forall|i: int| 0 <= i < 6 ==> r.data.words@[i] == 0,
    {
        let mut m = Message::new(MessageType::Reply);
        m.set_success();
        assert(0u32 & !KMSG_ERROR == 0) by (bit_vector);
        m
    }

    /// An error reply carrying `error_code` in word 0.
    pub fn error(error_code: u32) -> (r: Self)
        ensures
            r.header.msg_type == MessageType::Reply,
            r.header.flags.0 == KMSG_ERROR,
            r.header.label == 0,
            r.data.words@[0] == error_code as u64,
            forall|i: int| 1 <= i < 6 ==> r.data.words@[i] == 0,
    {
        let mut m = Message::new(MessageType::Reply);
        m.set_error(error_code);
        assert(0u32 | KMSG_ERROR == KMSG_ERROR) by (bit_vector);
        m
    }

    /// Set the label.
    pub fn set_label(&mut self, label: u32)
        ensures
            final(self).header == (MessageHeader { label, ..old(self).header }),
            final(self).data == old(self).data,
    {
        self.header.label = label;
    }

    /// The label.
    pub fn label(&self) -> (r: u32)
        ensures
            r == self.header.label,
    {
        self.header.label
    }

    /// Set the flags.
    pub fn set_flags(&mut self, flags: MessageFlags)
        ensures
            final(self).header == (MessageHeader { flags, ..old(self).header }),
            final(self).data == old(self).data,
    {
        self.header.flags = flags;
    }

    /// The flags.
    pub fn flags(&self) -> (r: MessageFlags)
        ensures
            r == self.header.flags,
    {
        self.header.flags
    }

    /// Set the sender.
    pub fn set_sender(&mut self, sender: ProcessId)
        ensures
            final(self).header == (MessageHeader { sender, ..old(self).header }),
            final(self).data == old(self).data,
    {
        self.header.sender = sender;
    }

    /// The sender.
    pub fn sender(&self) -> (r: ProcessId)
        ensures
            r == self.header.sender,
    {
        self.header.sender
    }

    /// Set payload word `index` (below 6).
    pub fn set_data(&mut self, index: usize, value: u64)
        requires
            index < 6,
        ensures
            final(self).header == old(self).header,
            final(self).data.words@ == old(self).data.words@.update(index as int, value),
    {
        self.data.set_word(index, value);
    }

    /// Payload word `index` (below 6).
    pub fn get_data(&self, index: usize) -> (r: u64)
        requires
            index < 6,
        ensures
            r == self.data.words@[index as int],
    {
        self.data.get_word(index)
    }

    /// Replace the whole payload.
    pub fn set_data_words(&mut self, words: [u64; 6])
        ensures
            final(self).header == old(self).header,
            final(self).data.words == words,
    {
        self.data = MessageData::from_words(words);
    }

    /// The whole payload as words.
    pub fn get_data_words(&self) -> (r: [u64; 6])
        ensures
            r == self.data.words,
    {
        self.data.words
    }

    /// Copy up to 48 bytes into the payload and zero the rest.
    pub fn set_data_bytes(&mut self, bytes: &[u8])
        ensures
            final(self).header == old(self).header,
            forall|i: int| 0 <= i < 48 ==> #[trigger] final(self).data.bytes()[i]
                == if i < bytes@.len() { bytes@[i] } else { 0u8 },
    {
        let len: usize = if bytes.len() < 48 { bytes.len() } else { 48 };
        let mut i: usize = 0;
        while i < 48
            invariant
                i <= 48,
                len == (if bytes@.len() < 48 { bytes@.len() } else { 48 }),
                self.header == old(self).header,
                forall|j: int| 0 <= j < i ==> #[trigger] self.data.bytes()[j]
                    == if j < bytes@.len() { bytes@[j] } else { 0u8 },
            decreases 48 - i,
        {
            if i < len {
                self.data.set_byte(i, bytes[i]);
            } else {
                self.data.set_byte(i, 0);
            }
            i = i + 1;
        }
    }

    /// The 48 payload bytes.
    pub fn get_data_bytes(&self) -> (r: [u8; 48])
        ensures
            r@ == self.data.bytes(),
    {
        let mut out = [0u8; 48];
        let mut i: usize = 0;
        while i < 48
            invariant
                i <= 48,
                out@.len() == 48,
                forall|j: int| 0 <= j < i ==> out@[j] == self.data.bytes()[j],
            decreases 48 - i,
        {
            out[i] = self.data.get_byte(i);
            i = i + 1;
        }
        assert(out@ =~= self.data.bytes());
        out
    }

    /// Put capability `cap` in payload slot `index` (below 12) and mark the
    /// message as transferring capabilities.
    pub fn set_capability(&mut self, index: usize, cap: CapabilityId)
        requires
            index < 12,
        ensures
            final(self).header == (MessageHeader { flags: MessageFlags(old(self).header.flags.0 | KMSG_CAPABILITY_TRANSFER), ..old(self).header }),
            forall|i: int| 0 <= i < 12 ==> #[trigger] cap_slot(final(self).data.words@, i)
                == if i == index { cap.0 } else { cap_slot(old(self).data.words@, i) },
    {
        let w = self.data.words[index / 2];
        let c = cap.0 as u64;
        let nw: u64 = if index % 2 == 0 {
            (w & 0xFFFF_FFFF_0000_0000) | c
        } else {
            (w & 0xFFFF_FFFF) | (c << 32u64)
        };
        proof {
            assert(c <= 0xFFFF_FFFF);
            assert(((w & 0xFFFF_FFFF_0000_0000) | c) & 0xFFFF_FFFF == c && ((w & 0xFFFF_FFFF_0000_0000) | c) >> 32u64 == w >> 32u64)
                by (bit_vector) requires c <= 0xFFFF_FFFF;
            assert(((w & 0xFFFF_FFFF) | (c << 32u64)) >> 32u64 == c && ((w & 0xFFFF_FFFF) | (c << 32u64)) & 0xFFFF_FFFF == w & 0xFFFF_FFFF)
                by (bit_vector) requires c <= 0xFFFF_FFFF;
        }
        self.data.words[index / 2] = nw;
        self.header.flags = MessageFlags(self.header.flags.0 | KMSG_CAPABILITY_TRANSFER);
    }

    /// The capability in payload slot `index` (below 12).
    pub fn get_capability(&self, index: usize) -> (r: CapabilityId)
        requires
            index < 12,
        ensures
            r.0 == cap_slot(self.data.words@, index as int),
    {
        let w = self.data.words[index / 2];
        if index % 2 == 0 {
            CapabilityId((w & 0xFFFF_FFFF) as u32)
        } else {
            CapabilityId((w >> 32u64) as u32)
        }
    }

    /// Mark as a success: error flag cleared, word 0 set to 0.
    pub fn set_success(&mut self)
        ensures
            final(self).header == (MessageHeader { flags: MessageFlags(old(self).header.flags.0 & !KMSG_ERROR), ..old(self).header }),
            final(self).data.words@ == old(self).data.words@.update(0, 0),
    {
        self.header.flags = MessageFlags(self.header.flags.0 & !KMSG_ERROR);
        self.set_data(0, 0);
    }

    /// Mark as an error with code `error_code` in word 0.
    pub fn set_error(&mut self, error_code: u32)
        ensures
            final(self).header == (MessageHeader { flags: MessageFlags(old(self).header.flags.0 | KMSG_ERROR), ..old(self).header }),
            final(self).data.words@ == old(self).data.words@.update(0, error_code as u64),
    {
        self.header.flags = MessageFlags(self.header.flags.0 | KMSG_ERROR);
        self.set_data(0, error_code as u64);
    }

    /// Whether the error flag is set.
    pub fn is_error(&self) -> (r: bool)
        ensures
            r == (self.header.flags.0 & KMSG_ERROR == KMSG_ERROR),
    {
        self.header.flags.0 & KMSG_ERROR == KMSG_ERROR
    }

    /// The error code (word 0, truncated) of an error message.
    pub fn error_code(&self) -> (r: Option<u32>)
        ensures
            r == (if self.header.flags.0 & KMSG_ERROR == KMSG_ERROR { Some(self.data.words@[0] as u32) } else { None }),
    {
        if self.is_error() {
            Some(self.get_data(0) as u32)
        } else {
            None
        }
    }

    /// Whether this is an IRQ notification: a notify with the IRQ label.
    pub fn is_irq_notification(&self) -> (r: bool)
        ensures
            r == (self.header.msg_type == MessageType::Notify && self.header.label == IRQ_LABEL),
    {
        self.header.msg_type == MessageType::Notify && self.header.label == IRQ_LABEL
    }
}

} // verus!
