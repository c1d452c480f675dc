//! Capability-based security types: identifiers, rights, capabilities and
//! per-process capability sets.
use vstd::prelude::*;
use crate::types::ipc::EndpointId;
use crate::types::memory::{PhysAddr, SharedMemoryId};
use crate::types::process::ProcessId;

verus! {

/// Unique identifier for a capability; zero is invalid.
#[derive(Debug, Clone, Copy, PartialEq, Eq, PartialOrd, Ord, Hash, Structural)]
pub struct CapabilityId(pub u32);

impl CapabilityId {
    /// The invalid capability ID.
    pub fn invalid() -> (r: Self)
        ensures
            r.0 == 0,
    {
        CapabilityId(0)
    }

    /// Create a capability ID; `None` for zero.
    pub fn new(id: u32) -> (r: Option<Self>)
        ensures
            id == 0 ==> r is None,
            id != 0 ==> r == Some(CapabilityId(id)),
    {
        if id == 0 {
            None
        } else {
            Some(CapabilityId(id))
        }
    }

    /// Create a capability ID without validation.
    pub fn new_unchecked(id: u32) -> (r: Self)
        ensures
            r.0 == id,
    {
        CapabilityId(id)
    }

    /// The raw value.
    pub fn as_u32(self) -> (r: u32)
        ensures
            r == self.0,
    {
        self.0
    }

    /// The raw value widened to `u64`.
    pub fn as_u64(self) -> (r: u64)
        ensures
            r == self.0,
    {
        self.0 as u64
    }

    /// Whether this is a valid capability ID.
    pub fn is_valid(self) -> (r: bool)
        ensures
            r == (self.0 != 0),
    {
        self.0 != 0
    }
}

impl Default for CapabilityId {
    fn default() -> (r: Self)
        ensures
            r.0 == 0,
    {
        CapabilityId(0)
    }
}

/// Kind of resource a capability refers to.
#[derive(Debug, Clone, Copy, PartialEq, Eq, Structural)]
pub enum ResourceType {
    /// IPC endpoint.
    Endpoint,
    /// Memory region.
    Memory,
    /// Hardware interrupt.
    Irq,
    /// I/O port range.
    IoPort,
    /// Process control.
    Process,
    /// Physical memory frame.
    Frame,
    /// Shared memory object.
    SharedMemory,
    /// Device memory mapping.
    DeviceMemory,
    /// Timer resource.
    Timer,
    /// Debug interface.
    Debug,
}

/// The wire number of a resource type.
pub open spec fn resource_code(t: ResourceType) -> u32 {
    match t {
        ResourceType::Endpoint => 1,
        ResourceType::Memory => 2,
        ResourceType::Irq => 3,
        ResourceType::IoPort => 4,
        ResourceType::Process => 5,
        ResourceType::Frame => 6,
        ResourceType::SharedMemory => 7,
        ResourceType::DeviceMemory => 8,
        ResourceType::Timer => 9,
        ResourceType::Debug => 10,
    }
}

impl ResourceType {
    /// The resource type with the given wire number.
    pub fn from_u32(value: u32) -> (r: Option<Self>)
        ensures
            (1 <= value <= 10) <==> r is Some,
            r matches Some(t) ==> resource_code(t) == value,
    {
        match value {
            1 => Some(ResourceType::Endpoint),
            2 => Some(ResourceType::Memory),
            3 => Some(ResourceType::Irq),
            4 => Some(ResourceType::IoPort),
            5 => Some(ResourceType::Process),
            6 => Some(ResourceType::Frame),
            7 => Some(ResourceType::SharedMemory),
            8 => Some(ResourceType::DeviceMemory),
            9 => Some(ResourceType::Timer),
            10 => Some(ResourceType::Debug),
            _ => None,
        }
    }

    /// The wire number.
    pub fn as_u32(self) -> (r: u32)
        ensures
            r == resource_code(self),
    {
        match self {
            ResourceType::Endpoint => 1,
            ResourceType::Memory => 2,
            ResourceType::Irq => 3,
            ResourceType::IoPort => 4,
            ResourceType::Process => 5,
            ResourceType::Frame => 6,
            ResourceType::SharedMemory => 7,
            ResourceType::DeviceMemory => 8,
            ResourceType::Timer => 9,
            ResourceType::Debug => 10,
        }
    }
}

/// Read access.
pub const RIGHT_READ: u32 = 0x1;
/// Write access.
pub const RIGHT_WRITE: u32 = 0x2;
/// Execute access.
pub const RIGHT_EXECUTE: u32 = 0x4;
/// Grant the capability to others.
pub const RIGHT_GRANT: u32 = 0x8;
/// Delete the resource.
pub const RIGHT_DELETE: u32 = 0x10;
/// Map memory.
pub const RIGHT_MAP: u32 = 0x20;
/// Unmap memory.
pub const RIGHT_UNMAP: u32 = 0x40;
/// Send messages.
pub const RIGHT_SEND: u32 = 0x80;
/// Receive messages.
pub const RIGHT_RECEIVE: u32 = 0x100;
/// Call: send and receive.
pub const RIGHT_CALL: u32 = 0x180;
/// Reply to messages.
pub const RIGHT_REPLY: u32 = 0x200;
/// Control a process.
pub const RIGHT_CONTROL: u32 = 0x400;
/// Debug a process.
pub const RIGHT_DEBUG: u32 = 0x800;
/// Allocate from the resource.
pub const RIGHT_ALLOCATE: u32 = 0x1000;
/// Configure the resource.
pub const RIGHT_CONFIGURE: u32 = 0x2000;
/// Share the resource.
pub const RIGHT_SHARE: u32 = 0x4000;
/// Every right.
pub const RIGHT_ALL: u32 = 0xFFFF_FFFF;

/// Whether the bit set `a` holds every bit of `b`.
pub open spec fn has_all(a: u32, b: u32) -> bool {
    a & b == b
}

/// Rights granted by a capability, a set of the bits above.
#[derive(Debug, Clone, Copy, PartialEq, Eq, Structural)]
pub struct Rights(pub u32);

impl Rights {
    /// No right.
    pub fn empty() -> (r: Self)
        ensures
            r.0 == 0,
    {
        Rights(0)
    }

    /// Every right.
    pub fn all() -> (r: Self)
        ensures
            r.0 == RIGHT_ALL,
    {
        Rights(RIGHT_ALL)
    }

    /// The raw bits.
    pub fn bits(self) -> (r: u32)
        ensures
            r == self.0,
    {
        self.0
    }

    /// The rights named by `bits`; every bit is a defined right.
    pub fn from_bits_truncate(bits: u32) -> (r: Self)
        ensures
            r.0 == bits,
    {
        Rights(bits)
    }

    /// Whether every right of `other` is held.
    pub fn contains(self, other: Rights) -> (r: bool)
        ensures
            r == has_all(self.0, other.0),
    {
        self.0 & other.0 == other.0
    }

    /// Whether some right of `other` is held.
    pub fn intersects(self, other: Rights) -> (r: bool)
        ensures
            r == (self.0 & other.0 != 0),
    {
        self.0 & other.0 != 0
    }

    /// Whether no right is held.
    pub fn is_empty(self) -> (r: bool)
        ensures
            r == (self.0 == 0),
    {
        self.0 == 0
    }

    /// The rights of both.
    pub fn union(self, other: Rights) -> (r: Self)
        ensures
            r.0 == self.0 | other.0,
    {
        Rights(self.0 | other.0)
    }

    /// Read-only access.
    pub fn read_only() -> (r: Self)
        ensures
            r.0 == RIGHT_READ,
    {
        Rights(RIGHT_READ)
    }

    /// Read-write access.
    pub fn read_write() -> (r: Self)
        ensures
            r.0 == RIGHT_READ | RIGHT_WRITE,
    {
        Rights::from_bits_truncate(RIGHT_READ | RIGHT_WRITE)
    }

    /// Read, write and execute access.
    pub fn full_access() -> (r: Self)
        ensures
            r.0 == RIGHT_READ | RIGHT_WRITE | RIGHT_EXECUTE,
    {
        Rights::from_bits_truncate(RIGHT_READ | RIGHT_WRITE | RIGHT_EXECUTE)
    }

    /// Send-only access.
    pub fn send_only() -> (r: Self)
        ensures
            r.0 == RIGHT_SEND,
    {
        Rights(RIGHT_SEND)
    }

    /// Receive-only access.
    pub fn receive_only() -> (r: Self)
        ensures
            r.0 == RIGHT_RECEIVE,
    {
        Rights(RIGHT_RECEIVE)
    }

    /// Call access: send and receive.
    pub fn call_access() -> (r: Self)
        ensures
            r.0 == RIGHT_CALL,
    {
        Rights(RIGHT_CALL)
    }

    /// Whether reading is allowed.
    pub fn can_read(self) -> (r: bool)
        ensures
            r == has_all(self.0, RIGHT_READ),
    {
        self.contains(Rights(RIGHT_READ))
    }

    /// Whether writing is allowed.
    pub fn can_write(self) -> (r: bool)
        ensures
            r == has_all(self.0, RIGHT_WRITE),
    {
        self.contains(Rights(RIGHT_WRITE))
    }

    /// Whether execution is allowed.
    pub fn can_execute(self) -> (r: bool)
        ensures
            r == has_all(self.0, RIGHT_EXECUTE),
    {
        self.contains(Rights(RIGHT_EXECUTE))
    }

    /// Whether granting to others is allowed.
    pub fn can_grant(self) -> (r: bool)
        ensures
            r == has_all(self.0, RIGHT_GRANT),
    {
        self.contains(Rights(RIGHT_GRANT))
    }

    /// Whether deletion is allowed.
    pub fn can_delete(self) -> (r: bool)
        ensures
            r == has_all(self.0, RIGHT_DELETE),
    {
        self.contains(Rights(RIGHT_DELETE))
    }

    /// Whether some IPC operation (send or receive) is allowed.
    pub fn can_ipc(self) -> (r: bool)
        ensures
            r == (self.0 & (RIGHT_SEND | RIGHT_RECEIVE) != 0),
    {
        self.intersects(Rights::from_bits_truncate(RIGHT_SEND | RIGHT_RECEIVE))
    }

    /// These rights with `remove_rights` taken away.
    pub fn derive(self, remove_rights: Rights) -> (r: Self)
        ensures
            r.0 == self.0 & !remove_rights.0,
    {
        Rights::from_bits_truncate(self.0 & !remove_rights.0)
    }

    /// The rights held by both.
    pub fn intersect(self, other: Rights) -> (r: Self)
        ensures
            r.0 == self.0 & other.0,
    {
        Rights::from_bits_truncate(self.0 & other.0)
    }
}

/// Deriving or intersecting never adds a right.
pub proof fn lemma_rights_shrink(a: u32, b: u32)
    ensures
        has_all(a, a & !b),
        has_all(a, a & b),
        has_all(b, a & b),
        (a & !b) & b == 0,
{
    assert(a & (a & !b) == a & !b) by (bit_vector);
    assert(a & (a & b) == a & b) by (bit_vector);
    assert(b & (a & b) == a & b) by (bit_vector);
    assert((a & !b) & b == 0) by (bit_vector);
}

/// Memory capability data: region size and protection flags.
#[derive(Debug, Clone, Copy)]
pub struct MemoryCapData {
    /// Size of the memory region.
    pub size: u32,
    /// Memory protection flags.
    pub protection: u32,
}

/// Endpoint capability data.
#[derive(Debug, Clone, Copy)]
pub struct EndpointCapData {
    /// Endpoint ID.
    pub endpoint_id: EndpointId,
    /// Reserved.
    pub reserved: u32,
}

/// IRQ capability data.
#[derive(Debug, Clone, Copy)]
pub struct IrqCapData {
    /// IRQ number.
    pub irq_number: u8,
    /// IRQ flags.
    pub flags: u8,
    /// Reserved.
    pub reserved: [u8; 6],
}

/// I/O port capability data.
#[derive(Debug, Clone, Copy)]
pub struct IoPortCapData {
    /// First port.
    pub start_port: u16,
    /// Number of consecutive ports.
    pub port_count: u16,
    /// Reserved.
    pub reserved: u32,
}

/// Process capability data.
#[derive(Debug, Clone, Copy)]
pub struct ProcessCapData {
    /// Target process ID.
    pub process_id: ProcessId,
    /// Reserved.
    pub reserved: [u8; 6],
}

/// The eight bytes of resource-specific data stored with a capability, kept
/// as one little-endian word; the typed views below read and write its
/// fields at their byte offsets.
#[derive(Debug, Clone, Copy)]
pub struct CapabilityData {
    /// The raw eight bytes.
    pub raw: u64,
}

impl CapabilityData {
    /// All-zero data.
    pub fn zero() -> (r: Self)
        ensures
            r.raw == 0,
    {
        CapabilityData { raw: 0 }
    }

    /// Data holding a memory record: size in the low half, protection in the
    /// high half.
    pub fn from_memory(d: MemoryCapData) -> (r: Self)
        ensures
            r.raw == d.size as u64 | ((d.protection as u64) << 32u64),
    {
        CapabilityData { raw: d.size as u64 | ((d.protection as u64) << 32u64) }
    }

    /// Data holding an endpoint record.
    pub fn from_endpoint(d: EndpointCapData) -> (r: Self)
        ensures
            r.raw == d.endpoint_id.0 as u64 | ((d.reserved as u64) << 32u64),
    {
        CapabilityData { raw: d.endpoint_id.0 as u64 | ((d.reserved as u64) << 32u64) }
    }

    /// The memory record held in the data.
    pub fn memory(self) -> (r: MemoryCapData)
        ensures
            r.size == (self.raw & 0xFFFF_FFFF) as u32,
            r.protection == (self.raw >> 32u64) as u32,
    {
        MemoryCapData { size: (self.raw & 0xFFFF_FFFF) as u32, protection: (self.raw >> 32u64) as u32 }
    }

    /// The endpoint record held in the data.
    pub fn endpoint(self) -> (r: EndpointCapData)
        ensures
            r.endpoint_id.0 == (self.raw & 0xFFFF_FFFF) as u32,
            r.reserved == (self.raw >> 32u64) as u32,
    {
        EndpointCapData {
            endpoint_id: EndpointId((self.raw & 0xFFFF_FFFF) as u32),
            reserved: (self.raw >> 32u64) as u32,
        }
    }

    /// The IRQ number held in the first byte.
    pub fn irq_number(self) -> (r: u8)
        ensures
            r == (self.raw & 0xFF) as u8,
    {
        (self.raw & 0xFF) as u8
    }

    /// The process ID held in the first two bytes.
    pub fn process_id(self) -> (r: ProcessId)
        ensures
            r.0 == (self.raw & 0xFFFF) as u16,
    {
        ProcessId((self.raw & 0xFFFF) as u16)
    }
}

impl Default for CapabilityData {
    fn default() -> (r: Self)
        ensures
            r.raw == 0,
    {
        CapabilityData { raw: 0 }
    }
}

/// A capability: the right to access one resource instance.
#[derive(Debug, Clone, Copy)]
pub struct Capability {
    /// Unique capability identifier.
    pub id: CapabilityId,
    /// Kind of resource.
    pub resource_type: ResourceType,
    /// Rights granted.
    pub rights: Rights,
    /// The resource instance.
    pub resource_id: u64,
    /// Resource-specific data.
    pub data: CapabilityData,
}

/// The capability `Capability::new` builds.
pub open spec fn new_capability(id: CapabilityId, t: ResourceType, rights: Rights, resource_id: u64, raw: u64) -> Capability {
    Capability { id, resource_type: t, rights, resource_id, data: CapabilityData { raw } }
}

impl Capability {
    /// A capability with zero data.
    pub fn new(id: CapabilityId, resource_type: ResourceType, rights: Rights, resource_id: u64) -> (r: Self)
        ensures
            r == new_capability(id, resource_type, rights, resource_id, 0),
    {
        Capability { id, resource_type, rights, resource_id, data: CapabilityData { raw: 0 } }
    }

    /// An endpoint capability; its data records the endpoint ID.
    pub fn endpoint(id: CapabilityId, endpoint_id: EndpointId, rights: Rights) -> (r: Self)
        ensures
            r == new_capability(id, ResourceType::Endpoint, rights, endpoint_id.0 as u64, endpoint_id.0 as u64),
    {
        let mut cap = Self::new(id, ResourceType::Endpoint, rights, endpoint_id.as_u64());
        cap.data = CapabilityData::from_endpoint(EndpointCapData { endpoint_id, reserved: 0 });
        proof {
            let e = endpoint_id.0 as u64;
            assert(e | (0u64 << 32u64) == e) by (bit_vector);
        }
        cap
    }

    /// A memory capability; its data records size and protection.
    pub fn memory(id: CapabilityId, phys_addr: PhysAddr, size: u32, rights: Rights, protection: u32) -> (r: Self)
        ensures
            r == new_capability(id, ResourceType::Memory, rights, phys_addr.0,
                size as u64 | ((protection as u64) << 32u64)),
    {
        let mut cap = Self::new(id, ResourceType::Memory, rights, phys_addr.as_u64());
        cap.data = CapabilityData::from_memory(MemoryCapData { size, protection });
        cap
    }

    /// An IRQ capability; its data records the IRQ number.
    pub fn irq(id: CapabilityId, irq_number: u8, rights: Rights) -> (r: Self)
        ensures
            r == new_capability(id, ResourceType::Irq, rights, irq_number as u64, irq_number as u64),
    {
        let mut cap = Self::new(id, ResourceType::Irq, rights, irq_number as u64);
        cap.data = CapabilityData { raw: irq_number as u64 };
        cap
    }

    /// An I/O port capability; its data records the port range.
    pub fn ioport(id: CapabilityId, start_port: u16, port_count: u16, rights: Rights) -> (r: Self)
        ensures
            r == new_capability(id, ResourceType::IoPort, rights, start_port as u64,
                start_port as u64 | ((port_count as u64) << 16u64)),
    {
        let mut cap = Self::new(id, ResourceType::IoPort, rights, start_port as u64);
        cap.data = CapabilityData { raw: start_port as u64 | ((port_count as u64) << 16u64) };
        cap
    }

    /// A process capability; its data records the process ID.
    pub fn process(id: CapabilityId, process_id: ProcessId, rights: Rights) -> (r: Self)
        ensures
            r == new_capability(id, ResourceType::Process, rights, process_id.0 as u64, process_id.0 as u64),
    {
        let mut cap = Self::new(id, ResourceType::Process, rights, process_id.as_u64());
        cap.data = CapabilityData { raw: process_id.0 as u64 };
        cap
    }

    /// A shared memory capability.
    pub fn shared_memory(id: CapabilityId, shared_mem_id: SharedMemoryId, rights: Rights) -> (r: Self)
        ensures
            r == new_capability(id, ResourceType::SharedMemory, rights, shared_mem_id.0 as u64, 0),
    {
        Self::new(id, ResourceType::SharedMemory, rights, shared_mem_id.as_u32() as u64)
    }

    /// Whether the capability ID is valid.
    pub fn is_valid(self) -> (r: bool)
        ensures
            r == (self.id.0 != 0),
    {
        self.id.is_valid()
    }

    /// Whether every right of `right` is granted.
    pub fn has_right(self, right: Rights) -> (r: bool)
        ensures
            r == has_all(self.rights.0, right.0),
    {
        self.rights.contains(right)
    }

    /// Whether the capability may be granted to others.
    pub fn can_grant(self) -> (r: bool)
        ensures
            r == has_all(self.rights.0, RIGHT_GRANT),
    {
        self.has_right(Rights(RIGHT_GRANT))
    }

    /// The same capability with its rights cut down to those also in
    /// `new_rights`.
    pub fn derive(self, new_rights: Rights) -> (r: Self)
        ensures
            r == (Capability { rights: Rights(self.rights.0 & new_rights.0), ..self }),
    {
        Capability {
            id: self.id,
            resource_type: self.resource_type,
            rights: self.rights.intersect(new_rights),
            resource_id: self.resource_id,
            data: self.data,
        }
    }

    /// The endpoint ID recorded in an endpoint capability.
    pub fn endpoint_id(self) -> (r: Option<EndpointId>)
        ensures
            self.resource_type == ResourceType::Endpoint ==> r == Some(EndpointId((self.data.raw & 0xFFFF_FFFF) as u32)),
            self.resource_type != ResourceType::Endpoint ==> r is None,
    {
        match self.resource_type {
            ResourceType::Endpoint => Some(self.data.endpoint().endpoint_id),
            _ => None,
        }
    }

    /// The region size recorded in a memory capability.
    pub fn memory_size(self) -> (r: Option<u32>)
        ensures
            self.resource_type == ResourceType::Memory ==> r == Some((self.data.raw & 0xFFFF_FFFF) as u32),
            self.resource_type != ResourceType::Memory ==> r is None,
    {
        match self.resource_type {
            ResourceType::Memory => Some(self.data.memory().size),
            _ => None,
        }
    }

    /// The IRQ number recorded in an IRQ capability.
    pub fn irq_number(self) -> (r: Option<u8>)
        ensures
            self.resource_type == ResourceType::Irq ==> r == Some((self.data.raw & 0xFF) as u8),
            self.resource_type != ResourceType::Irq ==> r is None,
    {
        match self.resource_type {
            ResourceType::Irq => Some(self.data.irq_number()),
            _ => None,
        }
    }

    /// The process ID recorded in a process capability.
    pub fn process_id(self) -> (r: Option<ProcessId>)
        ensures
            self.resource_type == ResourceType::Process ==> r == Some(ProcessId((self.data.raw & 0xFFFF) as u16)),
            self.resource_type != ResourceType::Process ==> r is None,
    {
        match self.resource_type {
            ResourceType::Process => Some(self.data.process_id()),
            _ => None,
        }
    }
}

/// A capability built for a record reads that record back.
pub proof fn lemma_capability_data_roundtrip(e: u32, size: u32, prot: u32, irq: u8, pid: u16)
    ensures
        ((e as u64 | (0u64 << 32u64)) & 0xFFFF_FFFF) as u32 == e,
        ((size as u64 | ((prot as u64) << 32u64)) & 0xFFFF_FFFF) as u32 == size,
        ((size as u64 | ((prot as u64) << 32u64)) >> 32u64) as u32 == prot,
        ((irq as u64) & 0xFF) as u8 == irq,
        ((pid as u64) & 0xFFFF) as u16 == pid,
{
    let ee = e as u64;
    let s = size as u64;
    let p = prot as u64;
    let i = irq as u64;
    let q = pid as u64;
    assert((ee | (0u64 << 32u64)) & 0xFFFF_FFFF == ee) by (bit_vector) requires ee <= 0xFFFF_FFFF;
    assert((s | (p << 32u64)) & 0xFFFF_FFFF == s) by (bit_vector) requires s <= 0xFFFF_FFFF, p <= 0xFFFF_FFFF;
    assert((s | (p << 32u64)) >> 32u64 == p) by (bit_vector) requires s <= 0xFFFF_FFFF, p <= 0xFFFF_FFFF;
    assert(i & 0xFF == i) by (bit_vector) requires i <= 0xFF;
    assert(q & 0xFFFF == q) by (bit_vector) requires q <= 0xFFFF;
}

/// Whether a slot holds a capability with ID `id`.
pub open spec fn holds_id(slot: Option<Capability>, id: CapabilityId) -> bool {
    slot matches Some(c) && c.id == id
}

/// Whether a slot holds a capability for the given resource.
pub open spec fn holds_resource(slot: Option<Capability>, t: ResourceType, rid: u64) -> bool {
    slot matches Some(c) && c.resource_type == t && c.resource_id == rid
}

/// Number of slots in a capability set.
pub const CAPABILITY_SLOTS: usize = 1024;

/// Number of occupied slots.
pub open spec fn count_some(s: Seq<Option<Capability>>) -> nat
    decreases s.len(),
{
    if s.len() == 0 {
        0
    } else {
        count_some(s.drop_last()) + if s.last() is Some { 1nat } else { 0nat }
    }
}

/// The occupied count never exceeds the number of slots, and equals it
/// exactly when every slot is occupied.
pub proof fn lemma_count_some_bound(s: Seq<Option<Capability>>)
    ensures
        count_some(s) <= s.len(),
        count_some(s) == s.len() ==> forall|i: int| 0 <= i < s.len() ==> #[trigger] s[i] is Some,
        (forall|i: int| 0 <= i < s.len() ==> #[trigger] s[i] is Some) ==> count_some(s) == s.len(),
    decreases s.len(),
{
    if s.len() > 0 {
        lemma_count_some_bound(s.drop_last());
        if forall|i: int| 0 <= i < s.len() ==> #[trigger] s[i] is Some {
            assert forall|i: int| 0 <= i < s.drop_last().len() implies #[trigger] s.drop_last()[i] is Some by {
                assert(s[i] is Some);
            }
        }
        if count_some(s) == s.len() {
            assert forall|i: int| 0 <= i < s.len() implies #[trigger] s[i] is Some by {
                if i < s.len() - 1 {
                    assert(s.drop_last()[i] == s[i]);
                }
            }
        }
    }
}

/// Updating one slot changes the occupied count by the change at that slot.
pub proof fn lemma_count_some_update(s: Seq<Option<Capability>>, i: int, v: Option<Capability>)
    requires
        0 <= i < s.len(),
    ensures
        count_some(s.update(i, v)) + (if s[i] is Some { 1int } else { 0int })
            == count_some(s) + (if v is Some { 1int } else { 0int }),
    decreases s.len(),
{
    if i == s.len() - 1 {
        assert(s.update(i, v).drop_last() =~= s.drop_last());
    } else {
        lemma_count_some_update(s.drop_last(), i, v);
        assert(s.update(i, v).drop_last() =~= s.drop_last().update(i, v));
    }
}

/// `n` slots holding `g` in order, then empty slots.
pub open spec fn packed(g: Seq<Capability>, n: nat) -> Seq<Option<Capability>> {
    Seq::new(n, |i: int| if i < g.len() { Some(g[i]) } else { None })
}

/// A packed set has as many occupied slots as capabilities.
pub proof fn lemma_count_packed(g: Seq<Capability>, n: nat)
    requires
        g.len() <= n,
    ensures
        count_some(packed(g, n)) == g.len(),
    decreases n,
{
    if n > 0 {
        if g.len() == n {
            lemma_count_packed(g.drop_last(), (n - 1) as nat);
            assert(packed(g, n).drop_last() =~= packed(g.drop_last(), (n - 1) as nat));
        } else {
            lemma_count_packed(g, (n - 1) as nat);
            assert(packed(g, n).drop_last() =~= packed(g, (n - 1) as nat));
        }
    }
}

/// What `inherit` passes on from the slots `s`: every capability holding
/// GRANT, in slot order, with GRANT taken away.
pub open spec fn inherited(s: Seq<Option<Capability>>) -> Seq<Capability>
    decreases s.len(),
{
    if s.len() == 0 {
        Seq::empty()
    } else {
        let rest = inherited(s.drop_last());
        match s.last() {
            Some(c) => if has_all(c.rights.0, RIGHT_GRANT) {
                rest.push(Capability { rights: Rights(c.rights.0 & (c.rights.0 & !RIGHT_GRANT)), ..c })
            } else {
                rest
            },
            None => rest,
        }
    }
}

/// Fewer capabilities are inherited than there are slots.
pub proof fn lemma_inherited_len(s: Seq<Option<Capability>>)
    ensures
        inherited(s).len() <= s.len(),
    decreases s.len(),
{
    if s.len() > 0 {
        lemma_inherited_len(s.drop_last());
    }
}

/// The capabilities owned by a process, in a fixed table of 1024 slots.
#[derive(Debug, Clone)]
pub struct CapabilitySet {
    capabilities: Vec<Option<Capability>>,
    count: usize,
}

impl CapabilitySet {
    /// The table has 1024 slots and `count` is the number occupied.
    pub closed spec fn wf(&self) -> bool {
        &&& self.capabilities@.len() == CAPABILITY_SLOTS
        &&& self.count == count_some(self.capabilities@)
    }

    /// The slots.
    pub closed spec fn view(&self) -> Seq<Option<Capability>> {
        self.capabilities@
    }

    /// The number of occupied slots.
    pub open spec fn spec_len(&self) -> nat {
        count_some(self.view())
    }

    /// An empty set.
    pub fn new() -> (r: Self)
        ensures
            r.wf(),
            r.view() == packed(Seq::empty(), 1024),
            r.spec_len() == 0,
    {
        let mut capabilities: Vec<Option<Capability>> = Vec::new();
        let mut i: usize = 0;
        while i < CAPABILITY_SLOTS
            invariant
                i <= CAPABILITY_SLOTS,
                capabilities@ == packed(Seq::empty(), i as nat),
            decreases CAPABILITY_SLOTS - i,
        {
            capabilities.push(None);
            i = i + 1;
            assert(capabilities@ =~= packed(Seq::empty(), i as nat));
        }
        proof { lemma_count_packed(Seq::empty(), 1024); }
        CapabilitySet { capabilities, count: 0 }
    }

    /// The set given to the init process: call access to the process,
    /// memory and VFS servers, as capabilities 1, 2 and 3.
    pub fn root() -> (r: Self)
        ensures
            r.wf(),
            r.view() == packed(seq![
                new_capability(CapabilityId(1), ResourceType::Endpoint, Rights(RIGHT_CALL), 1, 1),
                new_capability(CapabilityId(2), ResourceType::Endpoint, Rights(RIGHT_CALL), 2, 2),
                new_capability(CapabilityId(3), ResourceType::Endpoint, Rights(RIGHT_CALL), 3, 3),
            ], 1024),
    {
        let mut set = Self::new();
        let c1 = Capability::endpoint(CapabilityId::new_unchecked(1), EndpointId::well_known(1), Rights(RIGHT_CALL));
        let c2 = Capability::endpoint(CapabilityId::new_unchecked(2), EndpointId::well_known(2), Rights(RIGHT_CALL));
        let c3 = Capability::endpoint(CapabilityId::new_unchecked(3), EndpointId::well_known(3), Rights(RIGHT_CALL));
        let ghost g0: Seq<Capability> = Seq::empty();
        let ghost g1: Seq<Capability> = g0.push(c1);
        let ghost g2: Seq<Capability> = g1.push(c2);
        set.push_packed(c1, Ghost(g0));
        set.push_packed(c2, Ghost(g1));
        set.push_packed(c3, Ghost(g2));
        assert(g2 =~= seq![c1, c2]);
        assert(seq![c1, c2].push(c3) =~= seq![c1, c2, c3]);
        set
    }

    /// Add `capability` to a packed set with room left, in the first free
    /// slot, which is the one after the capabilities held.
    fn push_packed(&mut self, capability: Capability, Ghost(g): Ghost<Seq<Capability>>)
        requires
            old(self).wf(),
            old(self).view() == packed(g, 1024),
            g.len() < 1024,
        ensures
            final(self).wf(),
            final(self).view() == packed(g.push(capability), 1024),
    {
        proof { lemma_count_packed(g, 1024); }
        let r = self.add(capability);
        proof {
            let i = choose|i: int| 0 <= i < old(self).view().len() && old(self).view()[i] is None
                && (forall|j: int| 0 <= j < i ==> old(self).view()[j] is Some)
                && self.view() == old(self).view().update(i, Some(capability));
            if i > g.len() {
                assert(old(self).view()[g.len() as int] is Some);
            }
            assert(self.view() =~= packed(g.push(capability), 1024));
        }
    }

    /// Put `capability` in the first free slot; `Err` when the set is full.
    pub fn add(&mut self, capability: Capability) -> (r: Result<(), ()>)
        requires
            old(self).wf(),
        ensures
            final(self).wf(),
            r is Ok <==> old(self).spec_len() < CAPABILITY_SLOTS,
            r is Err ==> final(self).view() == old(self).view(),
            r is Ok ==> exists|i: int| 0 <= i < old(self).view().len()
                && old(self).view()[i] is None
                && (forall|j: int| 0 <= j < i ==> old(self).view()[j] is Some)
                && final(self).view() == old(self).view().update(i, Some(capability)),
    {
        if self.count >= CAPABILITY_SLOTS {
            return Err(());
        }
        let mut i: usize = 0;
        while i < CAPABILITY_SLOTS
            invariant
                self.wf(),
                self.count < CAPABILITY_SLOTS,
                *self == *old(self),
                i <= CAPABILITY_SLOTS,
                forall|j: int| 0 <= j < i ==> self.view()[j] is Some,
            decreases CAPABILITY_SLOTS - i,
        {
            if self.capabilities[i].is_none() {
                proof { lemma_count_some_update(self.capabilities@, i as int, Some(capability)); }
                self.capabilities.set(i, Some(capability));
                self.count = self.count + 1;
                return Ok(());
            }
            i = i + 1;
        }
        proof { lemma_count_some_bound(self.capabilities@); }
        Err(())
    }

    /// Take the first capability with ID `id` out of the set.
    pub fn remove(&mut self, id: CapabilityId) -> (r: Option<Capability>)
        requires
            old(self).wf(),
        ensures
            final(self).wf(),
            r is None ==> final(self).view() == old(self).view()
                && forall|j: int| 0 <= j < old(self).view().len() ==> !holds_id(old(self).view()[j], id),
            r matches Some(c) ==> c.id == id && exists|i: int| 0 <= i < old(self).view().len()
                && old(self).view()[i] == Some(c)
                && (forall|j: int| 0 <= j < i ==> !holds_id(old(self).view()[j], id))
                && final(self).view() == old(self).view().update(i, None),
    {
        let mut i: usize = 0;
        while i < CAPABILITY_SLOTS
            invariant
                self.wf(),
                *self == *old(self),
                i <= CAPABILITY_SLOTS,
                forall|j: int| 0 <= j < i ==> !holds_id(self.view()[j], id),
            decreases CAPABILITY_SLOTS - i,
        {
            if let Some(cap) = self.capabilities[i] {
                if cap.id == id {
                    proof {
                        lemma_count_some_update(self.capabilities@, i as int, None);
                        lemma_count_some_bound(self.capabilities@);
                    }
                    self.capabilities.set(i, None);
                    self.count = self.count - 1;
                    assert(old(self).view()[i as int] == Some(cap));
                    assert(self.view() == old(self).view().update(i as int, None));
                    return Some(cap);
                }
            }
            i = i + 1;
        }
        None
    }

    /// The first capability with ID `id`.
    pub fn find(&self, id: CapabilityId) -> (r: Option<Capability>)
        requires
            self.wf(),
        ensures
            r is None ==> forall|j: int| 0 <= j < self.view().len() ==> !holds_id(self.view()[j], id),
            r matches Some(c) ==> c.id == id && exists|i: int| 0 <= i < self.view().len()
                && self.view()[i] == Some(c)
                && (forall|j: int| 0 <= j < i ==> !holds_id(self.view()[j], id)),
    {
        let mut i: usize = 0;
        while i < CAPABILITY_SLOTS
            invariant
                self.wf(),
                i <= CAPABILITY_SLOTS,
                forall|j: int| 0 <= j < i ==> !holds_id(self.view()[j], id),
            decreases CAPABILITY_SLOTS - i,
        {
            if let Some(cap) = self.capabilities[i] {
                if cap.id == id {
                    assert(self.view()[i as int] == Some(cap));
                    return Some(cap);
                }
            }
            i = i + 1;
        }
        None
    }

    /// The first capability for the given resource.
    pub fn find_by_resource(&self, resource_type: ResourceType, resource_id: u64) -> (r: Option<Capability>)
        requires
            self.wf(),
        ensures
            r is None ==> forall|j: int| 0 <= j < self.view().len() ==> !holds_resource(self.view()[j], resource_type, resource_id),
            r matches Some(c) ==> c.resource_type == resource_type && c.resource_id == resource_id
                && exists|i: int| 0 <= i < self.view().len() && self.view()[i] == Some(c)
                && (forall|j: int| 0 <= j < i ==> !holds_resource(self.view()[j], resource_type, resource_id)),
    {
        let mut i: usize = 0;
        while i < CAPABILITY_SLOTS
            invariant
                self.wf(),
                i <= CAPABILITY_SLOTS,
                forall|j: int| 0 <= j < i ==> !holds_resource(self.view()[j], resource_type, resource_id),
            decreases CAPABILITY_SLOTS - i,
        {
            if let Some(cap) = self.capabilities[i] {
                if cap.resource_type == resource_type && cap.resource_id == resource_id {
                    assert(self.view()[i as int] == Some(cap));
                    return Some(cap);
                }
            }
            i = i + 1;
        }
        None
    }

    /// The number of capabilities held.
    pub fn len(&self) -> (r: usize)
        requires
            self.wf(),
        ensures
            r == self.spec_len(),
    {
        self.count
    }

    /// Whether no capability is held.
    pub fn is_empty(&self) -> (r: bool)
        requires
            self.wf(),
        ensures
            r == (self.spec_len() == 0),
    {
        self.count == 0
    }

    /// Whether every slot is occupied.
    pub fn is_full(&self) -> (r: bool)
        requires
            self.wf(),
        ensures
            r == (self.spec_len() >= CAPABILITY_SLOTS),
    {
        self.count >= CAPABILITY_SLOTS
    }

    /// The set a child inherits: every capability holding GRANT, with GRANT
    /// taken away, packed in slot order.
    pub fn inherit(&self) -> (r: Self)
        requires
            self.wf(),
        ensures
            r.wf(),
            r.view() == packed(inherited(self.view()), 1024),
    {
        let mut result = Self::new();
        let mut i: usize = 0;
        while i < CAPABILITY_SLOTS
            invariant
                self.wf(),
                result.wf(),
                i <= CAPABILITY_SLOTS,
                result.view() == packed(inherited(self.view().take(i as int)), 1024),
            decreases CAPABILITY_SLOTS - i,
        {
            let ghost g = inherited(self.view().take(i as int));
            proof {
                assert(self.view().take(i as int + 1).drop_last() =~= self.view().take(i as int));
                lemma_inherited_len(self.view().take(i as int));
            }
            if let Some(cap) = self.capabilities[i] {
                if cap.has_right(Rights(RIGHT_GRANT)) {
                    let derived = cap.derive(cap.rights.derive(Rights(RIGHT_GRANT)));
                    result.push_packed(derived, Ghost(g));
                }
            }
            i = i + 1;
        }
        assert(self.view().take(1024) =~= self.view());
        result
    }

    /// Empty every slot.
    pub fn clear(&mut self)
        requires
            old(self).wf(),
        ensures
            final(self).wf(),
            final(self).view() == packed(Seq::empty(), 1024),
    {
        *self = Self::new();
    }

    /// An iterator over the capabilities held, in slot order.
    pub fn iter(&self) -> (r: CapabilityIterator<'_>)
        requires
            self.wf(),
        ensures
            r.valid(),
            r.slots() == self.view(),
            r.position() == 0,
    {
        CapabilityIterator { set: self, index: 0 }
    }
}

/// The first occupied slot at or after `i`, or the number of slots if none.
pub open spec fn first_occupied(s: Seq<Option<Capability>>, i: int) -> int
    decreases s.len() - i,
{
    if i >= s.len() {
        s.len() as int
    } else if s[i] is Some {
        i
    } else {
        first_occupied(s, i + 1)
    }
}

/// Iterator over the capabilities of a set, in slot order.
pub struct CapabilityIterator<'a> {
    set: &'a CapabilitySet,
    index: usize,
}

impl<'a> CapabilityIterator<'a> {
    /// The slots being walked.
    pub closed spec fn slots(&self) -> Seq<Option<Capability>> {
        self.set.view()
    }

    /// The next slot to look at.
    pub closed spec fn position(&self) -> int {
        self.index as int
    }

    /// The set walked is well formed and the position lies within it.
    pub closed spec fn valid(&self) -> bool {
        self.set.wf() && self.index <= CAPABILITY_SLOTS
    }

    /// The capability in the first occupied slot from the position on, the
    /// position moving past it; `None` once no occupied slot is left.
    pub fn next(&mut self) -> (r: Option<Capability>)
        requires
            old(self).valid(),
        ensures
            final(self).valid(),
            final(self).slots() == old(self).slots(),
            ({
                let k = first_occupied(old(self).slots(), old(self).position());
                &&& k < CAPABILITY_SLOTS ==> r == old(self).slots()[k] && final(self).position() == k + 1
                &&& k >= CAPABILITY_SLOTS ==> r is None && final(self).position() == CAPABILITY_SLOTS
            }),
    {
        let ghost k = first_occupied(self.set.view(), self.index as int);
        while self.index < CAPABILITY_SLOTS
            invariant
                self.set.wf(),
                self.set == old(self).set,
                old(self).index <= self.index <= CAPABILITY_SLOTS,
                k == first_occupied(self.set.view(), old(self).index as int),
                first_occupied(self.set.view(), self.index as int) == k,
            decreases CAPABILITY_SLOTS - self.index,
        {
            let i = self.index;
            if let Some(cap) = self.set.capabilities[i] {
                self.index = i + 1;
                return Some(cap);
            }
            self.index = i + 1;
        }
        None
    }
}

impl Default for CapabilitySet {
    fn default() -> (r: Self)
        ensures
            r.wf(),
            r.view() == packed(Seq::empty(), 1024),
    {
        Self::new()
    }
}

/// Whether some slot of `s` holds `c`.
pub open spec fn held(s: Seq<Option<Capability>>, c: Capability) -> bool {
    exists|i: int| 0 <= i < s.len() && s[i] == Some(c)
}

/// Nothing `inherit` passes on still holds GRANT.
pub proof fn lemma_inherited_no_grant(s: Seq<Option<Capability>>)
    ensures
        forall|i: int| 0 <= i < inherited(s).len() ==> !has_all(#[trigger] inherited(s)[i].rights.0, RIGHT_GRANT),
    decreases s.len(),
{
    if s.len() > 0 {
        lemma_inherited_no_grant(s.drop_last());
        if let Some(c) = s.last() {
            let x = c.rights.0;
            assert((x & (x & !0x8u32)) & 0x8u32 != 0x8u32) by (bit_vector);
        }
    }
}

/// Slots none of which holds GRANT pass nothing on.
pub proof fn lemma_inherited_grantless(u: Seq<Option<Capability>>)
    requires
        forall|i: int| 0 <= i < u.len() ==> (#[trigger] u[i] matches Some(c) ==> !has_all(c.rights.0, RIGHT_GRANT)),
    ensures
        inherited(u) == Seq::<Capability>::empty(),
    decreases u.len(),
{
    if u.len() > 0 {
        assert forall|i: int| 0 <= i < u.drop_last().len() implies
            (#[trigger] u.drop_last()[i] matches Some(c) ==> !has_all(c.rights.0, RIGHT_GRANT)) by {
            assert(u.drop_last()[i] == u[i]);
        }
        lemma_inherited_grantless(u.drop_last());
        assert(u[u.len() - 1] == u.last());
    }
}

/// Inheriting twice passes nothing on: what a child inherits holds no
/// GRANT, so a grandchild inherits an empty set.
pub proof fn law_inherit_twice(s: CapabilitySet, c1: CapabilitySet, c2: CapabilitySet)
    requires
        s.wf(),
        c1.view() == packed(inherited(s.view()), 1024),
        c2.view() == packed(inherited(c1.view()), 1024),
    ensures
        forall|i: int| 0 <= i < inherited(s.view()).len() ==> !has_all(#[trigger] inherited(s.view())[i].rights.0, RIGHT_GRANT),
        c2.view() == packed(Seq::empty(), 1024),
        c2.spec_len() == 0,
{
    let g = inherited(s.view());
    lemma_inherited_len(s.view());
    lemma_inherited_no_grant(s.view());
    assert forall|i: int| 0 <= i < c1.view().len() implies
        (#[trigger] c1.view()[i] matches Some(c) ==> !has_all(c.rights.0, RIGHT_GRANT)) by {
        if i < g.len() {
            assert(c1.view()[i] == Some(g[i]));
        }
    }
    lemma_inherited_grantless(c1.view());
    lemma_count_packed(Seq::<Capability>::empty(), 1024);
}

/// Adding to a set with room succeeds, and afterwards the set holds one
/// capability more: exactly those it held and the one added, so walking
/// it yields them; a full set refuses and stays as it was.
pub proof fn law_add_then_held(s0: CapabilitySet, cap: Capability, r: Result<(), ()>, s1: CapabilitySet)
    requires
        s0.wf(),
        r is Ok <==> s0.spec_len() < CAPABILITY_SLOTS,
        r is Err ==> s1.view() == s0.view(),
        r is Ok ==> exists|i: int| 0 <= i < s0.view().len()
            && s0.view()[i] is None
            && (forall|j: int| 0 <= j < i ==> s0.view()[j] is Some)
            && s1.view() == s0.view().update(i, Some(cap)),
    ensures
        r is Err ==> s0.spec_len() == CAPABILITY_SLOTS && s1.view() == s0.view(),
        r is Ok ==> s1.spec_len() == s0.spec_len() + 1
            && forall|c: Capability| #[trigger] held(s1.view(), c) <==> (held(s0.view(), c) || c == cap),
{
    lemma_count_some_bound(s0.view());
    if r is Ok {
        let i = choose|i: int| 0 <= i < s0.view().len()
            && s0.view()[i] is None
            && (forall|j: int| 0 <= j < i ==> s0.view()[j] is Some)
            && s1.view() == s0.view().update(i, Some(cap));
        lemma_count_some_update(s0.view(), i, Some(cap));
        assert forall|c: Capability| #[trigger] held(s1.view(), c) <==> (held(s0.view(), c) || c == cap) by {
            if held(s1.view(), c) {
                let k = choose|k: int| 0 <= k < s1.view().len() && s1.view()[k] == Some(c);
                if k != i {
                    assert(s0.view()[k] == Some(c));
                }
            }
            if held(s0.view(), c) {
                let k = choose|k: int| 0 <= k < s0.view().len() && s0.view()[k] == Some(c);
                assert(k != i);
                assert(s1.view()[k] == Some(c));
            }
            if c == cap {
                assert(s1.view()[i] == Some(c));
            }
        }
    }
}

} // verus!
