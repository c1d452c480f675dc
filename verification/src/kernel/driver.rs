//! Device-driver registry: which user process drives which devices, in
//! what state, with what permissions.
use vstd::prelude::*;
use crate::types::DriverId;
use crate::types::process::ProcessId;
use crate::types::ipc::EndpointId;

verus! {

/// I/O port range a driver may use, both ends included.
#[derive(Debug, Clone, Copy, PartialEq, Eq, Structural)]
pub struct PortRange {
    pub start: u16,
    pub end: u16,
}

/// A driver's permissions.
#[derive(Debug, Clone, Copy, PartialEq, Eq, Structural)]
pub struct DriverCapabilities {
    pub can_access_memory: bool,
    pub can_handle_interrupts: bool,
    pub can_perform_dma: bool,
    pub max_memory_regions: usize,
    pub allowed_ports: PortRange,
}

/// Driver lifecycle states.
#[derive(Debug, Clone, Copy, PartialEq, Eq, Structural)]
pub enum DriverState {
    Unloaded,
    Loading,
    Ready,
    Active,
    Suspended,
    Error,
    Unloading,
}

/// Device classes a driver can serve.
#[derive(Debug, Clone, Copy, PartialEq, Eq, PartialOrd, Ord, Hash, Structural)]
pub enum DeviceClass {
    Storage,
    Network,
    Display,
    Input,
    Audio,
    Timer,
    Interrupt,
    Memory,
    Power,
    Sensor,
}

/// A registered driver.
#[derive(Debug, Clone)]
pub struct DriverInfo {
    pub id: DriverId,
    pub name: String,
    pub version: String,
    pub process_id: ProcessId,
    pub capabilities: DriverCapabilities,
    pub state: DriverState,
    pub device_classes: Vec<DeviceClass>,
}

/// How to reach a driver.
pub struct DriverInterface {
    pub endpoint: EndpointId,
    pub driver_id: DriverId,
}

/// Operations that need a driver permission.
#[derive(Debug, Clone, Copy, PartialEq, Eq, Structural)]
pub enum DriverOperation {
    AccessMemory,
    HandleInterrupts,
    PerformDMA,
    AccessPorts(u16),
}

/// Driver registry failures.
#[derive(Debug, Clone, Copy, PartialEq, Eq, Structural)]
pub enum DriverError {
    DriverNotFound,
    ProcessAlreadyRegistered,
    InsufficientCapabilities,
    InvalidState,
    ResourceBusy,
}

/// The drivers registered for `class`, in registration order, a driver
/// listed once per time it named the class.
pub open spec fn class_list(ds: Seq<DriverInfo>, class: DeviceClass) -> Seq<DriverId>
    decreases ds.len(),
{
    if ds.len() == 0 {
        Seq::empty()
    } else {
        let last = ds.last();
        class_list(ds.drop_last(), class)
            + Seq::new(occurrences(last.device_classes@, class), |i: int| last.id)
    }
}

/// How many times `class` occurs in `s`.
pub open spec fn occurrences(s: Seq<DeviceClass>, class: DeviceClass) -> nat
    decreases s.len(),
{
    if s.len() == 0 { 0 } else { occurrences(s.drop_last(), class) + if s.last() == class { 1nat } else { 0nat } }
}

/// The IDs of the active drivers, in registration order.
pub open spec fn active_list(ds: Seq<DriverInfo>) -> Seq<DriverId>
    decreases ds.len(),
{
    if ds.len() == 0 {
        Seq::empty()
    } else {
        let rest = active_list(ds.drop_last());
        if ds.last().state == DriverState::Active { rest.push(ds.last().id) } else { rest }
    }
}

/// Whether the permissions allow `op`.
pub open spec fn permits(c: DriverCapabilities, op: DriverOperation) -> bool {
    match op {
        DriverOperation::AccessMemory => c.can_access_memory,
        DriverOperation::HandleInterrupts => c.can_handle_interrupts,
        DriverOperation::PerformDMA => c.can_perform_dma,
        DriverOperation::AccessPorts(port) => c.allowed_ports.start <= port <= c.allowed_ports.end,
    }
}

/// The index of driver `id` in `ds`, if registered.
pub open spec fn index_of(ds: Seq<DriverInfo>, id: u32) -> Option<int> {
    if exists|i: int| 0 <= i < ds.len() && ds[i].id.0 == id {
        Some(choose|i: int| 0 <= i < ds.len() && ds[i].id.0 == id)
    } else {
        None
    }
}

/// The registered drivers, in registration order (which is also ID order),
/// and the next driver ID.
pub struct DriverRegistry {
    drivers: Vec<DriverInfo>,
    next_driver_id: u32,
}

impl DriverRegistry {
    /// IDs increase along the list and stay below the next ID, and no
    /// process drives twice.
    pub closed spec fn wf(&self) -> bool {
        &&& forall|i: int, j: int| 0 <= i < j < self.drivers@.len() ==> self.drivers@[i].id.0 < self.drivers@[j].id.0
        &&& forall|i: int| 0 <= i < self.drivers@.len() ==> self.drivers@[i].id.0 < self.next_driver_id
        &&& forall|i: int, j: int| 0 <= i < j < self.drivers@.len() ==> self.drivers@[i].process_id != self.drivers@[j].process_id
        &&& self.next_driver_id >= 1
    }

    /// The registered drivers in registration order.
    pub closed spec fn drivers(&self) -> Seq<DriverInfo> {
        self.drivers@
    }

    /// The ID the next driver gets.
    pub closed spec fn next_id(&self) -> u32 {
        self.next_driver_id
    }

    /// No drivers; the first gets ID 1.
    pub fn new() -> (r: Self)
        ensures
            r.wf(),
            r.drivers() == Seq::<DriverInfo>::empty(),
            r.next_id() == 1,
    {
        DriverRegistry { drivers: Vec::new(), next_driver_id: 1 }
    }

    /// The index of the driver of process `pid`.
    fn index_of_process(&self, pid: ProcessId) -> (r: Option<usize>)
        ensures
            r matches Some(i) ==> i < self.drivers@.len() && self.drivers@[i as int].process_id == pid,
            r is None ==> forall|i: int| 0 <= i < self.drivers@.len() ==> self.drivers@[i].process_id != pid,
    {
        let mut i: usize = 0;
        while i < self.drivers.len()
            invariant
                i <= self.drivers@.len(),
                forall|j: int| 0 <= j < i ==> self.drivers@[j].process_id != pid,
            decreases self.drivers@.len() - i,
        {
            if self.drivers[i].process_id.0 == pid.0 {
                return Some(i);
            }
            i = i + 1;
        }
        None
    }

    /// The index of driver `id`.
    fn index_of_id(&self, id: DriverId) -> (r: Option<usize>)
        requires
            self.wf(),
        ensures
            r matches Some(i) ==> i < self.drivers@.len() && self.drivers@[i as int].id == id
                && index_of(self.drivers@, id.0) == Some(i as int),
            r is None ==> index_of(self.drivers@, id.0) is None,
    {
        let mut i: usize = 0;
        while i < self.drivers.len()
            invariant
                self.wf(),
                i <= self.drivers@.len(),
                forall|j: int| 0 <= j < i ==> self.drivers@[j].id.0 != id.0,
            decreases self.drivers@.len() - i,
        {
            if self.drivers[i].id.0 == id.0 {
                proof {
                    let k = choose|k: int| 0 <= k < self.drivers@.len() && self.drivers@[k].id.0 == id.0;
                    if k < i { } else if k > i { assert(self.drivers@[i as int].id.0 < self.drivers@[k].id.0); }
                }
                return Some(i);
            }
            i = i + 1;
        }
        None
    }

    /// Register the driver of `process_id`, which must not drive anything
    /// yet; it starts loading, with the next ID.
    pub fn register_driver(&mut self, name: String, version: String, process_id: ProcessId,
        capabilities: DriverCapabilities, device_classes: Vec<DeviceClass>) -> (r: Result<DriverId, DriverError>)
        requires
            old(self).wf(),
            old(self).next_id() < u32::MAX,
        ensures
            final(self).wf(),
            (exists|i: int| 0 <= i < old(self).drivers().len() && old(self).drivers()[i].process_id == process_id)
                ==> r == Err::<DriverId, DriverError>(DriverError::ProcessAlreadyRegistered)
                    && final(self).drivers() == old(self).drivers() && final(self).next_id() == old(self).next_id(),
            !(exists|i: int| 0 <= i < old(self).drivers().len() && old(self).drivers()[i].process_id == process_id)
                ==> r == Ok::<DriverId, DriverError>(DriverId(old(self).next_id()))
                    && final(self).next_id() == old(self).next_id() + 1
                    && final(self).drivers() == old(self).drivers().push(DriverInfo { id: DriverId(old(self).next_id()),
                        name, version, process_id, capabilities, state: DriverState::Loading, device_classes }),
    {
        if let Some(i) = self.index_of_process(process_id) {
            return Err(DriverError::ProcessAlreadyRegistered);
        }
        let driver_id = DriverId(self.next_driver_id);
        self.next_driver_id = self.next_driver_id + 1;
        let info = DriverInfo { id: driver_id, name, version, process_id, capabilities, state: DriverState::Loading, device_classes };
        self.drivers.push(info);
        Ok(driver_id)
    }

    /// Remove driver `driver_id`.
    pub fn unregister_driver(&mut self, driver_id: DriverId) -> (r: Result<(), DriverError>)
        requires
            old(self).wf(),
        ensures
            final(self).wf(),
            final(self).next_id() == old(self).next_id(),
            match index_of(old(self).drivers(), driver_id.0) {
                None => r == Err::<(), DriverError>(DriverError::DriverNotFound) && final(self).drivers() == old(self).drivers(),
                Some(i) => r is Ok && final(self).drivers() == old(self).drivers().remove(i),
            },
    {
        match self.index_of_id(driver_id) {
            Some(i) => {
                self.drivers.remove(i);
                Ok(())
            },
            None => Err(DriverError::DriverNotFound),
        }
    }

    /// Set the state of driver `driver_id`.
    pub fn set_driver_state(&mut self, driver_id: DriverId, state: DriverState) -> (r: Result<(), DriverError>)
        requires
            old(self).wf(),
        ensures
            final(self).wf(),
            final(self).next_id() == old(self).next_id(),
            match index_of(old(self).drivers(), driver_id.0) {
                None => r == Err::<(), DriverError>(DriverError::DriverNotFound) && final(self).drivers() == old(self).drivers(),
                Some(i) => r is Ok && final(self).drivers() == old(self).drivers().update(i,
                    DriverInfo { state, ..old(self).drivers()[i] }),
            },
    {
        match self.index_of_id(driver_id) {
            Some(i) => {
                let mut info = DriverInfo {
                    id: driver_id, name: String::new(), version: String::new(), process_id: ProcessId(0),
                    capabilities: self.drivers[i].capabilities, state, device_classes: Vec::new(),
                };
                self.drivers.set_and_swap(i, &mut info);
                info.state = state;
                self.drivers.set(i, info);
                Ok(())
            },
            None => Err(DriverError::DriverNotFound),
        }
    }

    /// Driver `driver_id`, if registered.
    pub fn get_driver(&self, driver_id: DriverId) -> (r: Option<&DriverInfo>)
        requires
            self.wf(),
        ensures
            match index_of(self.drivers(), driver_id.0) {
                None => r is None,
                Some(i) => r matches Some(d) && *d == self.drivers()[i],
            },
    {
        match self.index_of_id(driver_id) {
            Some(i) => Some(&self.drivers[i]),
            None => None,
        }
    }

    /// The driver of process `process_id`, if any.
    pub fn find_driver_by_process(&self, process_id: ProcessId) -> (r: Option<DriverId>)
        requires
            self.wf(),
        ensures
            r is None <==> forall|i: int| 0 <= i < self.drivers().len() ==> self.drivers()[i].process_id != process_id,
            r matches Some(id) ==> exists|i: int| 0 <= i < self.drivers().len() && self.drivers()[i].process_id == process_id
                && self.drivers()[i].id == id,
    {
        match self.index_of_process(process_id) {
            Some(i) => Some(self.drivers[i].id),
            None => None,
        }
    }

    /// The drivers registered for `class`.
    pub fn get_drivers_for_class(&self, class: DeviceClass) -> (r: Vec<DriverId>)
        ensures
            r@ == class_list(self.drivers(), class),
    {
        let mut r: Vec<DriverId> = Vec::new();
        let mut i: usize = 0;
        while i < self.drivers.len()
            invariant
                i <= self.drivers@.len(),
                r@ == class_list(self.drivers@.take(i as int), class),
            decreases self.drivers@.len() - i,
        {
            let d = &self.drivers[i];
            let ghost before = r@;
            let mut k: usize = 0;
            while k < d.device_classes.len()
                invariant
                    k <= d.device_classes@.len(),
                    *d == self.drivers@[i as int],
                    r@ == before + Seq::new(occurrences(d.device_classes@.take(k as int), class), |j: int| d.id),
                decreases d.device_classes@.len() - k,
            {
                proof {
                    let s = d.device_classes@;
                    assert(s.take(k + 1).drop_last() =~= s.take(k as int));
                }
                if d.device_classes[k] == class {
                    r.push(d.id);
                }
                assert(r@ =~= before + Seq::new(occurrences(d.device_classes@.take(k + 1), class), |j: int| d.id));
                k = k + 1;
            }
            proof {
                assert(d.device_classes@.take(k as int) =~= d.device_classes@);
                assert(self.drivers@.take(i + 1).drop_last() =~= self.drivers@.take(i as int));
            }
            i = i + 1;
        }
        assert(self.drivers@.take(i as int) =~= self.drivers@);
        r
    }

    /// The active drivers.
    pub fn get_active_drivers(&self) -> (r: Vec<DriverId>)
        ensures
            r@ == active_list(self.drivers()),
    {
        let mut r: Vec<DriverId> = Vec::new();
        let mut i: usize = 0;
        while i < self.drivers.len()
            invariant
                i <= self.drivers@.len(),
                r@ == active_list(self.drivers@.take(i as int)),
            decreases self.drivers@.len() - i,
        {
            proof { assert(self.drivers@.take(i + 1).drop_last() =~= self.drivers@.take(i as int)); }
            if self.drivers[i].state == DriverState::Active {
                r.push(self.drivers[i].id);
            }
            i = i + 1;
        }
        assert(self.drivers@.take(i as int) =~= self.drivers@);
        r
    }

    /// Whether driver `driver_id` is registered and permitted `operation`.
    pub fn check_capability(&self, driver_id: DriverId, operation: DriverOperation) -> (r: bool)
        requires
            self.wf(),
        ensures
            r == match index_of(self.drivers(), driver_id.0) {
                None => false,
                Some(i) => permits(self.drivers()[i].capabilities, operation),
            },
    {
        match self.index_of_id(driver_id) {
            Some(i) => {
                let c = self.drivers[i].capabilities;
                match operation {
                    DriverOperation::AccessMemory => c.can_access_memory,
                    DriverOperation::HandleInterrupts => c.can_handle_interrupts,
                    DriverOperation::PerformDMA => c.can_perform_dma,
                    DriverOperation::AccessPorts(port) => port >= c.allowed_ports.start && port <= c.allowed_ports.end,
                }
            },
            None => false,
        }
    }

    /// Unregister the driver of a terminated process, if it had one.
    pub fn cleanup_process_drivers(&mut self, process_id: ProcessId)
        requires
            old(self).wf(),
        ensures
            final(self).wf(),
            final(self).next_id() == old(self).next_id(),
            (forall|i: int| 0 <= i < old(self).drivers().len() ==> old(self).drivers()[i].process_id != process_id)
                ==> final(self).drivers() == old(self).drivers(),
            forall|i: int| 0 <= i < old(self).drivers().len() && old(self).drivers()[i].process_id == process_id
                ==> final(self).drivers() == old(self).drivers().remove(i),
    {
        match self.index_of_process(process_id) {
            Some(i) => {
                let id = self.drivers[i].id;
                proof {
                    assert forall|j: int| 0 <= j < old(self).drivers().len() && old(self).drivers()[j].process_id == process_id
                        implies j == i by {
                        if j < i { assert(self.drivers@[j].process_id != self.drivers@[i as int].process_id); }
                        if j > i { assert(self.drivers@[i as int].process_id != self.drivers@[j].process_id); }
                    }
                }
                let _ = self.unregister_driver(id);
                proof {
                    let k = choose|k: int| 0 <= k < old(self).drivers@.len() && old(self).drivers@[k].id.0 == id.0;
                    if k < i { assert(old(self).drivers@[k].id.0 < old(self).drivers@[i as int].id.0); }
                    if k > i { assert(old(self).drivers@[i as int].id.0 < old(self).drivers@[k].id.0); }
                }
            },
            None => {},
        }
    }
}

/// Unregistering a driver just registered succeeds and restores the
/// registered drivers exactly, so every lookup (by ID, by process, by
/// class, the active list) answers as it did before the registration.
pub proof fn law_register_then_unregister(r0: DriverRegistry, info: DriverInfo, r1: DriverRegistry, r2: DriverRegistry)
    requires
        r0.wf(),
        info.id == DriverId(r0.next_id()),
        r1.drivers() == r0.drivers().push(info),
        index_of(r1.drivers(), info.id.0) is None ==> r2.drivers() == r1.drivers(),
        index_of(r1.drivers(), info.id.0) matches Some(i) ==> r2.drivers() == r1.drivers().remove(i),
    ensures
        index_of(r1.drivers(), info.id.0) == Some(r0.drivers().len() as int),
        r2.drivers() == r0.drivers(),
        forall|c: DeviceClass| #[trigger] class_list(r2.drivers(), c) == class_list(r0.drivers(), c),
        active_list(r2.drivers()) == active_list(r0.drivers()),
{
    let d0 = r0.drivers();
    let d1 = r1.drivers();
    let n = d0.len() as int;
    assert(d1[n].id.0 == info.id.0);
    let k = choose|k: int| 0 <= k < d1.len() && d1[k].id.0 == info.id.0;
    if k < n {
        assert(d1[k] == d0[k]);
        assert(d0[k].id.0 < r0.next_id());
    }
    assert(d1.remove(n) =~= d0);
}

/// What a permission check answers: an unregistered driver is permitted
/// nothing; for a registered one each operation is decided by its own
/// grant alone, whatever the others are: memory access by
/// `can_access_memory`, interrupt handling by `can_handle_interrupts`, DMA
/// by `can_perform_dma`, and a port by lying in the allowed range, both
/// ends included.
pub proof fn law_check_capability(reg: DriverRegistry, id: DriverId, op: DriverOperation, r: bool)
    requires
        reg.wf(),
        r == match index_of(reg.drivers(), id.0) {
            None => false,
            Some(i) => permits(reg.drivers()[i].capabilities, op),
        },
    ensures
        index_of(reg.drivers(), id.0) is None ==> !r,
        index_of(reg.drivers(), id.0) matches Some(i) ==> ({
            let c = reg.drivers()[i].capabilities;
            &&& reg.drivers()[i].id == id
            &&& op == DriverOperation::AccessMemory ==> r == c.can_access_memory
            &&& op == DriverOperation::HandleInterrupts ==> r == c.can_handle_interrupts
            &&& op == DriverOperation::PerformDMA ==> r == c.can_perform_dma
            &&& (op matches DriverOperation::AccessPorts(port) ==> r == (c.allowed_ports.start <= port && port <= c.allowed_ports.end))
        }),
{
}

} // verus!
