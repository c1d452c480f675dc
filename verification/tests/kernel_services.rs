use tanos::kernel::capability::{CapabilityId, CapabilityManager, ResourceType, Rights, KRIGHT_ADMIN};
use tanos::kernel::debug::log::{LogLevel, Logger};
use tanos::kernel::debug::DebugManager;
use tanos::kernel::driver::{
    DeviceClass, DriverCapabilities, DriverError, DriverOperation, DriverRegistry, DriverState, PortRange,
};
use tanos::kernel::interrupt::irq::{IrqDelivery, IrqError, IrqManager};
use tanos::kernel::interrupt::timer::Timer;
use tanos::kernel::ipc::message::Message;
use tanos::kernel::ipc::{IpcError, IpcManager};
use tanos::kernel::process::process::Process;
use tanos::types::ipc::EndpointId;
use tanos::kernel::boot::{MemoryRegion, MemoryRegionType};
use tanos::kernel::memory::frame::FrameAllocator;
use tanos::types::memory::PhysAddr;
use tanos::types::process::ProcessId;

/// Frames for page tables and process pages: 1MB to 16MB available.
fn frames() -> FrameAllocator {
    let map = vec![
        MemoryRegion { start: PhysAddr(0), end: PhysAddr(0x10_0000), region_type: MemoryRegionType::Reserved },
        MemoryRegion { start: PhysAddr(0x10_0000), end: PhysAddr(0x100_0000), region_type: MemoryRegionType::Available },
    ];
    FrameAllocator::new(&map).unwrap()
}
use tanos::types::DriverId;

fn caps(ports: (u16, u16)) -> DriverCapabilities {
    DriverCapabilities {
        can_access_memory: true,
        can_handle_interrupts: false,
        can_perform_dma: false,
        max_memory_regions: 4,
        allowed_ports: PortRange { start: ports.0, end: ports.1 },
    }
}

#[test]
fn drivers_register_once_per_process() {
    let mut reg = DriverRegistry::new();
    let a = reg
        .register_driver("kbd".to_string(), "1.0".to_string(), ProcessId(3), caps((0x60, 0x64)), vec![DeviceClass::Input])
        .unwrap();
    assert_eq!(a, DriverId(1));
    let again = reg.register_driver("x".to_string(), "1".to_string(), ProcessId(3), caps((0, 0)), vec![]);
    assert_eq!(again, Err(DriverError::ProcessAlreadyRegistered));
    let b = reg
        .register_driver(
            "disk".to_string(),
            "2.0".to_string(),
            ProcessId(4),
            caps((0x1F0, 0x1F7)),
            vec![DeviceClass::Storage, DeviceClass::Input],
        )
        .unwrap();
    assert_eq!(b, DriverId(2));
    let info = reg.get_driver(a).unwrap();
    assert_eq!(info.name, "kbd");
    assert_eq!(info.state, DriverState::Loading);
    assert_eq!(reg.find_driver_by_process(ProcessId(4)), Some(b));
    assert_eq!(reg.find_driver_by_process(ProcessId(9)), None);
    assert_eq!(reg.get_drivers_for_class(DeviceClass::Input), vec![a, b]);
    assert_eq!(reg.get_drivers_for_class(DeviceClass::Storage), vec![b]);
    assert!(reg.get_drivers_for_class(DeviceClass::Audio).is_empty());
}

#[test]
fn driver_states_and_permissions() {
    let mut reg = DriverRegistry::new();
    let a = reg.register_driver("a".to_string(), "1".to_string(), ProcessId(3), caps((0x60, 0x64)), vec![]).unwrap();
    let b = reg.register_driver("b".to_string(), "1".to_string(), ProcessId(4), caps((0, 0)), vec![]).unwrap();
    assert!(reg.get_active_drivers().is_empty());
    assert_eq!(reg.set_driver_state(b, DriverState::Active), Ok(()));
    assert_eq!(reg.get_active_drivers(), vec![b]);
    assert_eq!(reg.set_driver_state(DriverId(77), DriverState::Active), Err(DriverError::DriverNotFound));
    assert!(reg.check_capability(a, DriverOperation::AccessMemory));
    assert!(!reg.check_capability(a, DriverOperation::PerformDMA));
    assert!(reg.check_capability(a, DriverOperation::AccessPorts(0x60)));
    assert!(reg.check_capability(a, DriverOperation::AccessPorts(0x64)));
    assert!(!reg.check_capability(a, DriverOperation::AccessPorts(0x65)));
    assert!(!reg.check_capability(DriverId(77), DriverOperation::AccessMemory));
}

#[test]
fn drivers_are_cleaned_up_with_their_process() {
    let mut reg = DriverRegistry::new();
    let a = reg.register_driver("a".to_string(), "1".to_string(), ProcessId(3), caps((0, 0)), vec![]).unwrap();
    reg.cleanup_process_drivers(ProcessId(3));
    assert!(reg.get_driver(a).is_none());
    assert_eq!(reg.unregister_driver(a), Err(DriverError::DriverNotFound));
    // The ID is not reused.
    let b = reg.register_driver("b".to_string(), "1".to_string(), ProcessId(3), caps((0, 0)), vec![]).unwrap();
    assert_eq!(b, DriverId(2));
    assert_eq!(reg.unregister_driver(b), Ok(()));
}

#[test]
fn log_levels_filter_and_format() {
    let mut logger = Logger::new();
    assert_eq!(logger.level(), LogLevel::Info);
    assert!(logger.log(LogLevel::Debug, "hidden", "main.rs", 1, 0).is_none());
    logger.set_colors(false);
    let line = logger.log(LogLevel::Warn, "disk slow", "disk.rs", 42, 12_345).unwrap();
    assert_eq!(line, "[      12.345] WARN  disk.rs:42 - disk slow\n");
    logger.set_colors(true);
    let line = logger.log(LogLevel::Error, "boom", "a.rs", 7, 5).unwrap();
    assert_eq!(line, "\x1b[31m[       0.005] ERROR a.rs:7 - boom\x1b[0m\n");
    logger.set_level(LogLevel::Trace);
    assert!(logger.log(LogLevel::Trace, "t", "t.rs", 0, 0).is_some());
    assert_eq!(LogLevel::Error.rank(), 0);
    assert_eq!(LogLevel::Trace.rank(), 4);
    assert_eq!(LogLevel::Info.as_str(), "INFO ");
    assert_eq!(LogLevel::Debug.color_code(), "\x1b[36m");
}

#[test]
fn timer_counts_ticks_and_statistics() {
    let mut t = Timer::new();
    assert_eq!(t.init(500), (0x34, 0xA9, 0x04));
    assert_eq!(t.start_time(), 500);
    t.tick(100);
    t.tick(300);
    t.tick(2000);
    assert_eq!(t.ticks(), 3);
    assert_eq!(t.uptime_ms(), 3);
    assert_eq!(t.uptime_seconds(), 0);
    let s = t.statistics();
    assert_eq!(s.total_ticks, 3);
    assert_eq!(s.missed_ticks, 1);
    assert_eq!(s.max_tick_time, 2000);
    // Running average: 100, then (100 + 300) / 2 = 200, then (400 + 2000) / 3 = 800.
    assert_eq!(s.avg_tick_time, 800);
}

fn tiny_elf() -> Vec<u8> {
    let mut d = vec![0u8; 120];
    d[0..4].copy_from_slice(&[0x7f, b'E', b'L', b'F']);
    d[4] = 2;
    d[0x20..0x28].copy_from_slice(&64u64.to_le_bytes());
    d[0x36..0x38].copy_from_slice(&56u16.to_le_bytes());
    d[0x38..0x3a].copy_from_slice(&1u16.to_le_bytes());
    d[64..68].copy_from_slice(&1u32.to_le_bytes());
    d[64 + 0x20..64 + 0x28].copy_from_slice(&120u64.to_le_bytes());
    d[64 + 0x28..64 + 0x30].copy_from_slice(&0x2000u64.to_le_bytes());
    d
}

#[test]
fn irq_lines_route_to_registered_drivers() {
    let mut cm = CapabilityManager::new();
    let cap = cm.create_capability(ResourceType::Irq, 1, Rights(KRIGHT_ADMIN), ProcessId(3), 0).unwrap();
    let mut irqs = IrqManager::new();
    let mut ipc = IpcManager::new();
    let ep = ipc.create_endpoint(ProcessId(3)).unwrap();
    let mut procs: Vec<Option<Process>> = (0..8).map(|_| None).collect();
    procs[3] = Some(Process::create(ProcessId(3), &tiny_elf(), None, &mut frames()).unwrap());

    assert_eq!(irqs.register_handler(16, ProcessId(3), ep, cap, &cm), Err(IrqError::InvalidIrq));
    assert_eq!(irqs.register_handler(2, ProcessId(3), ep, cap, &cm), Err(IrqError::InvalidCapability));
    assert_eq!(irqs.register_handler(1, ProcessId(3), ep, CapabilityId(99), &cm), Err(IrqError::InvalidCapability));
    assert_eq!(irqs.register_handler(1, ProcessId(3), ep, cap, &cm), Ok(()));
    assert_eq!(irqs.register_handler(1, ProcessId(3), ep, cap, &cm), Err(IrqError::AlreadyRegistered));
    assert!(irqs.is_registered(1));
    assert_eq!(irqs.get_handler(1), Some((ProcessId(3), ep)));

    assert_eq!(irqs.handle_irq(0, &mut ipc, &mut procs), IrqDelivery::Timer);
    assert_eq!(irqs.handle_irq(5, &mut ipc, &mut procs), IrqDelivery::Unhandled);
    // Without the kernel's process in the table the send fails, though the
    // notification is queued.
    assert_eq!(irqs.handle_irq(1, &mut ipc, &mut procs), IrqDelivery::Failed(IpcError::InvalidProcess));
    let queued: Message = ipc.receive(ep, ProcessId(3), &mut procs).unwrap().unwrap();
    assert!(queued.is_irq_notification());
    procs[0] = Some(Process::create(ProcessId(0), &tiny_elf(), None, &mut frames()).unwrap());
    assert_eq!(irqs.handle_irq(1, &mut ipc, &mut procs), IrqDelivery::Delivered);
    // The driver finds the notification on its endpoint.
    let note: Message = ipc.receive(ep, ProcessId(3), &mut procs).unwrap().unwrap();
    assert!(note.is_irq_notification());
    assert_eq!(note.get_data(0), 1);
    let st = irqs.statistics();
    assert_eq!(st.total_irqs, 4);
    assert_eq!(st.unhandled_irqs, 2);
    assert_eq!(st.per_irq_counts[1], 2);

    assert_eq!(irqs.unregister_handler(1, ProcessId(4)), Err(IrqError::AccessDenied));
    assert_eq!(irqs.unregister_handler(1, ProcessId(3)), Ok(()));
    assert_eq!(irqs.unregister_handler(1, ProcessId(3)), Err(IrqError::NotRegistered));
    // A deleted endpoint makes delivery fail.
    assert_eq!(irqs.register_handler(1, ProcessId(3), EndpointId(4000), cap, &cm), Ok(()));
    assert_eq!(irqs.handle_irq(1, &mut ipc, &mut procs), IrqDelivery::Failed(IpcError::InvalidEndpoint));
}

#[test]
fn debug_output_text() {
    assert_eq!(tanos::kernel::debug::write(b"hello"), "hello");
    assert_eq!(tanos::kernel::debug::write("héllo".as_bytes()), "héllo");
    assert_eq!(tanos::kernel::debug::write(&[0x68, 0xFF, 0x69]), "");
    let mut d = DebugManager::new();
    assert_eq!(d.log_level(), LogLevel::Info);
    d.set_log_level(LogLevel::Warn);
    assert_eq!(d.log_level(), LogLevel::Warn);
    assert_eq!(d.write(b"ok"), "ok");
}
