use tanos::kernel::capability::{CapabilityManager, ResourceType, Rights, KRIGHT_READ, KRIGHT_WRITE};
use tanos::kernel::interrupt::{
    build_idt, disable_irq, dispatch_syscall, enable_irq, end_of_interrupt, route_interrupt, IdtEntry, InterruptFrame,
    InterruptRoute, InterruptStats, SyscallOutcome, PIC1_COMMAND, PIC1_DATA, PIC2_COMMAND, PIC2_DATA, SYS_DEBUG_PRINT,
    SYS_ERR, SYS_GETPID, SYS_IPC_CALL, SYS_IPC_RECEIVE, SYS_IPC_REPLY, SYS_REPORT, SYS_YIELD,
};
use tanos::kernel::process::process::ProcessState;
use tanos::kernel::process::{ProcessManager, Rendezvous};
use tanos::kernel::boot::{MemoryRegion, MemoryRegionType};
use tanos::kernel::memory::frame::FrameAllocator;
use tanos::types::memory::PhysAddr;
use tanos::types::process::ProcessId;

/// Frames for page tables and process pages: 1MB to 16MB available.
fn frames() -> FrameAllocator {
    let map = vec![
        MemoryRegion { start: PhysAddr(0), end: PhysAddr(0x10_0000), region_type: MemoryRegionType::Reserved },
        MemoryRegion { start: PhysAddr(0x10_0000), end: PhysAddr(0x100_0000), region_type: MemoryRegionType::Available },
    ];
    FrameAllocator::new(&map).unwrap()
}

fn tiny_elf() -> Vec<u8> {
    let mut d = vec![0u8; 120];
    d[0..4].copy_from_slice(&[0x7f, b'E', b'L', b'F']);
    d[4] = 2;
    d[0x18..0x20].copy_from_slice(&0x4000_0078u64.to_le_bytes());
    d[0x20..0x28].copy_from_slice(&64u64.to_le_bytes());
    d[0x36..0x38].copy_from_slice(&56u16.to_le_bytes());
    d[0x38..0x3a].copy_from_slice(&1u16.to_le_bytes());
    d[64..68].copy_from_slice(&1u32.to_le_bytes());
    d[64 + 0x10..64 + 0x18].copy_from_slice(&0x4000_0000u64.to_le_bytes());
    d[64 + 0x20..64 + 0x28].copy_from_slice(&120u64.to_le_bytes());
    d[64 + 0x28..64 + 0x30].copy_from_slice(&0x2000u64.to_le_bytes());
    d
}

fn frame(rax: u64, rdi: u64, rsi: u64) -> InterruptFrame {
    let mut f = InterruptFrame::default();
    f.rax = rax;
    f.rdi = rdi;
    f.rsi = rsi;
    f
}

/// The physical address of the top page table of process `pid`.
fn root(pm: &ProcessManager, pid: u16) -> u64 {
    pm.get_process(ProcessId(pid)).unwrap().address_space.cr3().0
}

fn setup() -> (ProcessManager, Rendezvous, CapabilityManager) {
    let mut pm = ProcessManager::new();
    let mut fa = frames();
    let a = pm.create_process(&tiny_elf(), None, &mut fa).unwrap();
    pm.create_process(&tiny_elf(), None, &mut fa).unwrap();
    pm.set_current_process(Some(a));
    (pm, Rendezvous::new(), CapabilityManager::new())
}

#[test]
fn getpid_and_invalid_calls() {
    let (mut pm, mut rdv, caps) = setup();
    assert!(matches!(dispatch_syscall(&frame(SYS_GETPID, 0, 0), &mut pm, &mut rdv, &caps), SyscallOutcome::Return(1)));
    let r = dispatch_syscall(&frame(0x77, 0, 0), &mut pm, &mut rdv, &caps);
    assert!(matches!(r, SyscallOutcome::Return(v) if v == SYS_ERR | 1));
}

#[test]
fn debug_print_checks_pointer_and_length() {
    let (mut pm, mut rdv, caps) = setup();
    let r = dispatch_syscall(&frame(SYS_DEBUG_PRINT, 0x4000_1000, 12), &mut pm, &mut rdv, &caps);
    assert!(matches!(r, SyscallOutcome::Print { ptr: 0x4000_1000, len: 12 }));
    assert!(matches!(dispatch_syscall(&frame(SYS_DEBUG_PRINT, 0, 12), &mut pm, &mut rdv, &caps), SyscallOutcome::Return(0)));
    assert!(matches!(dispatch_syscall(&frame(SYS_DEBUG_PRINT, 1, 4097), &mut pm, &mut rdv, &caps), SyscallOutcome::Return(0)));
}

#[test]
fn report_divides_by_round_trips() {
    let (mut pm, mut rdv, caps) = setup();
    let r = dispatch_syscall(&frame(SYS_REPORT, 1000, 10), &mut pm, &mut rdv, &caps);
    assert!(matches!(r, SyscallOutcome::Report { count: 10, total: 1000, per_round_trip: 100 }));
    let r = dispatch_syscall(&frame(SYS_REPORT, 1000, 0), &mut pm, &mut rdv, &caps);
    assert!(matches!(r, SyscallOutcome::Report { count: 1, total: 1000, per_round_trip: 1000 }));
}

#[test]
fn ipc_without_capability_is_denied() {
    let (mut pm, mut rdv, caps) = setup();
    let r = dispatch_syscall(&frame(SYS_IPC_CALL, 5, 1), &mut pm, &mut rdv, &caps);
    assert!(matches!(r, SyscallOutcome::Return(v) if v == SYS_ERR | 3));
    let r = dispatch_syscall(&frame(SYS_IPC_RECEIVE, 5, 0), &mut pm, &mut rdv, &caps);
    assert!(matches!(r, SyscallOutcome::Return(v) if v == SYS_ERR | 3));
    assert_eq!(rdv, Rendezvous::new());
}

#[test]
fn ipc_round_trip_through_dispatch() {
    let (mut pm, mut rdv, mut caps) = setup();
    caps.create_capability(ResourceType::Endpoint, 5, Rights(KRIGHT_READ), ProcessId(1), 0).unwrap();
    caps.create_capability(ResourceType::Endpoint, 5, Rights(KRIGHT_WRITE), ProcessId(2), 0).unwrap();
    // Process 1 receives and blocks; process 2 runs.
    let (root1, root2) = (root(&pm, 1), root(&pm, 2));
    let r = dispatch_syscall(&frame(SYS_IPC_RECEIVE, 5, 0), &mut pm, &mut rdv, &caps);
    assert!(matches!(r, SyscallOutcome::Switch(_, r2) if r2 == root2));
    // Process 2 calls with 77: process 1 runs with it.
    let r = dispatch_syscall(&frame(SYS_IPC_CALL, 5, 77), &mut pm, &mut rdv, &caps);
    match r {
        SyscallOutcome::Switch(f, root) => {
            assert_eq!(f.rax, 77);
            assert_eq!(root, root1);
        },
        _ => panic!("expected a switch"),
    }
    // Process 1 replies with 5: process 2 gets it.
    let r = dispatch_syscall(&frame(SYS_IPC_REPLY, 5, 0), &mut pm, &mut rdv, &caps);
    assert!(matches!(r, SyscallOutcome::Return(0)));
    let p2 = pm.get_process(ProcessId(2)).unwrap();
    assert_eq!(p2.saved.rax, 5);
    assert_eq!(p2.state, ProcessState::Ready);
}

#[test]
fn yield_through_dispatch() {
    let (mut pm, mut rdv, caps) = setup();
    let root2 = root(&pm, 2);
    let r = dispatch_syscall(&frame(SYS_YIELD, 0, 0), &mut pm, &mut rdv, &caps);
    assert!(matches!(r, SyscallOutcome::Switch(_, r2) if r2 == root2));
    assert_eq!(pm.current_process(), Some(ProcessId(2)));
}

#[test]
fn interrupt_routes() {
    let mut f = InterruptFrame::default();
    f.vector = 0x80;
    assert_eq!(route_interrupt(&f), InterruptRoute::Syscall);
    f.vector = 14;
    f.cs = 0x1B;
    assert_eq!(route_interrupt(&f), InterruptRoute::Exception { from_user: true });
    f.cs = 0x08;
    assert_eq!(route_interrupt(&f), InterruptRoute::Exception { from_user: false });
    f.vector = 32;
    assert_eq!(route_interrupt(&f), InterruptRoute::Timer);
    f.vector = 33;
    assert_eq!(route_interrupt(&f), InterruptRoute::Keyboard);
    f.vector = 44;
    assert_eq!(route_interrupt(&f), InterruptRoute::Irq(12));
    f.vector = 200;
    assert_eq!(route_interrupt(&f), InterruptRoute::Ignored);
    // Only the low byte of the pushed vector counts.
    f.vector = 0x180;
    assert_eq!(route_interrupt(&f), InterruptRoute::Syscall);
}

#[test]
fn pic_masks_and_end_of_interrupt() {
    assert_eq!(enable_irq(1, 0xFF), (PIC1_DATA, 0xFD));
    assert_eq!(enable_irq(10, 0xFF), (PIC2_DATA, 0xFB));
    assert_eq!(disable_irq(0, 0x00), (PIC1_DATA, 0x01));
    assert_eq!(disable_irq(15, 0x00), (PIC2_DATA, 0x80));
    assert_eq!(end_of_interrupt(3), vec![PIC1_COMMAND]);
    assert_eq!(end_of_interrupt(12), vec![PIC2_COMMAND, PIC1_COMMAND]);
}

#[test]
fn idt_gates() {
    let e = IdtEntry::new(0xFFFF_FFFF_8012_3456);
    assert_eq!(e.offset_low, 0x3456);
    assert_eq!(e.offset_mid, 0x8012);
    assert_eq!(e.offset_high, 0xFFFF_FFFF);
    assert_eq!(e.selector, 0x08);
    assert_eq!(e.type_attr, 0x8E);
    assert_eq!(IdtEntry::with_dpl(0x1000, 3).type_attr, 0xEE);
    let exceptions = [0x1000u64; 20];
    let irqs = [0x2000u64; 16];
    let idt = build_idt(&exceptions, &irqs, 0x3000);
    assert_eq!(idt.len(), 256);
    assert_eq!(idt[0], IdtEntry::new(0x1000));
    assert_eq!(idt[33], IdtEntry::new(0x2000));
    assert_eq!(idt[0x80], IdtEntry::with_dpl(0x3000, 3));
    assert_eq!(idt[100], IdtEntry::missing());
}

#[test]
fn interrupt_counters() {
    let mut s = InterruptStats::default();
    s.record_interrupt(3);
    s.record_interrupt(34);
    s.record_interrupt(34);
    s.record_spurious_interrupt();
    assert_eq!(s.total_interrupts, 3);
    assert_eq!(s.exception_counts[3], 1);
    assert_eq!(s.irq_counts[2], 2);
    assert_eq!(s.spurious_interrupts, 1);
}
