use tanos::kernel::interrupt::InterruptFrame;
use tanos::kernel::process::elf::parse_elf;
use tanos::kernel::process::process::{Priority, ProcessState};
use tanos::kernel::process::scheduler::calculate_quantum;
use tanos::kernel::process::{load_init, ProcessError, ProcessManager, Rendezvous, MAX_GENERATION};
use tanos::kernel::boot::{BootInfo, BootParams, MemoryRegion, MemoryRegionType};
use tanos::kernel::memory::frame::FrameAllocator;
use tanos::kernel::memory::page::Page;
use tanos::types::memory::PhysAddr;
use tanos::types::process::ProcessId;

/// Frames for page tables and process pages: 1MB to 16MB available.
fn frames() -> FrameAllocator {
    let map = vec![
        MemoryRegion { start: PhysAddr(0), end: PhysAddr(0x10_0000), region_type: MemoryRegionType::Reserved },
        MemoryRegion { start: PhysAddr(0x10_0000), end: PhysAddr(0x100_0000), region_type: MemoryRegionType::Available },
    ];
    FrameAllocator::new(&map).unwrap()
}

fn root(pm: &ProcessManager, pid: ProcessId) -> u64 {
    pm.get_process(pid).unwrap().address_space.cr3().0
}

/// A minimal static ELF64 executable: one loadable segment at 1GB that
/// holds the whole file, entry point 0x4000_0078.
fn tiny_elf() -> Vec<u8> {
    let mut d = vec![0u8; 120];
    d[0..4].copy_from_slice(&[0x7f, b'E', b'L', b'F']);
    d[4] = 2;
    d[5] = 1;
    d[6] = 1;
    d[0x18..0x20].copy_from_slice(&0x4000_0078u64.to_le_bytes());
    d[0x20..0x28].copy_from_slice(&64u64.to_le_bytes());
    d[0x36..0x38].copy_from_slice(&56u16.to_le_bytes());
    d[0x38..0x3a].copy_from_slice(&1u16.to_le_bytes());
    d[64..68].copy_from_slice(&1u32.to_le_bytes());
    d[64 + 8..64 + 16].copy_from_slice(&0u64.to_le_bytes());
    d[64 + 0x10..64 + 0x18].copy_from_slice(&0x4000_0000u64.to_le_bytes());
    d[64 + 0x20..64 + 0x28].copy_from_slice(&120u64.to_le_bytes());
    d[64 + 0x28..64 + 0x30].copy_from_slice(&0x2000u64.to_le_bytes());
    d
}

#[test]
fn elf_is_parsed() {
    let img = parse_elf(&tiny_elf()).unwrap();
    assert_eq!(img.entry, 0x4000_0078);
    assert_eq!(img.segments.len(), 1);
    assert_eq!(img.segments[0].vaddr, 0x4000_0000);
    assert_eq!(img.segments[0].filesz, 120);
    assert_eq!(img.segments[0].memsz, 0x2000);
}

#[test]
fn bad_elf_is_refused() {
    let mut d = tiny_elf();
    d[0] = 0;
    assert!(matches!(parse_elf(&d), Err(ProcessError::InvalidElf)));
    assert!(matches!(parse_elf(&d[..10]), Err(ProcessError::InvalidElf)));
    let mut d = tiny_elf();
    // The segment claims more file bytes than there are.
    d[64 + 0x20..64 + 0x28].copy_from_slice(&121u64.to_le_bytes());
    assert!(matches!(parse_elf(&d), Err(ProcessError::InvalidElf)));
    let mut d = tiny_elf();
    // Memory size below file size.
    d[64 + 0x28..64 + 0x30].copy_from_slice(&100u64.to_le_bytes());
    assert!(matches!(parse_elf(&d), Err(ProcessError::InvalidElf)));
}

#[test]
fn process_lifecycle_create_lookup_kill() {
    let mut pm = ProcessManager::new();
    let mut fa = frames();
    assert!(pm.has_free_pid());
    let pid = pm.create_process(&tiny_elf(), None, &mut fa).unwrap();
    assert_eq!(pid, ProcessId(1));
    let p = pm.get_process(pid).unwrap();
    assert_eq!(p.state, ProcessState::Ready);
    assert_eq!(p.saved.rip, 0x4000_0078);
    assert_eq!(p.saved.rflags, 0x202);
    assert_eq!(p.context.cr3, p.address_space.cr3().0);
    assert_eq!(p.priority, Priority::Normal);
    assert!(pm.kill_process(pid, &mut fa).is_ok());
    assert!(pm.get_process(pid).is_none());
    assert!(matches!(pm.kill_process(pid, &mut fa), Err(ProcessError::ProcessNotFound)));
}

#[test]
fn pids_are_allocated_in_order() {
    let mut pm = ProcessManager::new();
    let mut fa = frames();
    let a = pm.create_process(&tiny_elf(), None, &mut fa).unwrap();
    let b = pm.create_process(&tiny_elf(), Some(a), &mut fa).unwrap();
    assert_eq!(a, ProcessId(1));
    assert_eq!(b, ProcessId(2));
    assert_eq!(pm.get_process(b).unwrap().parent, Some(a));
}

#[test]
fn invalid_image_creates_nothing() {
    let mut pm = ProcessManager::new();
    let mut fa = frames();
    assert!(matches!(pm.create_process(&[0u8; 8], None, &mut fa), Err(ProcessError::InvalidElf)));
    assert!(pm.get_process(ProcessId(1)).is_none());
}

#[test]
fn spawn_records_generation_in_rdi() {
    let mut pm = ProcessManager::new();
    let mut fa = frames();
    let pid = pm.spawn(&tiny_elf(), &mut fa, 3).unwrap();
    let p = pm.get_process(pid).unwrap();
    assert_eq!(p.generation, 3);
    assert_eq!(p.saved.rdi, 3);
}

#[test]
fn fault_kills_only_the_current_process() {
    let mut pm = ProcessManager::new();
    let mut fa = frames();
    let a = pm.create_process(&tiny_elf(), None, &mut fa).unwrap();
    let b = pm.create_process(&tiny_elf(), None, &mut fa).unwrap();
    pm.set_current_process(Some(a));
    let (dead, info, restart) = pm.fault_kill_current();
    assert_eq!(dead.unwrap().id, a);
    assert_eq!(info, Some((a, 0)));
    assert_eq!(restart, Some(1));
    assert!(pm.get_process(a).is_none());
    assert!(pm.get_process(b).is_some());
}

#[test]
fn fault_at_generation_limit_is_not_restarted() {
    let mut pm = ProcessManager::new();
    let mut fa = frames();
    let a = pm.spawn(&tiny_elf(), &mut fa, MAX_GENERATION).unwrap();
    pm.set_current_process(Some(a));
    let (_, info, restart) = pm.fault_kill_current();
    assert_eq!(info, Some((a, MAX_GENERATION)));
    assert_eq!(restart, None);
}

#[test]
fn yield_switches_round_robin() {
    let mut pm = ProcessManager::new();
    let mut fa = frames();
    let a = pm.create_process(&tiny_elf(), None, &mut fa).unwrap();
    let b = pm.create_process(&tiny_elf(), None, &mut fa).unwrap();
    pm.set_current_process(Some(a));
    let mut frame = InterruptFrame::default();
    frame.rax = 99;
    frame.rip = 0x1234;
    let (resume, cr3) = pm.schedule_yield(&frame).unwrap();
    assert_eq!(cr3, root(&pm, b));
    assert_eq!(resume.rip, 0x4000_0078);
    assert_eq!(pm.current_process(), Some(b));
    let pa = pm.get_process(a).unwrap();
    assert_eq!(pa.state, ProcessState::Ready);
    assert_eq!(pa.saved.rip, 0x1234);
    assert_eq!(pa.saved.rax, 0);
    assert_eq!(pm.get_process(b).unwrap().state, ProcessState::Running);
}

#[test]
fn rendezvous_receive_call_reply() {
    let mut pm = ProcessManager::new();
    let mut fa = frames();
    let server = pm.create_process(&tiny_elf(), None, &mut fa).unwrap();
    let client = pm.create_process(&tiny_elf(), None, &mut fa).unwrap();
    let mut rdv = Rendezvous::new();

    // The server waits to receive; the client runs.
    pm.set_current_process(Some(server));
    let r = pm.ipc_receive(&mut rdv, &InterruptFrame::default(), 0);
    let (_, cr3) = r.unwrap_err();
    assert_eq!(cr3, root(&pm, client));
    assert_eq!(rdv.receiver, Some(server));
    assert_eq!(pm.current_process(), Some(client));

    // The client calls: the server runs with the message in RAX.
    let (resume, cr3) = pm.ipc_call(&mut rdv, &InterruptFrame::default(), 0, 42);
    assert_eq!(cr3, root(&pm, server));
    assert_eq!(resume.rax, 42);
    assert_eq!(pm.current_process(), Some(server));
    assert_eq!(pm.get_process(client).unwrap().state, ProcessState::ReplyWait);
    assert_eq!(rdv.caller, Some(client));

    // The server replies: the client gets the value and is ready.
    assert_eq!(pm.ipc_reply(&mut rdv, &InterruptFrame::default(), 7), 0);
    let c = pm.get_process(client).unwrap();
    assert_eq!(c.saved.rax, 7);
    assert_eq!(c.state, ProcessState::Ready);
    assert_eq!(rdv.caller, None);
}

#[test]
fn rendezvous_call_before_receive_is_kept_pending() {
    let mut pm = ProcessManager::new();
    let mut fa = frames();
    let client = pm.create_process(&tiny_elf(), None, &mut fa).unwrap();
    let server = pm.create_process(&tiny_elf(), None, &mut fa).unwrap();
    let mut rdv = Rendezvous::new();
    pm.set_current_process(Some(client));
    let (_, cr3) = pm.ipc_call(&mut rdv, &InterruptFrame::default(), 0, 1234);
    assert_eq!(cr3, root(&pm, server));
    assert!(rdv.has_pending);
    assert_eq!(pm.current_process(), Some(server));
    // The server's receive finds the pending message at once.
    assert_eq!(pm.ipc_receive(&mut rdv, &InterruptFrame::default(), 0), Ok(1234));
    assert!(!rdv.has_pending);
}

#[test]
fn exit_removes_process_and_switches() {
    let mut pm = ProcessManager::new();
    let mut fa = frames();
    let a = pm.create_process(&tiny_elf(), None, &mut fa).unwrap();
    let b = pm.create_process(&tiny_elf(), None, &mut fa).unwrap();
    pm.set_current_process(Some(a));
    let (dead, dead_pid, next) = pm.exit_current();
    assert_eq!(dead.unwrap().id, a);
    assert_eq!(dead_pid, a);
    assert_eq!(next.unwrap().1, root(&pm, b));
    assert!(pm.get_process(a).is_none());
    assert_eq!(pm.current_process(), Some(b));
}

#[test]
fn quantum_by_priority() {
    assert_eq!(calculate_quantum(Priority::Idle), 5);
    assert_eq!(calculate_quantum(Priority::Low), 10);
    assert_eq!(calculate_quantum(Priority::Normal), 20);
    assert_eq!(calculate_quantum(Priority::High), 30);
    assert_eq!(calculate_quantum(Priority::Critical), 50);
}

#[test]
fn process_frames_are_given_back_when_killed() {
    let mut pm = ProcessManager::new();
    let mut fa = frames();
    let free = fa.free_frames();
    let pid = pm.create_process(&tiny_elf(), None, &mut fa).unwrap();
    // Three tables for the kernel's identity map, two tables and two pages
    // for the segment at 1GB, two tables and four pages for the stack.
    assert_eq!(fa.free_frames(), free - 13);
    pm.kill_process(pid, &mut fa).unwrap();
    assert_eq!(fa.free_frames(), free);
}

#[test]
fn process_creation_runs_out_of_frames() {
    let mut pm = ProcessManager::new();
    let map = vec![MemoryRegion { start: PhysAddr(0x10_0000), end: PhysAddr(0x10_8000), region_type: MemoryRegionType::Available }];
    let mut fa = FrameAllocator::new(&map).unwrap();
    assert!(matches!(pm.create_process(&tiny_elf(), None, &mut fa), Err(ProcessError::OutOfMemory)));
    assert!(pm.get_process(ProcessId(1)).is_none());
}

#[test]
fn init_is_loaded_from_the_initrd() {
    let mut pm = ProcessManager::new();
    let mut fa = frames();
    let mut info = BootInfo {
        memory_map: vec![],
        kernel_start: PhysAddr(0x10_0000),
        kernel_end: PhysAddr(0x20_0000),
        initrd_start: None,
        initrd_end: None,
        framebuffer: None,
        boot_params: BootParams { cmdline: None, loader_name: None },
    };
    let free = fa.free_frames();
    assert!(matches!(load_init(&mut pm, &info, &tiny_elf(), &mut fa), Err(ProcessError::InvalidElf)));
    assert_eq!(fa.free_frames(), free);
    info.initrd_start = Some(PhysAddr(0x80_0000));
    info.initrd_end = Some(PhysAddr(0x80_0078));
    assert!(matches!(load_init(&mut pm, &info, &tiny_elf(), &mut fa), Ok(ProcessId(1))));
    assert_eq!(pm.get_process(ProcessId(1)).unwrap().saved.rip, 0x4000_0078);
}

#[test]
fn each_process_has_its_own_address_space() {
    let mut pm = ProcessManager::new();
    let mut fa = frames();
    let a = pm.create_process(&tiny_elf(), None, &mut fa).unwrap();
    let b = pm.create_process(&tiny_elf(), None, &mut fa).unwrap();
    assert_ne!(root(&pm, a), root(&pm, b));
    // Both map the executable at 1GB, each to frames of its own.
    let pa = &pm.get_process(a).unwrap().address_space;
    let pb = &pm.get_process(b).unwrap().address_space;
    let page = Page::from_number(0x4_0000);
    assert!(pa.translate(page).is_some());
    assert_ne!(pa.translate(page), pb.translate(page));
}

#[test]
fn yield_alone_keeps_running() {
    let mut pm = ProcessManager::new();
    let mut fa = frames();
    let a = pm.create_process(&tiny_elf(), None, &mut fa).unwrap();
    pm.set_current_process(Some(a));
    // The only runnable process is the current one: nothing to switch to.
    assert!(pm.pick_next().is_none());
    assert!(pm.schedule_yield(&InterruptFrame::default()).is_none());
    assert_eq!(pm.current_process(), Some(a));
}

#[test]
fn fault_restarts_the_crashed_process() {
    let mut pm = ProcessManager::new();
    let mut fa = frames();
    let survivor = pm.create_process(&tiny_elf(), None, &mut fa).unwrap();
    let driver = pm.create_process(&tiny_elf(), None, &mut fa).unwrap();
    pm.set_current_process(Some(driver));
    let (dead, info, restart) = pm.fault_kill_current();
    assert_eq!(info, Some((driver, 0)));
    dead.unwrap().address_space.release(&mut fa);
    let gen = restart.unwrap();
    let reborn = pm.spawn(&tiny_elf(), &mut fa, gen).unwrap();
    let (resume, cr3) = pm.fault_resume(Some(reborn)).unwrap();
    assert_eq!(pm.current_process(), Some(reborn));
    assert_eq!(resume.rdi, 1);
    assert_eq!(cr3, root(&pm, reborn));
    let p = pm.get_process(reborn).unwrap();
    assert_eq!(p.state, ProcessState::Running);
    assert_eq!(p.generation, 1);
    assert!(pm.get_process(survivor).is_some());
}

#[test]
fn fault_without_restart_resumes_another_process() {
    let mut pm = ProcessManager::new();
    let mut fa = frames();
    let survivor = pm.create_process(&tiny_elf(), None, &mut fa).unwrap();
    let driver = pm.spawn(&tiny_elf(), &mut fa, MAX_GENERATION).unwrap();
    pm.set_current_process(Some(driver));
    let (_, _, restart) = pm.fault_kill_current();
    assert_eq!(restart, None);
    assert!(pm.fault_resume(None).is_some());
    assert_eq!(pm.current_process(), Some(survivor));
    assert_eq!(pm.get_process(survivor).unwrap().state, ProcessState::Running);
    // With nothing left to run there is nothing to resume.
    let (_, _, _) = pm.fault_kill_current();
    assert!(pm.fault_resume(None).is_none());
}

#[test]
fn handled_fault_restarts_from_the_initrd_and_reclaims_frames() {
    let mut pm = ProcessManager::new();
    let mut fa = frames();
    let elf = tiny_elf();
    let survivor = pm.create_process(&elf, None, &mut fa).unwrap();
    let free = fa.free_frames();
    let driver = pm.create_process(&elf, None, &mut fa).unwrap();
    pm.set_current_process(Some(driver));
    let (reborn, resume) = pm.handle_fault(&mut fa, Some(&elf));
    let reborn = reborn.unwrap();
    assert_ne!(reborn, driver);
    assert!(pm.get_process(driver).is_none());
    assert_eq!(pm.current_process(), Some(reborn));
    let (frame, cr3) = resume.unwrap();
    assert_eq!(frame.rdi, 1);
    assert_eq!(cr3, root(&pm, reborn));
    let p = pm.get_process(reborn).unwrap();
    assert_eq!((p.generation, p.state), (1, ProcessState::Running));
    assert!(pm.get_process(survivor).is_some());
    // The crashed process's 13 frames came back; the restart took 13.
    assert_eq!(fa.free_frames(), free - 13);
    // A second crash is past the generation limit: no restart, the
    // survivor runs, and all of the crashed process's frames are free.
    let (again, resume) = pm.handle_fault(&mut fa, Some(&elf));
    assert_eq!(again, None);
    assert!(resume.is_some());
    assert_eq!(pm.current_process(), Some(survivor));
    assert!(pm.get_process(reborn).is_none());
    assert_eq!(fa.free_frames(), free);
}

#[test]
fn handled_fault_without_initrd_or_current() {
    let mut pm = ProcessManager::new();
    let mut fa = frames();
    let elf = tiny_elf();
    let a = pm.create_process(&elf, None, &mut fa).unwrap();
    // Nothing current: nothing happens.
    assert_eq!(pm.handle_fault(&mut fa, Some(&elf)), (None, None));
    assert!(pm.get_process(a).is_some());
    pm.set_current_process(Some(a));
    // No executable to restart from and nothing else to run: halt.
    assert_eq!(pm.handle_fault(&mut fa, None), (None, None));
    assert!(pm.get_process(a).is_none());
}
