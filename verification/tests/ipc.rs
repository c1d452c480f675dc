use tanos::kernel::ipc::message::{Message, MessageType};
use tanos::kernel::ipc::syscalls::{sys_create_endpoint, sys_delete_endpoint};
use tanos::kernel::ipc::{IpcError, IpcManager, FIRST_DYNAMIC_ENDPOINT};
use tanos::kernel::process::process::{Process, ProcessState};
use tanos::kernel::syscall::SyscallError;
use tanos::types::ipc::{EndpointId, Message as WireMessage, MessageQueue};
use tanos::kernel::boot::{MemoryRegion, MemoryRegionType};
use tanos::kernel::memory::frame::FrameAllocator;
use tanos::types::memory::PhysAddr;
use tanos::types::process::ProcessId;

/// Frames for page tables and process pages: 1MB to 16MB available.
fn frames() -> FrameAllocator {
    let map = vec![
        MemoryRegion { start: PhysAddr(0), end: PhysAddr(0x10_0000), region_type: MemoryRegionType::Reserved },
        MemoryRegion { start: PhysAddr(0x10_0000), end: PhysAddr(0x100_0000), region_type: MemoryRegionType::Available },
    ];
    FrameAllocator::new(&map).unwrap()
}

fn tiny_elf() -> Vec<u8> {
    let mut d = vec![0u8; 120];
    d[0..4].copy_from_slice(&[0x7f, b'E', b'L', b'F']);
    d[4] = 2;
    d[0x18..0x20].copy_from_slice(&0x4000_0078u64.to_le_bytes());
    d[0x20..0x28].copy_from_slice(&64u64.to_le_bytes());
    d[0x36..0x38].copy_from_slice(&56u16.to_le_bytes());
    d[0x38..0x3a].copy_from_slice(&1u16.to_le_bytes());
    d[64..68].copy_from_slice(&1u32.to_le_bytes());
    d[64 + 0x10..64 + 0x18].copy_from_slice(&0x4000_0000u64.to_le_bytes());
    d[64 + 0x20..64 + 0x28].copy_from_slice(&120u64.to_le_bytes());
    d[64 + 0x28..64 + 0x30].copy_from_slice(&0x2000u64.to_le_bytes());
    d
}

fn table() -> Vec<Option<Process>> {
    let mut t: Vec<Option<Process>> = (0..8).map(|_| None).collect();
    let mut fa = frames();
    for pid in 1..4u16 {
        t[pid as usize] = Some(Process::create(ProcessId(pid), &tiny_elf(), None, &mut fa).unwrap());
    }
    t
}

fn labelled(label: u32) -> Message {
    let mut m = Message::new(MessageType::Send);
    m.set_label(label);
    m
}

#[test]
fn endpoints_get_consecutive_ids_from_256() {
    let mut ipc = IpcManager::new();
    assert_eq!(ipc.create_endpoint(ProcessId(1)), Ok(EndpointId(FIRST_DYNAMIC_ENDPOINT)));
    assert_eq!(ipc.create_endpoint(ProcessId(2)), Ok(EndpointId(257)));
    assert_eq!(sys_create_endpoint(&mut ipc, ProcessId(2)), Ok(258));
}

#[test]
fn only_the_owner_deletes_an_endpoint() {
    let mut ipc = IpcManager::new();
    let ep = ipc.create_endpoint(ProcessId(1)).unwrap();
    assert_eq!(ipc.delete_endpoint(ep, ProcessId(2)), Err(IpcError::AccessDenied));
    assert_eq!(ipc.delete_endpoint(ep, ProcessId(1)), Ok(()));
    assert_eq!(ipc.delete_endpoint(ep, ProcessId(1)), Err(IpcError::InvalidEndpoint));
    let ep2 = ipc.create_endpoint(ProcessId(1)).unwrap();
    assert_eq!(sys_delete_endpoint(&mut ipc, ep2.0, ProcessId(3)), Err(SyscallError::AccessDenied));
    assert_eq!(sys_delete_endpoint(&mut ipc, 9999, ProcessId(1)), Err(SyscallError::InvalidArgument));
    assert_eq!(sys_delete_endpoint(&mut ipc, ep2.0, ProcessId(1)), Ok(0));
}

#[test]
fn queued_messages_are_received_in_order() {
    let mut ipc = IpcManager::new();
    let mut procs = table();
    let ep = ipc.create_endpoint(ProcessId(1)).unwrap();
    assert_eq!(ipc.slowpath_send(ep, &labelled(10), ProcessId(2), &mut procs), Ok(()));
    assert_eq!(procs[2].as_ref().unwrap().state, ProcessState::SendWait);
    assert_eq!(ipc.slowpath_send(ep, &labelled(20), ProcessId(3), &mut procs), Ok(()));
    let first = ipc.receive(ep, ProcessId(1), &mut procs).unwrap().unwrap();
    let second = ipc.receive(ep, ProcessId(1), &mut procs).unwrap().unwrap();
    assert_eq!(first.label(), 10);
    assert_eq!(second.label(), 20);
}

#[test]
fn receive_on_empty_endpoint_blocks_then_fastpath_wakes() {
    let mut ipc = IpcManager::new();
    let mut procs = table();
    let ep = ipc.create_endpoint(ProcessId(1)).unwrap();
    // Nobody waits yet: the fast path does not apply.
    assert_eq!(ipc.fastpath_send(ep, &labelled(1), ProcessId(2), &mut procs, 100), Ok(false));
    assert!(ipc.receive(ep, ProcessId(1), &mut procs).unwrap().is_none());
    assert_eq!(procs[1].as_ref().unwrap().state, ProcessState::ReceiveWait);
    assert_eq!(ipc.fastpath_send(ep, &labelled(1), ProcessId(2), &mut procs, 100), Ok(true));
    assert_eq!(procs[1].as_ref().unwrap().state, ProcessState::Ready);
    // The endpoint is idle again.
    assert_eq!(ipc.fastpath_send(ep, &labelled(1), ProcessId(2), &mut procs, 100), Ok(false));
}

#[test]
fn operations_on_unknown_endpoint_fail() {
    let mut ipc = IpcManager::new();
    let mut procs = table();
    let ep = EndpointId(4242);
    assert_eq!(ipc.slowpath_send(ep, &labelled(1), ProcessId(2), &mut procs), Err(IpcError::InvalidEndpoint));
    assert!(matches!(ipc.receive(ep, ProcessId(1), &mut procs), Err(IpcError::InvalidEndpoint)));
    assert_eq!(ipc.fastpath_send(ep, &labelled(1), ProcessId(2), &mut procs, 1), Err(IpcError::InvalidEndpoint));
    assert_eq!(ipc.reply(ep, &labelled(1), ProcessId(2), &mut procs), Err(IpcError::InvalidEndpoint));
}

#[test]
fn send_from_missing_process_is_invalid() {
    let mut ipc = IpcManager::new();
    let mut procs = table();
    let ep = ipc.create_endpoint(ProcessId(1)).unwrap();
    assert_eq!(ipc.slowpath_send(ep, &labelled(1), ProcessId(7), &mut procs), Err(IpcError::InvalidProcess));
}

#[test]
fn message_queue_is_fifo_and_bounded() {
    let mut q = MessageQueue::new();
    assert!(q.is_empty());
    for i in 0..16u32 {
        let mut m = WireMessage::new(tanos::types::ipc::MessageType::Send);
        m.header.label = i;
        assert!(q.enqueue(m));
    }
    assert!(q.is_full());
    let extra = WireMessage::new(tanos::types::ipc::MessageType::Send);
    assert!(!q.enqueue(extra));
    for i in 0..16u32 {
        assert_eq!(q.dequeue().unwrap().header.label, i);
    }
    assert!(q.dequeue().is_none());
}

#[test]
fn test_ipc_integration() {
    let mut ipc = IpcManager::new();
    let test_pid = ProcessId(1);
    // Should either succeed or fail gracefully.
    let endpoint_result = ipc.create_endpoint(test_pid);
    assert!(endpoint_result.is_ok() || endpoint_result.is_err());
}
