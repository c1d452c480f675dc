use tanos::types::capability::{
    Capability, CapabilityId, ResourceType, Rights, RIGHT_CONTROL, RIGHT_READ, RIGHT_RECEIVE, RIGHT_UNMAP, RIGHT_WRITE,
};
use tanos::types::error::{Error, ErrorContext};
use tanos::types::ipc::{EndpointId, MessageType};
use tanos::types::memory::{PhysAddr, SharedMemoryId, VirtAddr};
use tanos::types::process::{GlobalThreadId, Priority, ProcessId, ProcessState, ThreadId};

#[test]
fn ids_show_their_number_or_invalid() {
    assert_eq!(ProcessId(5).to_string(), "PID(5)");
    assert_eq!(ProcessId(0xFFFF).to_string(), "PID(INVALID)");
    assert_eq!(ThreadId(0).to_string(), "TID(0)");
    assert_eq!(ThreadId(0xFFFF).to_string(), "TID(INVALID)");
    assert_eq!(GlobalThreadId { process: ProcessId(1), thread: ThreadId(2) }.to_string(), "PID(1):TID(2)");
    assert_eq!(CapabilityId(42).to_string(), "Cap(42)");
    assert_eq!(CapabilityId(0).to_string(), "Cap(INVALID)");
    assert_eq!(EndpointId(300).to_string(), "Endpoint(300)");
    assert_eq!(EndpointId(0).to_string(), "Endpoint(INVALID)");
    assert_eq!(SharedMemoryId(7).to_string(), "SharedMem(7)");
    assert_eq!(SharedMemoryId(0).to_string(), "SharedMem(INVALID)");
    assert_eq!(Priority(128).to_string(), "Priority(128)");
}

#[test]
fn enums_show_their_names() {
    assert_eq!(ProcessState::ReceiveWait.to_string(), "ReceiveWait");
    assert_eq!(ProcessState::Creating.to_string(), "Creating");
    assert_eq!(ResourceType::SharedMemory.to_string(), "SharedMemory");
    assert_eq!(ResourceType::IoPort.to_string(), "IoPort");
    assert_eq!(MessageType::Notify.to_string(), "Notify");
}

#[test]
fn rights_show_their_letters() {
    assert_eq!(Rights(0).to_string(), "None");
    assert_eq!(Rights(RIGHT_READ | RIGHT_WRITE).to_string(), "R|W");
    assert_eq!(Rights(RIGHT_CONTROL | RIGHT_RECEIVE | RIGHT_READ).to_string(), "R|Rc|C");
    // A right without a letter shows nothing.
    assert_eq!(Rights(RIGHT_UNMAP).to_string(), "");
}

#[test]
fn capability_shows_id_type_rights_and_resource() {
    let c = Capability::new(CapabilityId(3), ResourceType::Endpoint, Rights(RIGHT_READ | RIGHT_WRITE), 9);
    assert_eq!(c.to_string(), "Cap(3):Endpoint R|W (9)");
}

#[test]
fn addresses_show_sixteen_hex_digits() {
    assert_eq!(PhysAddr(0x1000).to_string(), "PhysAddr(0x0000000000001000)");
    assert_eq!(VirtAddr(0xdead_beef).to_string(), "VirtAddr(0x00000000deadbeef)");
    assert_eq!(VirtAddr(u64::MAX).to_string(), "VirtAddr(0xffffffffffffffff)");
}

#[test]
fn error_context_shows_where_and_why() {
    let c = ErrorContext::new(Error::NotFound, "ipc.rs", 12, "send");
    assert_eq!(c.to_string(), "Not found at ipc.rs:12:send");
    assert_eq!(c.with_message("no endpoint").to_string(), "Not found at ipc.rs:12:send (no endpoint)");
}
