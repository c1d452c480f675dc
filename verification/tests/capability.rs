use tanos::kernel::capability::{
    CapabilityError, CapabilityId, CapabilityManager, ResourceType, Rights, KRIGHT_ADMIN, KRIGHT_ALL, KRIGHT_GRANT, KRIGHT_READ,
    KRIGHT_WRITE,
};
use tanos::types::ipc::EndpointId;
use tanos::types::memory::VirtAddr;
use tanos::types::process::ProcessId;

fn ids(caps: Option<Vec<tanos::kernel::capability::Capability>>) -> Vec<u32> {
    let mut v: Vec<u32> = caps.unwrap_or_default().iter().map(|c| c.id.0).collect();
    v.sort();
    v
}

#[test]
fn rights_bits() {
    assert_eq!(Rights::all().bits(), 0x3F);
    assert_eq!(Rights::empty().bits(), 0);
    assert_eq!(Rights::from_bits_truncate(0xFF).bits(), KRIGHT_ALL);
    let rw = Rights(KRIGHT_READ).union(Rights(KRIGHT_WRITE));
    assert!(rw.contains(Rights(KRIGHT_READ)));
    assert!(!rw.contains(Rights(KRIGHT_GRANT)));
    let mut r = rw;
    r.remove(Rights(KRIGHT_READ));
    assert_eq!(r.bits(), KRIGHT_WRITE);
}

#[test]
fn created_capabilities_get_consecutive_ids() {
    let mut m = CapabilityManager::new();
    let a = m.create_capability(ResourceType::Endpoint, 7, Rights(KRIGHT_READ), ProcessId(3), 0).unwrap();
    let b = m.create_capability(ResourceType::Memory, 0x1000, Rights(KRIGHT_WRITE), ProcessId(3), 0).unwrap();
    assert_eq!(a, CapabilityId(1));
    assert_eq!(b, CapabilityId(2));
    assert_eq!(ids(m.get_process_capabilities(ProcessId(3))), vec![1, 2]);
    assert!(m.get_process_capabilities(ProcessId(4)).is_none());
}

#[test]
fn derive_needs_ownership_and_rights() {
    let mut m = CapabilityManager::new();
    let parent = m
        .create_capability(ResourceType::Endpoint, 7, Rights(KRIGHT_READ | KRIGHT_GRANT), ProcessId(1), 0)
        .unwrap();
    assert!(matches!(
        m.derive_capability(CapabilityId(99), Rights(KRIGHT_READ), ProcessId(2), ProcessId(1), 0),
        Err(CapabilityError::NotFound)
    ));
    assert!(matches!(
        m.derive_capability(parent, Rights(KRIGHT_READ), ProcessId(2), ProcessId(2), 0),
        Err(CapabilityError::AccessDenied)
    ));
    assert!(matches!(
        m.derive_capability(parent, Rights(KRIGHT_WRITE), ProcessId(2), ProcessId(1), 0),
        Err(CapabilityError::InsufficientRights)
    ));
    let child = m.derive_capability(parent, Rights(KRIGHT_READ), ProcessId(2), ProcessId(1), 5).unwrap();
    assert_eq!(child, CapabilityId(2));
    let caps = m.get_process_capabilities(ProcessId(2)).unwrap();
    assert_eq!(caps.len(), 1);
    assert_eq!(caps[0].derived_from, Some(parent));
    assert_eq!(caps[0].rights, Rights(KRIGHT_READ));
    assert_eq!(caps[0].resource_id, 7);
    assert_eq!(caps[0].creation_time, 5);
}

#[test]
fn derive_without_grant_is_refused() {
    let mut m = CapabilityManager::new();
    let parent = m.create_capability(ResourceType::Endpoint, 7, Rights(KRIGHT_READ), ProcessId(1), 0).unwrap();
    assert!(matches!(
        m.derive_capability(parent, Rights(KRIGHT_READ), ProcessId(2), ProcessId(1), 0),
        Err(CapabilityError::InsufficientRights)
    ));
}

#[test]
fn revoke_cascades_to_every_derivation() {
    let kernel = ProcessId(0);
    let mut m = CapabilityManager::new();
    let root = m.create_capability(ResourceType::Endpoint, 1, Rights(KRIGHT_ALL), kernel, 0).unwrap();
    let k_child = m.derive_capability(root, Rights(KRIGHT_READ | KRIGHT_GRANT), kernel, kernel, 0).unwrap();
    let k_grandchild = m.derive_capability(k_child, Rights(KRIGHT_READ), kernel, kernel, 0).unwrap();
    let user_child = m.derive_capability(root, Rights(KRIGHT_READ), ProcessId(5), kernel, 0).unwrap();
    assert_eq!(ids(m.get_process_capabilities(kernel)), vec![root.0, k_child.0, k_grandchild.0]);
    assert!(m.revoke_capability(root, kernel).is_ok());
    assert_eq!(ids(m.get_process_capabilities(kernel)), Vec::<u32>::new());
    // The user's copy goes too: everything derived from the root is revoked.
    assert_eq!(ids(m.get_process_capabilities(ProcessId(5))), Vec::<u32>::new());
    assert!(matches!(m.revoke_capability(user_child, ProcessId(5)), Err(CapabilityError::NotFound)));
    assert!(matches!(m.revoke_capability(root, kernel), Err(CapabilityError::NotFound)));
}

#[test]
fn revoke_by_parent_owner_or_owner_only() {
    let mut m = CapabilityManager::new();
    let parent = m.create_capability(ResourceType::Endpoint, 1, Rights(KRIGHT_ALL), ProcessId(1), 0).unwrap();
    let child = m.derive_capability(parent, Rights(KRIGHT_READ), ProcessId(2), ProcessId(1), 0).unwrap();
    assert!(matches!(m.revoke_capability(child, ProcessId(3)), Err(CapabilityError::AccessDenied)));
    assert!(m.revoke_capability(child, ProcessId(1)).is_ok());
    assert!(m.get_process_capabilities(ProcessId(2)).map_or(true, |v| v.is_empty()));
}

#[test]
fn endpoint_and_memory_access() {
    let mut m = CapabilityManager::new();
    m.create_capability(ResourceType::Endpoint, 9, Rights(KRIGHT_READ | KRIGHT_WRITE), ProcessId(4), 0).unwrap();
    assert!(m.has_endpoint_access(ProcessId(4), EndpointId(9), Rights(KRIGHT_WRITE)));
    assert!(!m.has_endpoint_access(ProcessId(4), EndpointId(9), Rights(KRIGHT_GRANT)));
    assert!(!m.has_endpoint_access(ProcessId(4), EndpointId(8), Rights(KRIGHT_READ)));
    assert!(!m.has_endpoint_access(ProcessId(5), EndpointId(9), Rights(KRIGHT_READ)));
    m.create_capability(ResourceType::Memory, 0x4000, Rights(KRIGHT_READ), ProcessId(4), 0).unwrap();
    assert!(m.has_memory_access(ProcessId(4), VirtAddr(0x4000), 16, Rights(KRIGHT_READ)));
    assert!(!m.has_memory_access(ProcessId(4), VirtAddr(0x4000), 16, Rights(KRIGHT_WRITE)));
}

#[test]
fn irq_capability_check() {
    let mut m = CapabilityManager::new();
    let c = m.create_capability(ResourceType::Irq, 11, Rights(KRIGHT_ADMIN), ProcessId(6), 0).unwrap();
    let weak = m.create_capability(ResourceType::Irq, 11, Rights(KRIGHT_READ), ProcessId(6), 0).unwrap();
    assert!(m.verify_irq_capability(ProcessId(6), c, 11));
    assert!(!m.verify_irq_capability(ProcessId(6), weak, 11));
    assert!(!m.verify_irq_capability(ProcessId(6), c, 12));
    assert!(!m.verify_irq_capability(ProcessId(7), c, 11));
}

#[test]
fn initial_capabilities_and_transfer() {
    let mut m = CapabilityManager::new();
    let set = m.create_initial_capabilities(ProcessId(3), 0);
    assert!(set.list().is_empty());
    let caps = m.get_process_capabilities(ProcessId(3)).unwrap();
    assert_eq!(caps.len(), 1);
    assert_eq!(caps[0].resource_type, ResourceType::Process);
    assert_eq!(caps[0].resource_id, 3);
    assert_eq!(caps[0].rights, Rights(KRIGHT_READ | KRIGHT_WRITE));
    let id = caps[0].id;
    assert!(m.transfer_capability(id, ProcessId(3), ProcessId(4)).is_ok());
    assert_eq!(ids(m.get_process_capabilities(ProcessId(4))), vec![id.0]);
    assert!(m.get_process_capabilities(ProcessId(3)).map_or(true, |v| v.is_empty()));
    m.remove_process_capabilities(ProcessId(4));
    assert!(m.get_process_capabilities(ProcessId(4)).map_or(true, |v| v.is_empty()));
}

#[test]
fn revoke_reaches_grandchildren_of_other_owners() {
    let mut m = CapabilityManager::new();
    let root = m.create_capability(ResourceType::Endpoint, 1, Rights(KRIGHT_ALL), ProcessId(1), 0).unwrap();
    let child = m.derive_capability(root, Rights(KRIGHT_READ | KRIGHT_GRANT), ProcessId(2), ProcessId(1), 0).unwrap();
    let grandchild = m.derive_capability(child, Rights(KRIGHT_READ), ProcessId(3), ProcessId(2), 0).unwrap();
    let other = m.create_capability(ResourceType::Endpoint, 2, Rights(KRIGHT_ALL), ProcessId(3), 0).unwrap();
    assert!(m.revoke_capability(root, ProcessId(1)).is_ok());
    assert!(m.get_process_capabilities(ProcessId(2)).map_or(true, |v| v.is_empty()));
    // Process 3 keeps only the capability not derived from the root.
    assert_eq!(ids(m.get_process_capabilities(ProcessId(3))), vec![other.0]);
    assert!(grandchild.0 != other.0);
}
