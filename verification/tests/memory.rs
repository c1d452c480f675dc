use tanos::kernel::boot::{BootInfo, BootParams, MemoryRegion, MemoryRegionType};
use tanos::kernel::memory::frame::{Frame, FrameAllocator};
use tanos::kernel::memory::{is_user_readable, is_user_writable, MemoryError, MemoryManager};
use tanos::types::memory::PhysAddr;

fn region(start: u64, end: u64, region_type: MemoryRegionType) -> MemoryRegion {
    MemoryRegion { start: PhysAddr(start), end: PhysAddr(end), region_type }
}

/// 16 frames: the first 4 reserved, the next 12 available.
fn small_map() -> Vec<MemoryRegion> {
    vec![region(0, 0x4000, MemoryRegionType::Reserved), region(0x4000, 0x10000, MemoryRegionType::Available)]
}

#[test]
fn allocator_covers_the_map() {
    let a = FrameAllocator::new(&small_map()).unwrap();
    assert_eq!(a.total_frames(), 16);
    assert_eq!(a.free_frames(), 12);
}

#[test]
fn frames_are_handed_out_in_order_and_come_back() {
    let mut a = FrameAllocator::new(&small_map()).unwrap();
    let f = a.allocate().unwrap();
    assert_eq!(f.as_index(), 4);
    assert_eq!(f.start_address(), PhysAddr(0x4000));
    assert_eq!(f.end_address(), PhysAddr(0x5000));
    assert_eq!(a.allocate().unwrap().as_index(), 5);
    assert_eq!(a.free_frames(), 10);
    a.deallocate(f);
    assert_eq!(a.free_frames(), 11);
    // The freed frame is found again first.
    assert_eq!(a.allocate().unwrap().as_index(), 4);
}

#[test]
fn deallocating_a_free_frame_changes_nothing() {
    let mut a = FrameAllocator::new(&small_map()).unwrap();
    a.deallocate(Frame::from_index(8));
    assert_eq!(a.free_frames(), 12);
    a.deallocate(Frame::from_index(1000));
    assert_eq!(a.free_frames(), 12);
}

#[test]
fn allocator_runs_dry() {
    let mut a = FrameAllocator::new(&small_map()).unwrap();
    for _ in 0..12 {
        assert!(a.allocate().is_some());
    }
    assert!(a.allocate().is_none());
    assert_eq!(a.free_frames(), 0);
}

#[test]
fn contiguous_frames() {
    let mut a = FrameAllocator::new(&small_map()).unwrap();
    let v = a.allocate_contiguous_frames(4).unwrap();
    let idx: Vec<usize> = v.iter().map(|f| f.as_index()).collect();
    assert_eq!(idx, vec![4, 5, 6, 7]);
    assert_eq!(a.free_frames(), 8);
    assert!(a.allocate_contiguous_frames(0).unwrap().is_empty());
    assert!(matches!(a.allocate_contiguous_frames(9), Err(MemoryError::OutOfMemory)));
}

#[test]
fn reserved_range_is_not_handed_out() {
    let mut a = FrameAllocator::new(&small_map()).unwrap();
    // Both bounds' frames are reserved.
    assert!(a.reserve_range(PhysAddr(0x4000), PhysAddr(0x6000)).is_ok());
    assert_eq!(a.free_frames(), 9);
    assert_eq!(a.allocate().unwrap().as_index(), 7);
}

#[test]
fn frame_addresses() {
    let f = Frame::from_address(PhysAddr(0x12345));
    assert_eq!(f.as_index(), 0x12);
    assert_eq!(f.start_address(), PhysAddr(0x12000));
}

#[test]
fn test_memory_management_integration() {
    let boot_info = BootInfo {
        memory_map: vec![
            region(0, 0x9FC00, MemoryRegionType::Reserved),
            region(0x100000, 0x100000 + 0x3F00000, MemoryRegionType::Available),
            region(0x4000000, 0x4000000 + 0x100000, MemoryRegionType::AcpiReclaimable),
        ],
        kernel_start: PhysAddr(0x100000),
        kernel_end: PhysAddr(0x500000),
        initrd_start: Some(PhysAddr(0x600000)),
        initrd_end: Some(PhysAddr(0x700000)),
        framebuffer: None,
        boot_params: BootParams { cmdline: None, loader_name: None },
    };
    let mut mm = MemoryManager::new(&boot_info).unwrap();
    assert!(mm.allocate_frame().is_some());
    assert!(mm.allocate_contiguous_frames(4).is_some());
}

#[test]
fn user_range_checks() {
    assert!(is_user_readable(0x4000_0000, 16));
    assert!(!is_user_readable(0x3FFF_FFFF, 16));
    assert!(is_user_readable(0xBFFF_FFF0, 16));
    assert!(!is_user_readable(0xBFFF_FFF1, 16));
    assert!(is_user_writable(0x4000_0000, 16));
    assert!(!is_user_writable(0xFFFF_8000_0000_0000, 8));
}

#[test]
fn overlapping_regions_count_each_frame_once() {
    let map = vec![
        region(0x4000, 0x8000, MemoryRegionType::Available),
        region(0x6000, 0xA000, MemoryRegionType::Available),
    ];
    let mut a = FrameAllocator::new(&map).unwrap();
    // Frames 4 to 9 are free, six in all.
    assert_eq!(a.free_frames(), 6);
    for _ in 0..6 {
        assert!(a.allocate().is_some());
    }
    assert_eq!(a.free_frames(), 0);
    assert!(a.allocate().is_none());
}
