use tanos::types::memory::{Page, PhysAddr, VirtAddr};
use tanos::types::process::CpuAffinityMask;

#[test]
fn canonical_addresses_are_the_two_halves() {
    assert!(VirtAddr::new(0x0000_7FFF_FFFF_FFFF).is_some());
    assert!(VirtAddr::new(0x0000_8000_0000_0000).is_none());
    assert!(VirtAddr::new(0xFFFF_7FFF_FFFF_FFFF).is_none());
    assert!(VirtAddr::new(0xFFFF_8000_0000_0000).is_some());
    assert!(!VirtAddr::new_unchecked(0x0001_0000_0000_0000).is_canonical());
}

#[test]
fn rounding_up_reaches_the_last_aligned_address() {
    assert_eq!(PhysAddr(0x1001).align_up(0x1000), PhysAddr(0x2000));
    assert_eq!(PhysAddr(u64::MAX - 0xFFF).align_up(0x1000), PhysAddr(u64::MAX - 0xFFF));
    assert_eq!(VirtAddr(0xFFFF_FFFF_FFFF_E001).page_align_up(), VirtAddr(0xFFFF_FFFF_FFFF_F000));
    let r = Page::range(VirtAddr(0x1000), VirtAddr(u64::MAX - 0xFFF));
    assert_eq!(r.end.address(), VirtAddr(u64::MAX - 0xFFF));
}

#[test]
fn any_cpu_is_the_empty_mask() {
    assert_eq!(CpuAffinityMask::any().as_u64(), 0);
}
