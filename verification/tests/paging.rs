use tanos::kernel::boot::{MemoryRegion, MemoryRegionType};
use tanos::kernel::memory::frame::{Frame, FrameAllocator};
use tanos::kernel::memory::page::{AddressSpace, Page, PageFlags, PAGE_PRESENT, PAGE_USER_ACCESSIBLE, PAGE_WRITABLE};
use tanos::kernel::memory::MemoryError;
use tanos::kernel::process::process::load_elf;
use tanos::kernel::process::ProcessError;
use tanos::types::memory::PhysAddr;

/// An allocator whose free frames are `first..first + count`.
fn allocator(first: u64, count: u64) -> FrameAllocator {
    let map = vec![MemoryRegion {
        start: PhysAddr(first * 4096),
        end: PhysAddr((first + count) * 4096),
        region_type: MemoryRegionType::Available,
    }];
    FrameAllocator::new(&map).unwrap()
}

fn user_flags() -> PageFlags {
    PageFlags(PAGE_PRESENT | PAGE_WRITABLE | PAGE_USER_ACCESSIBLE)
}

#[test]
fn new_space_identity_maps_the_first_gigabyte() {
    let mut fa = allocator(16, 16);
    let space = AddressSpace::new(&mut fa).unwrap();
    // The top table and one table at each of the next two levels.
    assert_eq!(fa.free_frames(), 13);
    assert_eq!(space.cr3(), PhysAddr(16 * 4096));
    assert_eq!(space.translate(Page::from_number(0)), Some(Frame::from_index(0)));
    assert_eq!(space.translate(Page::from_number(0x12345)), Some(Frame::from_index(0x12345)));
    assert_eq!(space.translate(Page::from_number(0x3FFFF)), Some(Frame::from_index(0x3FFFF)));
    // Nothing above the first gigabyte.
    assert_eq!(space.translate(Page::from_number(0x40000)), None);
    assert_eq!(space.translate(Page::from_number(0x8_0000_0000)), None);
}

#[test]
fn new_space_needs_frames() {
    let mut fa = allocator(16, 2);
    assert!(matches!(AddressSpace::new(&mut fa), Err(MemoryError::OutOfMemory)));
    let mut none = allocator(16, 0);
    assert!(matches!(AddressSpace::new(&mut none), Err(MemoryError::OutOfMemory)));
}

#[test]
fn map_translate_unmap() {
    let mut fa = allocator(16, 16);
    let mut space = AddressSpace::kernel_space(&mut fa).unwrap();
    let page = Page::from_number(0x40000); // 1GB, the user base
    let frame = Frame::from_index(100);
    assert_eq!(space.map_page(&mut fa, page, frame, user_flags()), Ok(()));
    // A second-level entry for 1GB and a last-level table were needed.
    assert_eq!(fa.free_frames(), 11);
    assert_eq!(space.translate(page), Some(frame));
    // The neighbour page shares the tables and is not mapped.
    assert_eq!(space.translate(Page::from_number(0x40001)), None);
    assert_eq!(space.map_page(&mut fa, Page::from_number(0x40001), Frame::from_index(101), user_flags()), Ok(()));
    assert_eq!(fa.free_frames(), 11);
    assert_eq!(space.translate(Page::from_number(0x40001)), Some(Frame::from_index(101)));
    assert_eq!(space.translate(page), Some(frame));
    // Mapping again is refused.
    assert_eq!(space.map_page(&mut fa, page, Frame::from_index(5), user_flags()), Err(MemoryError::AlreadyMapped));
    assert_eq!(space.translate(page), Some(frame));
    // Unmapping gives the frame back once.
    assert_eq!(space.unmap_page(page), Ok(frame));
    assert_eq!(space.translate(page), None);
    assert_eq!(space.unmap_page(page), Err(MemoryError::AddressNotMapped));
    assert_eq!(space.translate(Page::from_number(0x40001)), Some(Frame::from_index(101)));
}

#[test]
fn kernel_identity_pages_are_protected() {
    let mut fa = allocator(16, 16);
    let mut space = AddressSpace::user_space(&mut fa).unwrap();
    let low = Page::from_number(0x100);
    assert_eq!(space.map_page(&mut fa, low, Frame::from_index(3), user_flags()), Err(MemoryError::AlreadyMapped));
    assert_eq!(space.unmap_page(low), Err(MemoryError::AddressNotMapped));
    assert_eq!(space.translate(low), Some(Frame::from_index(0x100)));
}

#[test]
fn mapping_far_away_builds_every_level() {
    let mut fa = allocator(16, 16);
    let mut space = AddressSpace::new(&mut fa).unwrap();
    // 512GB: the second top-level entry.
    let far = Page::from_number(1 << 27);
    assert_eq!(space.map_page(&mut fa, far, Frame::from_index(9), user_flags()), Ok(()));
    assert_eq!(fa.free_frames(), 10);
    assert_eq!(space.translate(far), Some(Frame::from_index(9)));
}

#[test]
fn running_out_of_table_frames() {
    let mut fa = allocator(16, 4);
    let mut space = AddressSpace::new(&mut fa).unwrap();
    // Two more tables are needed at 1GB, one frame is left.
    let page = Page::from_number(0x40000);
    assert_eq!(space.map_page(&mut fa, page, Frame::from_index(100), user_flags()), Err(MemoryError::OutOfMemory));
    assert_eq!(space.translate(page), None);
}

/// A static ELF64 executable entering at 0x4000_0078, with one loadable
/// segment at `vaddr` of `filesz` bytes from the file and `memsz` in memory.
fn elf(vaddr: u64, filesz: u64, memsz: u64) -> Vec<u8> {
    let mut d = vec![0u8; 120];
    d[0..4].copy_from_slice(&[0x7f, b'E', b'L', b'F']);
    d[4] = 2;
    d[0x18..0x20].copy_from_slice(&0x4000_0078u64.to_le_bytes());
    d[0x20..0x28].copy_from_slice(&64u64.to_le_bytes());
    d[0x36..0x38].copy_from_slice(&56u16.to_le_bytes());
    d[0x38..0x3a].copy_from_slice(&1u16.to_le_bytes());
    d[64..68].copy_from_slice(&1u32.to_le_bytes());
    d[64 + 0x10..64 + 0x18].copy_from_slice(&vaddr.to_le_bytes());
    d[64 + 0x20..64 + 0x28].copy_from_slice(&filesz.to_le_bytes());
    d[64 + 0x28..64 + 0x30].copy_from_slice(&memsz.to_le_bytes());
    d
}

fn mapped(space: &AddressSpace, vaddr: u64) -> bool {
    space.translate(Page::from_number((vaddr / 4096) as usize)).is_some()
}

#[test]
fn load_elf_maps_segment_and_stack_pages() {
    let mut fa = allocator(16, 64);
    let mut space = AddressSpace::user_space(&mut fa).unwrap();
    assert_eq!(fa.free_frames(), 61);
    // The segment straddles two pages at 1GB.
    assert_eq!(load_elf(&elf(0x4000_0800, 120, 0x1000), &mut space, &mut fa), Ok(0x4000_0078));
    assert!(mapped(&space, 0x4000_0000));
    assert!(mapped(&space, 0x4000_1000));
    assert!(!mapped(&space, 0x4000_2000));
    // Four stack pages just below 3GB.
    for k in 1..=4u64 {
        assert!(mapped(&space, 0xC000_0000 - k * 4096));
    }
    assert!(!mapped(&space, 0xC000_0000 - 5 * 4096));
    assert!(!mapped(&space, 0xC000_0000));
    // Two tables and two pages for the segment, two tables and four pages
    // for the stack.
    assert_eq!(fa.free_frames(), 51);
    // The kernel's identity map stays.
    assert_eq!(space.translate(Page::from_number(5)), Some(Frame::from_index(5)));
}

#[test]
fn load_elf_keeps_pages_already_mapped() {
    let mut fa = allocator(16, 64);
    let mut space = AddressSpace::user_space(&mut fa).unwrap();
    // A segment in the identity-mapped first gigabyte takes no frame.
    assert_eq!(load_elf(&elf(0x20_0000, 120, 0x3000), &mut space, &mut fa), Ok(0x4000_0078));
    assert_eq!(space.translate(Page::from_number(0x201)), Some(Frame::from_index(0x201)));
    assert_eq!(fa.free_frames(), 61 - 6);
}

#[test]
fn load_elf_refuses_bad_images_without_taking_frames() {
    let mut fa = allocator(16, 64);
    let mut space = AddressSpace::user_space(&mut fa).unwrap();
    let mut bad = elf(0x4000_0000, 120, 0x1000);
    bad[1] = b'X';
    assert_eq!(load_elf(&bad, &mut space, &mut fa), Err(ProcessError::InvalidElf));
    // A segment ending within a page of the top of the address space.
    assert_eq!(load_elf(&elf(u64::MAX - 0x1000, 0, 0x10), &mut space, &mut fa), Err(ProcessError::InvalidElf));
    assert_eq!(fa.free_frames(), 61);
    assert!(!mapped(&space, 0xC000_0000 - 4096));
}

#[test]
fn load_elf_runs_out_of_frames() {
    let mut fa = allocator(16, 5);
    let mut space = AddressSpace::user_space(&mut fa).unwrap();
    assert_eq!(load_elf(&elf(0x4000_0000, 120, 0x1000), &mut space, &mut fa), Err(ProcessError::OutOfMemory));
}
