use tanos::kernel::boot::multiboot::{memory_region_type, parse_multiboot2_info, MULTIBOOT2_INFO_MAGIC};
use tanos::kernel::boot::uefi::parse_uefi_info;
use tanos::kernel::boot::{kernel_boot_info, parse_boot_info, MemoryRegionType};
use tanos::types::memory::PhysAddr;

fn put32(v: &mut Vec<u8>, x: u32) {
    v.extend_from_slice(&x.to_le_bytes());
}

fn put64(v: &mut Vec<u8>, x: u64) {
    v.extend_from_slice(&x.to_le_bytes());
}

fn align(v: &mut Vec<u8>) {
    while v.len() % 8 != 0 {
        v.push(0);
    }
}

fn string_tag(v: &mut Vec<u8>, ty: u32, text: &[u8]) {
    put32(v, ty);
    put32(v, 8 + text.len() as u32 + 1);
    v.extend_from_slice(text);
    v.push(0);
    align(v);
}

fn module_tag(v: &mut Vec<u8>, start: u32, end: u32) {
    put32(v, 3);
    put32(v, 16 + 7);
    put32(v, start);
    put32(v, end);
    v.extend_from_slice(b"initrd\0");
    align(v);
}

fn mmap_tag(v: &mut Vec<u8>, entry_size: u32, entries: &[(u64, u64, u32)]) {
    put32(v, 6);
    put32(v, 16 + 24 * entries.len() as u32);
    put32(v, entry_size);
    put32(v, 0);
    for &(base, len, ty) in entries {
        put64(v, base);
        put64(v, len);
        put32(v, ty);
        put32(v, 0);
    }
    align(v);
}

fn framebuffer_tag(v: &mut Vec<u8>) {
    put32(v, 8);
    put32(v, 32);
    put64(v, 0xFD00_0000);
    put32(v, 4096);
    put32(v, 1024);
    put32(v, 768);
    v.push(32);
    v.push(1);
    v.push(0);
    v.push(0);
    align(v);
}

fn finish(mut tags: Vec<u8>) -> Vec<u8> {
    put32(&mut tags, 0);
    put32(&mut tags, 8);
    let mut info = Vec::new();
    put32(&mut info, 8 + tags.len() as u32);
    put32(&mut info, 0);
    info.extend_from_slice(&tags);
    info
}

fn sample_info() -> Vec<u8> {
    let mut tags = Vec::new();
    string_tag(&mut tags, 1, b"console=ttyS0");
    string_tag(&mut tags, 2, b"GRUB 2.06");
    module_tag(&mut tags, 0x60_0000, 0x70_0000);
    mmap_tag(&mut tags, 24, &[(0, 0x9FC00, 1), (0x10_0000, 0x3F0_0000, 1), (0xFFFC_0000, 0x4_0000, 2)]);
    framebuffer_tag(&mut tags);
    finish(tags)
}

#[test]
fn multiboot_sample_is_parsed() {
    let info = sample_info();
    let boot = parse_multiboot2_info(&info, PhysAddr(0x10_0000), PhysAddr(0x50_0000));
    assert_eq!(boot.memory_map.len(), 3);
    assert_eq!(boot.memory_map[0].start, PhysAddr(0));
    assert_eq!(boot.memory_map[0].end, PhysAddr(0x9FC00));
    assert_eq!(boot.memory_map[0].region_type, MemoryRegionType::Available);
    assert_eq!(boot.memory_map[1].start, PhysAddr(0x10_0000));
    assert_eq!(boot.memory_map[1].end, PhysAddr(0x400_0000));
    assert_eq!(boot.memory_map[2].region_type, MemoryRegionType::Reserved);
    assert_eq!(boot.boot_params.cmdline.as_deref(), Some("console=ttyS0"));
    assert_eq!(boot.boot_params.loader_name.as_deref(), Some("GRUB 2.06"));
    assert_eq!(boot.initrd_start, Some(PhysAddr(0x60_0000)));
    assert_eq!(boot.initrd_end, Some(PhysAddr(0x70_0000)));
    let fb = boot.framebuffer.unwrap();
    assert_eq!(fb.address, PhysAddr(0xFD00_0000));
    assert_eq!((fb.width, fb.height, fb.pitch, fb.bpp), (1024, 768, 4096, 32));
    assert_eq!(boot.kernel_start, PhysAddr(0x10_0000));
    assert_eq!(boot.kernel_end, PhysAddr(0x50_0000));
}

#[test]
fn multiboot_first_module_is_the_initrd() {
    let mut tags = Vec::new();
    module_tag(&mut tags, 0x60_0000, 0x70_0000);
    module_tag(&mut tags, 0x80_0000, 0x90_0000);
    let info = finish(tags);
    let boot = parse_multiboot2_info(&info, PhysAddr(0), PhysAddr(0));
    assert_eq!(boot.initrd_start, Some(PhysAddr(0x60_0000)));
    assert_eq!(boot.initrd_end, Some(PhysAddr(0x70_0000)));
}

#[test]
fn multiboot_empty_info_gives_nothing() {
    let info = finish(Vec::new());
    let boot = parse_multiboot2_info(&info, PhysAddr(1), PhysAddr(2));
    assert!(boot.memory_map.is_empty());
    assert!(boot.boot_params.cmdline.is_none());
    assert!(boot.boot_params.loader_name.is_none());
    assert!(boot.initrd_start.is_none());
    assert!(boot.framebuffer.is_none());
}

#[test]
fn multiboot_map_with_zero_entry_size_keeps_earlier_map() {
    let mut tags = Vec::new();
    mmap_tag(&mut tags, 24, &[(0x10_0000, 0x1000, 1)]);
    mmap_tag(&mut tags, 0, &[(0x20_0000, 0x1000, 1)]);
    let info = finish(tags);
    let boot = parse_multiboot2_info(&info, PhysAddr(0), PhysAddr(0));
    assert_eq!(boot.memory_map.len(), 1);
    assert_eq!(boot.memory_map[0].start, PhysAddr(0x10_0000));
}

#[test]
fn multiboot_later_map_replaces_earlier_one() {
    let mut tags = Vec::new();
    mmap_tag(&mut tags, 24, &[(0x10_0000, 0x1000, 1)]);
    mmap_tag(&mut tags, 24, &[(0x20_0000, 0x1000, 3), (0x30_0000, 0x1000, 4)]);
    let info = finish(tags);
    let boot = parse_multiboot2_info(&info, PhysAddr(0), PhysAddr(0));
    assert_eq!(boot.memory_map.len(), 2);
    assert_eq!(boot.memory_map[0].region_type, MemoryRegionType::AcpiReclaimable);
    assert_eq!(boot.memory_map[1].region_type, MemoryRegionType::AcpiNvs);
}

#[test]
fn multiboot_region_end_wraps() {
    let mut tags = Vec::new();
    mmap_tag(&mut tags, 24, &[(u64::MAX, 2, 5)]);
    let info = finish(tags);
    let boot = parse_multiboot2_info(&info, PhysAddr(0), PhysAddr(0));
    assert_eq!(boot.memory_map[0].end, PhysAddr(1));
    assert_eq!(boot.memory_map[0].region_type, MemoryRegionType::BadRam);
}

#[test]
fn multiboot_stops_at_end_tag_and_total_size() {
    let mut tags = Vec::new();
    string_tag(&mut tags, 1, b"first");
    let mut info = finish(tags);
    // A tag after the end tag is not read.
    string_tag(&mut info, 2, b"after");
    let boot = parse_multiboot2_info(&info, PhysAddr(0), PhysAddr(0));
    assert_eq!(boot.boot_params.cmdline.as_deref(), Some("first"));
    assert!(boot.boot_params.loader_name.is_none());
}

#[test]
fn multiboot_truncated_tag_stops_the_walk() {
    let mut tags = Vec::new();
    string_tag(&mut tags, 1, b"kept");
    framebuffer_tag(&mut tags);
    let mut info = finish(tags);
    // Cut the buffer inside the framebuffer tag's fields.
    let cut = 8 + 24 + 12;
    info.truncate(cut);
    let boot = parse_multiboot2_info(&info, PhysAddr(0), PhysAddr(0));
    assert_eq!(boot.boot_params.cmdline.as_deref(), Some("kept"));
    assert!(boot.framebuffer.is_none());
}

#[test]
fn multiboot_invalid_utf8_is_replaced() {
    let mut tags = Vec::new();
    string_tag(&mut tags, 1, &[b'a', 0xFF, b'b']);
    let info = finish(tags);
    let boot = parse_multiboot2_info(&info, PhysAddr(0), PhysAddr(0));
    assert_eq!(boot.boot_params.cmdline.as_deref(), Some("a\u{FFFD}b"));
}

#[test]
fn multiboot_too_short_buffer() {
    let boot = parse_multiboot2_info(&[1, 2], PhysAddr(0), PhysAddr(0));
    assert!(boot.memory_map.is_empty());
    assert!(boot.boot_params.cmdline.is_none());
}

#[test]
fn region_type_codes() {
    assert_eq!(memory_region_type(1), MemoryRegionType::Available);
    assert_eq!(memory_region_type(2), MemoryRegionType::Reserved);
    assert_eq!(memory_region_type(3), MemoryRegionType::AcpiReclaimable);
    assert_eq!(memory_region_type(4), MemoryRegionType::AcpiNvs);
    assert_eq!(memory_region_type(5), MemoryRegionType::BadRam);
    assert_eq!(memory_region_type(0), MemoryRegionType::Reserved);
    assert_eq!(memory_region_type(9), MemoryRegionType::Reserved);
}

#[test]
fn uefi_fallback_description() {
    let boot = parse_uefi_info(PhysAddr(0x10_0000), PhysAddr(0x20_0000));
    assert_eq!(boot.memory_map.len(), 1);
    assert_eq!(boot.memory_map[0].start, PhysAddr(0x10_0000));
    assert_eq!(boot.memory_map[0].end, PhysAddr(0x4000_0000));
    assert_eq!(boot.memory_map[0].region_type, MemoryRegionType::Available);
    assert_eq!(boot.boot_params.loader_name.as_deref(), Some("UEFI"));
    assert!(boot.boot_params.cmdline.is_none());
    assert!(boot.initrd_start.is_none());
    assert_eq!(boot.kernel_end, PhysAddr(0x20_0000));
}

#[test]
fn boot_info_by_magic() {
    let info = sample_info();
    let mb = parse_boot_info(MULTIBOOT2_INFO_MAGIC as u64, &info, PhysAddr(0), PhysAddr(0));
    assert_eq!(mb.memory_map.len(), 3);
    // Only the low 32 bits of the magic count.
    let high = parse_boot_info(0xFFFF_FFFF_0000_0000 | MULTIBOOT2_INFO_MAGIC as u64, &info, PhysAddr(0), PhysAddr(0));
    assert_eq!(high.memory_map.len(), 3);
    let other = parse_boot_info(0x2BAD_B002, &info, PhysAddr(0), PhysAddr(0));
    assert_eq!(other.boot_params.loader_name.as_deref(), Some("UEFI"));
    assert_eq!(other.memory_map.len(), 1);
}

#[test]
fn kernel_starts_from_fallback_without_boot_information() {
    let info = sample_info();
    let b = kernel_boot_info(0x1234, Some(&info), PhysAddr(0x10_0000), PhysAddr(0x20_0000));
    assert_eq!(b.memory_map.len(), 2);
    assert_eq!(b.memory_map[0].region_type, MemoryRegionType::Reserved);
    assert_eq!(b.memory_map[1].start, PhysAddr(0x20_0000));
    assert_eq!(b.memory_map[1].end, PhysAddr(0x2000_0000));
    assert_eq!(b.memory_map[1].region_type, MemoryRegionType::Available);
    assert!(b.boot_params.loader_name.is_none());
    let b = kernel_boot_info(MULTIBOOT2_INFO_MAGIC as u64, None, PhysAddr(0x10_0000), PhysAddr(0x20_0000));
    assert_eq!(b.memory_map.len(), 2);
    let b = kernel_boot_info(MULTIBOOT2_INFO_MAGIC as u64, Some(&info), PhysAddr(0x10_0000), PhysAddr(0x30_0000));
    assert_eq!(b.kernel_end, PhysAddr(0x30_0000));
    assert_eq!(b.boot_params.loader_name, parse_multiboot2_info(&info, PhysAddr(0x10_0000), PhysAddr(0x30_0000)).boot_params.loader_name);
}
