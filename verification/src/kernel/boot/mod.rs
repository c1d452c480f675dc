//! Boot information handed over by the bootloader.
pub mod multiboot;
pub mod uefi;

use vstd::prelude::*;
use crate::types::memory::PhysAddr;
use crate::kernel::boot::multiboot::{MULTIBOOT2_INFO_MAGIC, describes_multiboot, parse_multiboot2_info};
use crate::kernel::boot::uefi::{describes_uefi, parse_uefi_info};

verus! {

/// Size of the boot kernel stack (64KB).
pub const KERNEL_STACK_SIZE: usize = 65536;

/// Base of the boot kernel stack.
pub const KERNEL_STACK_BASE: usize = 0x200000;

/// Kind of a physical memory region reported by the bootloader.
#[derive(Debug, Clone, Copy, PartialEq, Eq, Structural)]
pub enum MemoryRegionType {
    /// Usable RAM.
    Available,
    /// Reserved.
    Reserved,
    /// ACPI reclaimable.
    AcpiReclaimable,
    /// ACPI NVS.
    AcpiNvs,
    /// Bad RAM.
    BadRam,
}

/// A physical memory region, `start` inclusive and `end` exclusive.
#[derive(Debug, Clone, Copy, PartialEq, Eq, Structural)]
pub struct MemoryRegion {
    /// First address.
    pub start: PhysAddr,
    /// First address past the region.
    pub end: PhysAddr,
    /// Kind of the region.
    pub region_type: MemoryRegionType,
}

/// Framebuffer description.
#[derive(Debug, Clone, Copy, PartialEq, Eq, Structural)]
pub struct FramebufferInfo {
    /// Physical address.
    pub address: PhysAddr,
    /// Width in pixels.
    pub width: u32,
    /// Height in pixels.
    pub height: u32,
    /// Bytes per line.
    pub pitch: u32,
    /// Bits per pixel.
    pub bpp: u8,
}

/// Boot parameters.
#[derive(Debug)]
pub struct BootParams {
    /// Kernel command line.
    pub cmdline: Option<String>,
    /// Bootloader name.
    pub loader_name: Option<String>,
}

/// Everything the kernel learns from the bootloader.
#[derive(Debug)]
pub struct BootInfo {
    /// Physical memory map.
    pub memory_map: Vec<MemoryRegion>,
    /// First address of the kernel image.
    pub kernel_start: PhysAddr,
    /// First address past the kernel image.
    pub kernel_end: PhysAddr,
    /// First address of the initrd, if any.
    pub initrd_start: Option<PhysAddr>,
    /// First address past the initrd, if any.
    pub initrd_end: Option<PhysAddr>,
    /// Framebuffer, if any.
    pub framebuffer: Option<FramebufferInfo>,
    /// Boot parameters.
    pub boot_params: BootParams,
}

/// Parse the boot information handed over with `magic`: multiboot2 when the
/// low 32 bits of `magic` are the multiboot2 magic, else the fixed UEFI
/// description. The kernel image lies at `kernel_start..kernel_end`.
pub fn parse_boot_info(magic: u64, info: &[u8], kernel_start: PhysAddr, kernel_end: PhysAddr) -> (r: BootInfo)
    ensures
        magic as u32 == MULTIBOOT2_INFO_MAGIC ==> describes_multiboot(r, info@, kernel_start, kernel_end),
        magic as u32 != MULTIBOOT2_INFO_MAGIC ==> describes_uefi(r, kernel_start, kernel_end),
{
    if magic as u32 == MULTIBOOT2_INFO_MAGIC {
        parse_multiboot2_info(info, kernel_start, kernel_end)
    } else {
        parse_uefi_info(kernel_start, kernel_end)
    }
}

/// `info` is the fixed description the kernel starts from when the
/// bootloader hands over no usable information: the first megabyte
/// reserved, 2MB to 512MB available, the kernel image at 1MB to 2MB, and
/// nothing else.
pub open spec fn describes_fallback(info: BootInfo) -> bool {
    &&& info.memory_map@ == seq![
        MemoryRegion { start: PhysAddr(0), end: PhysAddr(0x100000), region_type: MemoryRegionType::Reserved },
        MemoryRegion { start: PhysAddr(0x200000), end: PhysAddr(0x20000000), region_type: MemoryRegionType::Available },
    ]
    &&& info.kernel_start == PhysAddr(0x100000)
    &&& info.kernel_end == PhysAddr(0x200000)
    &&& info.initrd_start is None
    &&& info.initrd_end is None
    &&& info.framebuffer is None
    &&& info.boot_params.cmdline is None
    &&& info.boot_params.loader_name is None
}

/// The fixed boot information used when the bootloader hands over none.
pub fn fallback_boot_info() -> (r: BootInfo)
    ensures
        describes_fallback(r),
{
    let mut memory_map: Vec<MemoryRegion> = Vec::new();
    memory_map.push(MemoryRegion {
        start: PhysAddr::new_unchecked(0),
        end: PhysAddr::new_unchecked(0x100000),
        region_type: MemoryRegionType::Reserved,
    });
    memory_map.push(MemoryRegion {
        start: PhysAddr::new_unchecked(0x200000),
        end: PhysAddr::new_unchecked(0x20000000),
        region_type: MemoryRegionType::Available,
    });
    assert(memory_map@ =~= seq![
        MemoryRegion { start: PhysAddr(0), end: PhysAddr(0x100000), region_type: MemoryRegionType::Reserved },
        MemoryRegion { start: PhysAddr(0x200000), end: PhysAddr(0x20000000), region_type: MemoryRegionType::Available },
    ]);
    BootInfo {
        memory_map,
        kernel_start: PhysAddr::new_unchecked(0x100000),
        kernel_end: PhysAddr::new_unchecked(0x200000),
        initrd_start: None,
        initrd_end: None,
        framebuffer: None,
        boot_params: BootParams { cmdline: None, loader_name: None },
    }
}

/// The boot information the kernel starts from: the multiboot2
/// information `info` (the bytes at the information pointer, `None` for a
/// null pointer) when the low 32 bits of `magic` are the multiboot2 magic
/// and there is information, else the fixed fallback.
pub fn kernel_boot_info(magic: u64, info: Option<&[u8]>, kernel_start: PhysAddr, kernel_end: PhysAddr) -> (r: BootInfo)
    ensures
        (magic as u32 == MULTIBOOT2_INFO_MAGIC && info is Some)
            ==> describes_multiboot(r, info.unwrap()@, kernel_start, kernel_end),
        !(magic as u32 == MULTIBOOT2_INFO_MAGIC && info is Some) ==> describes_fallback(r),
{
    match info {
        Some(bytes) => if magic as u32 == MULTIBOOT2_INFO_MAGIC {
            parse_boot_info(magic, bytes, kernel_start, kernel_end)
        } else {
            fallback_boot_info()
        },
        None => fallback_boot_info(),
    }
}

} // verus!
