//! Boot information under UEFI, or from an unknown bootloader: a fixed
//! description with one gigabyte of usable memory above 1MB.
use vstd::prelude::*;
use crate::kernel::boot::{BootInfo, BootParams, MemoryRegion, MemoryRegionType};
use crate::kernel::boot::multiboot::opt_text;
use crate::types::memory::PhysAddr;

verus! {

/// Start of the usable memory assumed under UEFI.
pub const UEFI_MEMORY_START: u64 = 0x100000;
/// End of the usable memory assumed under UEFI (1GB).
pub const UEFI_MEMORY_END: u64 = 0x40000000;

/// `info` is the fixed UEFI description with the kernel image at
/// `kernel_start..kernel_end`.
pub open spec fn describes_uefi(info: BootInfo, kernel_start: PhysAddr, kernel_end: PhysAddr) -> bool {
    &&& info.memory_map@ == seq![MemoryRegion {
        start: PhysAddr(UEFI_MEMORY_START),
        end: PhysAddr(UEFI_MEMORY_END),
        region_type: MemoryRegionType::Available,
    }]
    &&& info.kernel_start == kernel_start
    &&& info.kernel_end == kernel_end
    &&& info.initrd_start is None
    &&& info.initrd_end is None
    &&& info.framebuffer is None
    &&& info.boot_params.cmdline is None
    &&& opt_text(info.boot_params.loader_name) == Some("UEFI"@)
}

/// The boot information under UEFI: one usable region from 1MB to 1GB, no
/// initrd, framebuffer or command line, and "UEFI" as the loader's name.
pub fn parse_uefi_info(kernel_start: PhysAddr, kernel_end: PhysAddr) -> (r: BootInfo)
    ensures
        describes_uefi(r, kernel_start, kernel_end),
{
    let mut memory_map: Vec<MemoryRegion> = Vec::new();
    memory_map.push(MemoryRegion {
        start: PhysAddr::new_unchecked(UEFI_MEMORY_START),
        end: PhysAddr::new_unchecked(UEFI_MEMORY_END),
        region_type: MemoryRegionType::Available,
    });
    BootInfo {
        memory_map,
        kernel_start,
        kernel_end,
        initrd_start: None,
        initrd_end: None,
        framebuffer: None,
        boot_params: BootParams { cmdline: None, loader_name: Some(String::from_str("UEFI")) },
    }
}

} // verus!
