//! Core type definitions shared by the kernel and userspace.
use vstd::prelude::*;

pub mod memory;
pub mod process;
pub mod ipc;
pub mod error;
pub mod capability;
pub mod display;

verus! {

/// Size of a memory page in bytes (4KB).
pub const PAGE_SIZE: usize = 4096;

/// Alignment requirement for pages.
pub const PAGE_ALIGN: usize = 4096;

/// Maximum number of processes in the system.
pub const MAX_PROCESSES: u16 = 4096;

/// Maximum number of threads per process.
pub const MAX_THREADS_PER_PROCESS: u16 = 256;

/// Maximum number of capabilities per process.
pub const MAX_CAPABILITIES: u32 = 1024;

/// Maximum physical memory address (52 bits on x86_64).
pub const MAX_PHYS_ADDR: u64 = 0x000F_FFFF_FFFF_FFFF;

/// 2^48: the size of the 48-bit virtual address space on x86_64.
pub const CANONICAL_BOUNDARY: u64 = 0x0001_0000_0000_0000;

/// Identifier of a registered device driver.
#[derive(Debug, Clone, Copy, PartialEq, Eq, PartialOrd, Ord, Hash, Structural)]
pub struct DriverId(pub u32);

impl DriverId {
    /// Create a driver ID.
    pub fn new(id: u32) -> (r: Self)
        ensures
            r.0 == id,
    {
        DriverId(id)
    }

    /// The raw value.
    pub fn as_u32(self) -> (r: u32)
        ensures
            r == self.0,
    {
        self.0
    }
}

/// Maximum message size in bytes.
pub const MAX_MESSAGE_SIZE: usize = 4096;

/// Maximum number of endpoints per process.
pub const MAX_ENDPOINTS_PER_PROCESS: u32 = 256;

/// Maximum number of memory regions per process.
pub const MAX_MEMORY_REGIONS: u32 = 128;

/// Maximum process name length.
pub const MAX_PROCESS_NAME_LEN: usize = 32;

/// Default process priority.
pub const DEFAULT_PRIORITY: u8 = 100;

/// Minimum process priority.
pub const MIN_PRIORITY: u8 = 1;

/// Maximum process priority.
pub const MAX_PRIORITY: u8 = 255;

} // verus!
