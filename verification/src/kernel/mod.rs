//! The microkernel's own bookkeeping: memory, capabilities, processes,
//! scheduling, IPC, drivers and diagnostics.
use vstd::prelude::*;

pub mod boot;
pub mod capability;
pub mod debug;
pub mod driver;
pub mod gdt;
pub mod memory;
pub mod interrupt;
pub mod ipc;
pub mod process;
pub mod syscall;

verus! {

/// Size of a page in bytes.
pub const PAGE_SIZE: usize = 4096;

/// Size of the kernel heap (1MB).
pub const KERNEL_HEAP_SIZE: usize = 1048576;

/// Number of process table slots.
pub const MAX_PROCESSES: usize = 1024;

/// Maximum number of endpoints.
pub const MAX_ENDPOINTS: usize = 4096;

/// Maximum number of capabilities.
pub const MAX_CAPABILITIES: usize = 8192;

/// Physical load address of the kernel.
pub const KERNEL_BASE: usize = 0x100000;

/// Userspace link base (1GB), above the kernel's identity-mapped region.
pub const USER_BASE: usize = 0x4000_0000;

/// Top of the initial user stack (3GB).
pub const USER_STACK_TOP: usize = 0xC000_0000;

/// Virtual base of the kernel heap.
pub const KERNEL_HEAP_BASE: u64 = 0xFFFF800000000000;

/// Raw ID of the kernel process.
pub const KERNEL_PID: u16 = 0;

/// Raw ID of the init process.
pub const INIT_PID: u16 = 1;

} // verus!
