//! x86_64 architectural constants and the register context record.
use vstd::prelude::*;

verus! {

/// x86_64 page size (4KB).
pub const PAGE_SIZE: usize = 4096;

/// x86_64 page mask.
pub const PAGE_MASK: usize = 4095;

/// Typical x86_64 cache line size.
pub const CACHE_LINE_SIZE: usize = 64;

/// Maximum number of system call arguments in the x86_64 ABI.
pub const MAX_SYSCALL_ARGS: usize = 6;

/// User space start address.
pub const USER_SPACE_START: u64 = 0x0000_0000_0000_0000;

/// User space end address (canonical limit).
pub const USER_SPACE_END: u64 = 0x0000_7FFF_FFFF_FFFF;

/// Kernel space start address.
pub const KERNEL_SPACE_START: u64 = 0xFFFF_8000_0000_0000;

/// Kernel space end address.
pub const KERNEL_SPACE_END: u64 = 0xFFFF_FFFF_FFFF_FFFF;

/// Default user stack size (8MB).
pub const DEFAULT_USER_STACK_SIZE: usize = 8388608;

/// Minimum user stack size (4KB).
pub const MIN_USER_STACK_SIZE: usize = 4096;

/// Maximum user stack size (128MB).
pub const MAX_USER_STACK_SIZE: usize = 134217728;

/// Register context for debugging.
#[derive(Debug, Clone, Copy)]
pub struct X86_64Context {
    pub rax: u64,
    pub rbx: u64,
    pub rcx: u64,
    pub rdx: u64,
    pub rsi: u64,
    pub rdi: u64,
    pub rbp: u64,
    pub rsp: u64,
    pub r8: u64,
    pub r9: u64,
    pub r10: u64,
    pub r11: u64,
    pub r12: u64,
    pub r13: u64,
    pub r14: u64,
    pub r15: u64,
    pub rip: u64,
    pub rflags: u64,
    pub cs: u16,
    pub ds: u16,
    pub es: u16,
    pub fs: u16,
    pub gs: u16,
    pub ss: u16,
}

impl Default for X86_64Context {
    /// All registers zero but `rflags`, which has the interrupt flag and the
    /// reserved bit set.
    fn default() -> (r: Self)
        ensures
            r == (X86_64Context {
                rax: 0, rbx: 0, rcx: 0, rdx: 0, rsi: 0, rdi: 0, rbp: 0, rsp: 0,
                r8: 0, r9: 0, r10: 0, r11: 0, r12: 0, r13: 0, r14: 0, r15: 0,
                rip: 0, rflags: 0x202, cs: 0, ds: 0, es: 0, fs: 0, gs: 0, ss: 0,
            }),
    {
        X86_64Context {
            rax: 0, rbx: 0, rcx: 0, rdx: 0, rsi: 0, rdi: 0, rbp: 0, rsp: 0,
            r8: 0, r9: 0, r10: 0, r11: 0, r12: 0, r13: 0, r14: 0, r15: 0,
            rip: 0, rflags: 0x202, cs: 0, ds: 0, es: 0, fs: 0, gs: 0, ss: 0,
        }
    }
}

} // verus!
