//! The register context a process is created with.
use vstd::prelude::*;
use crate::types::memory::VirtAddr;
use crate::kernel::boot::{KERNEL_STACK_BASE, KERNEL_STACK_SIZE};
use crate::kernel::USER_STACK_TOP;

verus! {

/// Kernel code segment selector.
pub const KERNEL_CODE_SEGMENT: u16 = 0x08;
/// Kernel data segment selector.
pub const KERNEL_DATA_SEGMENT: u16 = 0x10;
/// User code segment selector (requested privilege level 3).
pub const USER_CODE_SEGMENT: u16 = 0x1B;
/// User data segment selector (requested privilege level 3).
pub const USER_DATA_SEGMENT: u16 = 0x23;

/// A process's saved registers.
#[derive(Debug, Clone, Copy, PartialEq, Eq, Structural)]
pub struct Context {
    pub rax: u64, pub rbx: u64, pub rcx: u64, pub rdx: u64,
    pub rsi: u64, pub rdi: u64, pub rbp: u64, pub rsp: u64,
    pub r8: u64, pub r9: u64, pub r10: u64, pub r11: u64,
    pub r12: u64, pub r13: u64, pub r14: u64, pub r15: u64,
    pub rip: u64,
    pub rflags: u64,
    pub cr3: u64,
    pub cs: u16, pub ds: u16, pub es: u16,
    pub fs: u16, pub gs: u16, pub ss: u16,
}

/// The context with every register zero.
pub open spec fn zero_context() -> Context {
    Context {
        rax: 0, rbx: 0, rcx: 0, rdx: 0, rsi: 0, rdi: 0, rbp: 0, rsp: 0,
        r8: 0, r9: 0, r10: 0, r11: 0, r12: 0, r13: 0, r14: 0, r15: 0,
        rip: 0, rflags: 0, cr3: 0, cs: 0, ds: 0, es: 0, fs: 0, gs: 0, ss: 0,
    }
}

/// The initial context of a process entering at `entry`: kernel or user
/// selectors, interrupts enabled, the stack at the top of the kernel stack
/// or of the user stack.
pub open spec fn initial_context(entry: u64, is_kernel: bool) -> Context {
    let (cs, ss, rsp) = if is_kernel {
        (KERNEL_CODE_SEGMENT, KERNEL_DATA_SEGMENT, (KERNEL_STACK_BASE + KERNEL_STACK_SIZE) as u64)
    } else {
        (USER_CODE_SEGMENT, USER_DATA_SEGMENT, USER_STACK_TOP as u64)
    };
    Context { rsp, rip: entry, rflags: 0x202, cs, ss, ds: ss, es: ss, fs: ss, gs: ss, ..zero_context() }
}

impl Context {
    /// The initial context for entry point `entry_point`.
    pub fn new(entry_point: VirtAddr, is_kernel: bool) -> (r: Self)
        ensures
            r == initial_context(entry_point.0, is_kernel),
    {
        let (cs, ss, rsp): (u16, u16, u64) = if is_kernel {
            (KERNEL_CODE_SEGMENT, KERNEL_DATA_SEGMENT, 0x210000)
        } else {
            (USER_CODE_SEGMENT, USER_DATA_SEGMENT, 0xC000_0000)
        };
        Context {
            rax: 0, rbx: 0, rcx: 0, rdx: 0, rsi: 0, rdi: 0, rbp: 0, rsp,
            r8: 0, r9: 0, r10: 0, r11: 0, r12: 0, r13: 0, r14: 0, r15: 0,
            rip: entry_point.0,
            rflags: 0x202,
            cr3: 0,
            cs, ss, ds: ss, es: ss, fs: ss, gs: ss,
        }
    }
}

impl Default for Context {
    fn default() -> (r: Self)
        ensures
            r == zero_context(),
    {
        Context {
            rax: 0, rbx: 0, rcx: 0, rdx: 0, rsi: 0, rdi: 0, rbp: 0, rsp: 0,
            r8: 0, r9: 0, r10: 0, r11: 0, r12: 0, r13: 0, r14: 0, r15: 0,
            rip: 0, rflags: 0, cr3: 0, cs: 0, ds: 0, es: 0, fs: 0, gs: 0, ss: 0,
        }
    }
}

} // verus!
