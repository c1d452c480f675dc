//! Segment selectors of the kernel's descriptor table.
use vstd::prelude::*;

verus! {

/// Size of the stack used on entry from user mode (32KB).
pub const RSP0_STACK_SIZE: usize = 32768;

/// The selectors of the descriptor table: kernel code and data, user code
/// and data (requested privilege 3), and the task state segment.
#[derive(Debug, Clone, Copy, PartialEq, Eq, Structural)]
pub struct Selectors {
    pub kernel_code: u16,
    pub kernel_data: u16,
    pub user_code: u16,
    pub user_data: u16,
    pub tss: u16,
}

/// The selector of descriptor `index` at privilege `rpl`.
pub open spec fn selector(index: u16, rpl: u16) -> u16 {
    (index * 8 + rpl) as u16
}

/// The selectors of the table the kernel loads: null descriptor first,
/// then kernel code, kernel data, user code, user data and the two-slot
/// task state segment, in that order.
pub fn selectors() -> (r: Selectors)
    ensures
        r == (Selectors { kernel_code: selector(1, 0), kernel_data: selector(2, 0), user_code: selector(3, 3),
            user_data: selector(4, 3), tss: selector(5, 0) }),
{
    Selectors { kernel_code: 0x08, kernel_data: 0x10, user_code: 0x1B, user_data: 0x23, tss: 0x28 }
}

} // verus!
