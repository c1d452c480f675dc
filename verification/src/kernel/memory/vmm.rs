//! Page-table entries and tables, page-fault error codes and the virtual
//! memory manager's bookkeeping.
use vstd::prelude::*;
use crate::types::memory::PhysAddr;
use crate::kernel::memory::MemoryError;
use crate::kernel::memory::frame::{Frame, FrameAllocator, frame_index_of};
use crate::kernel::memory::page::{PageFlags, AddressSpace, Page, map_outcome, unmap_outcome, MAX_TABLE_FRAMES};

verus! {

/// The entry is present.
pub const PTE_PRESENT: u64 = 0x1;
/// Mask of the frame address held in an entry.
pub const PTE_ADDRESS_MASK: u64 = 0x000F_FFFF_FFFF_F000;

/// One x86_64 page-table entry: a frame address and flag bits.
#[derive(Debug, Clone, Copy, PartialEq, Eq, Structural)]
pub struct PageTableEntry(pub u64);

impl PageTableEntry {
    /// An empty (not present) entry.
    pub fn new() -> (r: Self)
        ensures
            r.0 == 0,
    {
        PageTableEntry(0)
    }

    /// Whether the entry maps a frame.
    pub fn is_present(self) -> (r: bool)
        ensures
            r == (self.0 & PTE_PRESENT != 0),
    {
        self.0 & PTE_PRESENT != 0
    }

    /// Point the entry at `frame` with `flags`.
    pub fn set_frame(&mut self, frame: Frame, flags: PageFlags)
        requires
            frame.index * 4096 <= u64::MAX,
        ensures
            final(self).0 == ((frame.index * 4096) as u64 & PTE_ADDRESS_MASK) | flags.0,
    {
        let a = frame.start_address().as_u64() & PTE_ADDRESS_MASK;
        self.0 = a | flags.bits();
    }

    /// The frame the entry maps, if present.
    pub fn get_frame(self) -> (r: Option<Frame>)
        ensures
            self.0 & PTE_PRESENT != 0 ==> r == Some(Frame { index: frame_index_of(self.0 & PTE_ADDRESS_MASK) }),
            self.0 & PTE_PRESENT == 0 ==> r is None,
    {
        if self.is_present() {
            Some(Frame::from_address(PhysAddr::new_unchecked(self.0 & PTE_ADDRESS_MASK)))
        } else {
            None
        }
    }

    /// Replace the flags, keeping the frame address.
    pub fn set_flags(&mut self, flags: PageFlags)
        ensures
            final(self).0 == (old(self).0 & PTE_ADDRESS_MASK) | flags.0,
    {
        self.0 = (self.0 & PTE_ADDRESS_MASK) | flags.bits();
    }
}

/// Pointing an entry at a frame with the present flag makes it present and
/// reads that frame back.
pub proof fn lemma_set_frame_get_frame(index: u64, flags: u64)
    requires
        index * 4096 <= PTE_ADDRESS_MASK,
        flags & PTE_PRESENT != 0,
        flags & PTE_ADDRESS_MASK == 0,
    ensures
        ((((index * 4096) as u64 & PTE_ADDRESS_MASK) | flags) & PTE_PRESENT) != 0,
        (((index * 4096) as u64 & PTE_ADDRESS_MASK) | flags) & PTE_ADDRESS_MASK == (index * 4096) as u64,
{
    let a = (index * 4096) as u64;
    assert(a % 4096 == 0) by (nonlinear_arith) requires a == index * 4096;
    assert(a & 0xFFF == 0) by (bit_vector) requires a % 4096 == 0;
    assert(((a & 0x000F_FFFF_FFFF_F000) | flags) & 1 != 0) by (bit_vector)
        requires flags & 1 != 0;
    assert(((a & 0x000F_FFFF_FFFF_F000) | flags) & 0x000F_FFFF_FFFF_F000 == a) by (bit_vector)
        requires flags & 0x000F_FFFF_FFFF_F000 == 0, a <= 0x000F_FFFF_FFFF_F000, a & 0xFFF == 0;
}

/// A page table of 512 entries.
#[derive(Debug)]
pub struct PageTable {
    /// The entries.
    pub entries: [PageTableEntry; 512],
}

impl PageTable {
    /// A table of empty entries.
    pub fn new() -> (r: Self)
        ensures
            forall|i: int| 0 <= i < 512 ==> (#[trigger] r.entries@[i]).0 == 0,
    {
        PageTable { entries: [PageTableEntry(0); 512] }
    }

    /// Clear every entry.
    pub fn zero(&mut self)
        ensures
            forall|i: int| 0 <= i < 512 ==> (#[trigger] final(self).entries@[i]).0 == 0,
    {
        let mut i: usize = 0;
        while i < 512
            invariant
                i <= 512,
                self.entries@.len() == 512,
                forall|j: int| 0 <= j < i ==> (#[trigger] self.entries@[j]).0 == 0,
            decreases 512 - i,
        {
            self.entries[i] = PageTableEntry(0);
            i = i + 1;
        }
    }

    /// The entry at `index`.
    pub fn get_entry(&self, index: usize) -> (r: &PageTableEntry)
        requires
            index < 512,
        ensures
            *r == self.entries@[index as int],
    {
        &self.entries[index]
    }

    /// Replace the entry at `index`.
    pub fn set_entry(&mut self, index: usize, entry: PageTableEntry)
        requires
            index < 512,
        ensures
            final(self).entries@ == old(self).entries@.update(index as int, entry),
    {
        self.entries[index] = entry;
    }
}

/// The page is not present.
pub const PF_PAGE_NOT_PRESENT: u32 = 0x1;
/// The access was a write.
pub const PF_WRITE_ACCESS: u32 = 0x2;
/// The access came from user mode.
pub const PF_USER_MODE: u32 = 0x4;
/// A reserved bit was set.
pub const PF_RESERVED_WRITE: u32 = 0x8;
/// The access was an instruction fetch.
pub const PF_INSTRUCTION_FETCH: u32 = 0x10;
/// Protection violation.
pub const PF_PROTECTION_VIOLATION: u32 = 0x20;
/// Every defined error-code bit.
pub const PF_ALL: u32 = 0x3F;

/// Page-fault error code bits.
#[derive(Debug, Clone, Copy, PartialEq, Eq, Structural)]
pub struct PageFaultErrorCode(pub u32);

impl PageFaultErrorCode {
    /// The error code with undefined bits dropped.
    pub fn from_u32(value: u32) -> (r: Self)
        ensures
            r.0 == value & PF_ALL,
    {
        PageFaultErrorCode(value & PF_ALL)
    }

    /// Whether every bit of `other` is set.
    pub fn contains(self, other: PageFaultErrorCode) -> (r: bool)
        ensures
            r == (self.0 & other.0 == other.0),
    {
        self.0 & other.0 == other.0
    }
}

/// Kernel page table and the reference counts of page-table frames.
pub struct VirtualMemoryManager {
    /// The kernel's root page table.
    pub kernel_page_table: Box<PageTable>,
    /// Page-table frames (by start address) and their reference counts.
    pub page_table_frames: Vec<(u64, usize)>,
}

impl VirtualMemoryManager {
    /// Take one frame from `frame_allocator` for the kernel page table and
    /// record it with one reference; `OutOfMemory` when none is free.
    pub fn new(frame_allocator: &mut FrameAllocator) -> (r: Result<Self, MemoryError>)
        requires
            old(frame_allocator).wf(),
            old(frame_allocator).view().len() * 4096 <= u64::MAX,
        ensures
            final(frame_allocator).wf(),
            r is Err ==> r == Err::<Self, MemoryError>(MemoryError::OutOfMemory)
                && *final(frame_allocator) == *old(frame_allocator)
                && (old(frame_allocator).free_count() == 0
                    || forall|k: int| 0 <= k < old(frame_allocator).view().len() ==> old(frame_allocator).view()[k]),
            r is Ok ==> final(frame_allocator).free_count() == old(frame_allocator).free_count() - 1,
            r matches Ok(v) ==> v.page_table_frames@.len() == 1
                && v.page_table_frames@[0].1 == 1
                && old(frame_allocator).view().len() > 0
                && v.page_table_frames@[0].0 % 4096 == 0
                && (v.page_table_frames@[0].0 / 4096) < old(frame_allocator).view().len()
                && !old(frame_allocator).view()[(v.page_table_frames@[0].0 / 4096) as int]
                && final(frame_allocator).view() == old(frame_allocator).view().update(
                    (v.page_table_frames@[0].0 / 4096) as int, true)
                && forall|i: int| 0 <= i < 512 ==> (#[trigger] v.kernel_page_table.entries@[i]).0 == 0,
    {
        let kernel_pt_frame = match frame_allocator.allocate() {
            Some(f) => f,
            None => return Err(MemoryError::OutOfMemory),
        };
        let mut kernel_page_table = Box::new(PageTable::new());
        kernel_page_table.zero();
        let mut page_table_frames: Vec<(u64, usize)> = Vec::new();
        let addr = kernel_pt_frame.start_address().as_u64();
        assert(addr % 4096 == 0 && addr / 4096 == kernel_pt_frame.index) by (nonlinear_arith)
            requires addr == kernel_pt_frame.index * 4096;
        page_table_frames.push((addr, 1));
        Ok(VirtualMemoryManager { kernel_page_table, page_table_frames })
    }

    /// Map `page` to `frame` with `flags` in `address_space`, taking the
    /// frames for new tables from `frame_allocator`.
    pub fn map_page(&mut self, frame_allocator: &mut FrameAllocator, address_space: &mut AddressSpace, page: Page,
        frame: Frame, flags: PageFlags) -> (r: Result<(), MemoryError>)
        requires
            old(address_space).wf(),
            old(frame_allocator).wf(),
            old(address_space).backed_by(*old(frame_allocator)),
            old(frame_allocator).view().len() <= MAX_TABLE_FRAMES,
            page.number * 4096 <= u64::MAX,
            frame.index * 4096 <= u64::MAX,
        ensures
            map_outcome(*old(address_space), *final(address_space), *old(frame_allocator), *final(frame_allocator), page, frame, flags, r),
            *final(self) == *old(self),
    {
        address_space.map_page(frame_allocator, page, frame, flags)
    }

    /// Remove the mapping of `page` from `address_space`.
    pub fn unmap_page(&mut self, address_space: &mut AddressSpace, page: Page) -> (r: Result<Frame, MemoryError>)
        requires
            old(address_space).wf(),
            page.number * 4096 <= u64::MAX,
        ensures
            unmap_outcome(*old(address_space), *final(address_space), page, r),
            *final(self) == *old(self),
    {
        address_space.unmap_page(page)
    }

    /// Decide a page fault: a protection violation is refused as
    /// `InvalidPermissions`, a missing page as `AddressNotMapped`, anything
    /// else is accepted.
    pub fn handle_page_fault(&mut self, error_code: PageFaultErrorCode) -> (r: Result<(), MemoryError>)
        ensures
            error_code.0 & PF_PROTECTION_VIOLATION == PF_PROTECTION_VIOLATION
                ==> r == Err::<(), MemoryError>(MemoryError::InvalidPermissions),
            error_code.0 & PF_PROTECTION_VIOLATION != PF_PROTECTION_VIOLATION
                && error_code.0 & PF_PAGE_NOT_PRESENT == PF_PAGE_NOT_PRESENT
                ==> r == Err::<(), MemoryError>(MemoryError::AddressNotMapped),
            error_code.0 & PF_PROTECTION_VIOLATION != PF_PROTECTION_VIOLATION
                && error_code.0 & PF_PAGE_NOT_PRESENT != PF_PAGE_NOT_PRESENT ==> r is Ok,
            *final(self) == *old(self),
    {
        if error_code.contains(PageFaultErrorCode(PF_PROTECTION_VIOLATION)) {
            return Err(MemoryError::InvalidPermissions);
        }
        if error_code.contains(PageFaultErrorCode(PF_PAGE_NOT_PRESENT)) {
            return Err(MemoryError::AddressNotMapped);
        }
        Ok(())
    }
}

} // verus!
