//! Physical frames, pages, page tables and the kernel heap.
use vstd::prelude::*;
use crate::kernel::boot::BootInfo;
use crate::kernel::memory::frame::{Frame, FrameAllocator, max_end, available_covers, frame_index_of,
    free_run, count_free};
use crate::types::memory::PhysAddr;
use crate::kernel::memory::heap::KernelHeap;
use crate::kernel::memory::vmm::VirtualMemoryManager;
use crate::kernel::memory::page::{AddressSpace, Page, PageFlags, map_outcome, unmap_outcome, MAX_TABLE_FRAMES};

pub mod frame;
pub mod page;
pub mod vmm;
pub mod heap;

verus! {

/// Failures of memory operations.
#[derive(Debug, Clone, Copy, PartialEq, Eq, Structural)]
pub enum MemoryError {
    /// No free memory.
    OutOfMemory,
    /// Misaligned address.
    InvalidAlignment,
    /// Address not mapped.
    AddressNotMapped,
    /// Address already mapped.
    AlreadyMapped,
    /// Permission violation.
    InvalidPermissions,
    /// Frame in use.
    FrameInUse,
}

/// The kernel's memory state: frame allocator, heap and page tables.
pub struct MemoryManager {
    /// The physical frame allocator.
    pub frame_allocator: FrameAllocator,
    /// The kernel heap.
    pub heap_allocator: KernelHeap,
    /// The virtual memory manager.
    pub vmm: VirtualMemoryManager,
}

/// Number of frames given to the kernel heap.
pub const KERNEL_HEAP_FRAMES: usize = 256;

/// The number of frames the allocator covers for a memory map.
pub open spec fn map_frames(map: Seq<crate::kernel::boot::MemoryRegion>) -> usize {
    (max_end(map) / 4096) as usize
}

/// The bitmap `v` with the frames from the one holding `start` to the one
/// holding `end`, both included, marked allocated.
pub open spec fn reserved(v: Seq<bool>, start: PhysAddr, end: PhysAddr) -> Seq<bool> {
    Seq::new(v.len(), |m: int| if frame_index_of(start.0) <= m <= frame_index_of(end.0) { true } else { v[m] })
}

/// The allocator's bitmap for the memory map of `b`: a frame is free when
/// an available region covers it.
pub open spec fn boot_initial_bitmap(b: BootInfo) -> Seq<bool> {
    Seq::new(map_frames(b.memory_map@) as nat, |i: int| !available_covers(b.memory_map@, i))
}

/// The bitmap once the kernel image and, when both its bounds are given,
/// the initrd are reserved.
pub open spec fn boot_bitmap(b: BootInfo) -> Seq<bool> {
    let v1 = reserved(boot_initial_bitmap(b), b.kernel_start, b.kernel_end);
    match (b.initrd_start, b.initrd_end) {
        (Some(s), Some(e)) => reserved(v1, s, e),
        _ => v1,
    }
}

/// The free-frame counter once the reservations are made: the number of
/// free frames.
pub open spec fn boot_free_count(b: BootInfo) -> int {
    count_free(boot_bitmap(b)) as int
}

/// The first start of a run of `n` free frames in `v`.
pub open spec fn first_run(v: Seq<bool>, n: int) -> int {
    choose|s: int| free_run(v, s, n) && forall|j: int| 0 <= j < s ==> !free_run(v, j, n)
}

/// The bitmap once the heap's frames, the first run of them that is free,
/// are taken.
pub open spec fn after_heap(b: BootInfo) -> Seq<bool> {
    let v = boot_bitmap(b);
    let s = first_run(v, KERNEL_HEAP_FRAMES as int);
    Seq::new(v.len(), |m: int| if s <= m < s + KERNEL_HEAP_FRAMES { true } else { v[m] })
}

/// Whether memory can be set up from `b`: after the reservations the
/// counter allows and the bitmap holds a run of frames for the heap, and
/// a frame is left for the kernel page table.
pub open spec fn boot_memory_ok(b: BootInfo) -> bool {
    &&& boot_free_count(b) >= KERNEL_HEAP_FRAMES
    &&& exists|k: int| free_run(boot_bitmap(b), k, KERNEL_HEAP_FRAMES as int)
    &&& boot_free_count(b) - KERNEL_HEAP_FRAMES > 0
    &&& exists|k: int| 0 <= k < after_heap(b).len() && !after_heap(b)[k]
}

/// A free run at `k` means there is a first one.
pub proof fn lemma_first_run_exists(v: Seq<bool>, n: int, k: int)
    requires
        free_run(v, k, n),
    ensures
        exists|s: int| free_run(v, s, n) && forall|j: int| 0 <= j < s ==> !free_run(v, j, n),
    decreases k,
{
    if exists|j: int| 0 <= j < k && free_run(v, j, n) {
        let j = choose|j: int| 0 <= j < k && free_run(v, j, n);
        lemma_first_run_exists(v, n, j);
    }
}

impl MemoryManager {
    /// Set up memory from the boot information: a frame allocator over the
    /// memory map, the kernel image and the initrd (when both bounds are
    /// given) reserved, 256 contiguous frames for the heap, and one frame
    /// for the kernel page table.
    pub fn new(boot_info: &BootInfo) -> (r: Result<Self, MemoryError>)
        requires
            (max_end(boot_info.memory_map@) / 4096) as usize + 63 <= usize::MAX,
            ((max_end(boot_info.memory_map@) / 4096) as usize) * 4096 <= u64::MAX,
        ensures
            (r is Ok) == boot_memory_ok(*boot_info),
            r matches Ok(m) ==> m.frame_allocator.wf() && m.heap_allocator.size == 1048576
                && m.frame_allocator.free_count() == boot_free_count(*boot_info) - KERNEL_HEAP_FRAMES - 1,
            r is Err ==> r == Err::<Self, MemoryError>(MemoryError::OutOfMemory),
    {
        let ghost b = *boot_info;
        let mut frame_allocator = match FrameAllocator::new(boot_info.memory_map.as_slice()) {
            Ok(a) => a,
            Err(e) => return Err(e),
        };
        assert(frame_allocator.view() =~= boot_initial_bitmap(b));
        let _ = frame_allocator.reserve_range(boot_info.kernel_start, boot_info.kernel_end);
        match (boot_info.initrd_start, boot_info.initrd_end) {
            (Some(start), Some(end)) => {
                let _ = frame_allocator.reserve_range(start, end);
            },
            _ => {},
        }
        assert(frame_allocator.view() =~= boot_bitmap(b));
        assert(frame_allocator.free_count() == boot_free_count(b));
        let ghost v = frame_allocator.view();
        let heap_frames = match frame_allocator.allocate_contiguous_frames(KERNEL_HEAP_FRAMES) {
            Ok(f) => f,
            Err(e) => {
                assert(!boot_memory_ok(b));
                return Err(e);
            },
        };
        proof {
            let s = heap_frames@[0].index as int;
            assert(free_run(v, s, KERNEL_HEAP_FRAMES as int));
            lemma_first_run_exists(v, KERNEL_HEAP_FRAMES as int, s);
            let f = first_run(v, KERNEL_HEAP_FRAMES as int);
            if f < s {
                assert(!free_run(v, f, KERNEL_HEAP_FRAMES as int));
            } else if s < f {
                assert(!free_run(v, s, KERNEL_HEAP_FRAMES as int));
            }
            assert(f == s);
            assert(frame_allocator.view() =~= after_heap(b));
        }
        let heap_allocator = match KernelHeap::new(heap_frames) {
            Ok(h) => h,
            Err(e) => return Err(e),
        };
        let vmm = match VirtualMemoryManager::new(&mut frame_allocator) {
            Ok(v) => v,
            Err(e) => {
                proof {
                    if boot_memory_ok(b) {
                        let k = choose|k: int| 0 <= k < after_heap(b).len() && !after_heap(b)[k];
                        assert(!frame_allocator.view()[k]);
                    }
                }
                return Err(e);
            },
        };
        proof {
            assert(exists|k: int| 0 <= k < after_heap(b).len() && !after_heap(b)[k]) by {
                let pt = (vmm.page_table_frames@[0].0 / 4096) as int;
                assert(!after_heap(b)[pt]);
            }
        }
        Ok(MemoryManager { frame_allocator, heap_allocator, vmm })
    }

    /// Allocate one frame (see `FrameAllocator::allocate`).
    pub fn allocate_frame(&mut self) -> (r: Option<Frame>)
        requires
            old(self).frame_allocator.wf(),
        ensures
            final(self).frame_allocator.wf(),
            r matches Some(f) ==> f.index < old(self).frame_allocator.view().len()
                && !old(self).frame_allocator.view()[f.index as int]
                && final(self).frame_allocator.view() == old(self).frame_allocator.view().update(f.index as int, true)
                && final(self).frame_allocator.free_count() == old(self).frame_allocator.free_count() - 1,
            r is None ==> final(self).frame_allocator == old(self).frame_allocator
                && (old(self).frame_allocator.free_count() == 0
                    || forall|k: int| 0 <= k < old(self).frame_allocator.view().len() ==> old(self).frame_allocator.view()[k]),
    {
        self.frame_allocator.allocate()
    }

    /// Free one frame (see `FrameAllocator::deallocate`).
    pub fn deallocate_frame(&mut self, frame: Frame)
        requires
            old(self).frame_allocator.wf(),
        ensures
            final(self).frame_allocator.wf(),
            (frame.index < old(self).frame_allocator.view().len() && old(self).frame_allocator.view()[frame.index as int])
                ==> final(self).frame_allocator.view() == old(self).frame_allocator.view().update(frame.index as int, false)
                    && final(self).frame_allocator.free_count() == old(self).frame_allocator.free_count() + 1,
            !(frame.index < old(self).frame_allocator.view().len() && old(self).frame_allocator.view()[frame.index as int])
                ==> final(self).frame_allocator == old(self).frame_allocator,
    {
        self.frame_allocator.deallocate(frame);
    }

    /// Allocate `count` contiguous frames; `None` where the allocator
    /// refuses.
    pub fn allocate_contiguous_frames(&mut self, count: usize) -> (r: Option<Vec<Frame>>)
        requires
            old(self).frame_allocator.wf(),
        ensures
            final(self).frame_allocator.wf(),
            r is None ==> final(self).frame_allocator == old(self).frame_allocator,
            count == 0 ==> (r matches Some(v) && v@.len() == 0 && final(self).frame_allocator == old(self).frame_allocator),
            count > 0 && old(self).frame_allocator.free_count() < count ==> r is None,
            count > 0 && old(self).frame_allocator.free_count() >= count
                ==> (r is Some <==> exists|k: int| free_run(old(self).frame_allocator.view(), k, count as int)),
            count > 0 ==> (r matches Some(v) ==> {
                let s = v@[0].index as int;
                &&& v@.len() == count
                &&& free_run(old(self).frame_allocator.view(), s, count as int)
                &&& forall|k: int| 0 <= k < s ==> !free_run(old(self).frame_allocator.view(), k, count as int)
                &&& forall|j: int| 0 <= j < count ==> (#[trigger] v@[j]).index == s + j
                &&& final(self).frame_allocator.view() == Seq::new(old(self).frame_allocator.view().len(), |m: int|
                        if s <= m < s + count { true } else { old(self).frame_allocator.view()[m] })
                &&& final(self).frame_allocator.free_count() == old(self).frame_allocator.free_count() - count
            }),
    {
        match self.frame_allocator.allocate_contiguous_frames(count) {
            Ok(v) => Some(v),
            Err(_) => None,
        }
    }

    /// Map `page` to `frame` with `flags` in `address_space`, taking the
    /// frames for new tables from this manager's allocator.
    pub fn map_page(&mut self, address_space: &mut AddressSpace, page: Page, frame: Frame, flags: PageFlags)
        -> (r: Result<(), MemoryError>)
        requires
            old(address_space).wf(),
            old(self).frame_allocator.wf(),
            old(address_space).backed_by(old(self).frame_allocator),
            old(self).frame_allocator.view().len() <= MAX_TABLE_FRAMES,
            page.number * 4096 <= u64::MAX,
            frame.index * 4096 <= u64::MAX,
        ensures
            map_outcome(*old(address_space), *final(address_space), old(self).frame_allocator, final(self).frame_allocator,
                page, frame, flags, r),
    {
        self.vmm.map_page(&mut self.frame_allocator, address_space, page, frame, flags)
    }

    /// Remove the mapping of `page` from `address_space`.
    pub fn unmap_page(&mut self, address_space: &mut AddressSpace, page: Page) -> (r: Result<Frame, MemoryError>)
        requires
            old(address_space).wf(),
            page.number * 4096 <= u64::MAX,
        ensures
            unmap_outcome(*old(address_space), *final(address_space), page, r),
    {
        self.vmm.unmap_page(address_space, page)
    }
}

/// Whether `[addr, addr + size)` lies within user space, from the user base
/// to the top of the user stack.
pub fn is_user_readable(addr: usize, size: usize) -> (r: bool)
    ensures
        r == (addr >= crate::kernel::USER_BASE && addr + size <= crate::kernel::USER_STACK_TOP),
{
    addr >= crate::kernel::USER_BASE && addr <= crate::kernel::USER_STACK_TOP
        && size <= crate::kernel::USER_STACK_TOP - addr
}

/// Whether `[addr, addr + size)` may be written from user space; the same
/// range check as reading.
pub fn is_user_writable(addr: usize, size: usize) -> (r: bool)
    ensures
        r == (addr >= crate::kernel::USER_BASE && addr + size <= crate::kernel::USER_STACK_TOP),
{
    is_user_readable(addr, size)
}

} // verus!
