//! The kernel heap region.
use vstd::prelude::*;
use crate::types::memory::VirtAddr;
use crate::kernel::memory::MemoryError;
use crate::kernel::memory::frame::Frame;

verus! {

/// The kernel heap: a region of the given size at the kernel heap base.
pub struct KernelHeap {
    /// First address of the heap.
    pub start: VirtAddr,
    /// Size in bytes.
    pub size: usize,
}

/// Heap usage figures.
pub struct HeapUsage {
    /// Total bytes.
    pub total: usize,
    /// Bytes in use (not tracked: always 0).
    pub used: usize,
    /// Bytes free (not tracked: always 0).
    pub free: usize,
}

impl KernelHeap {
    /// A heap spanning `frames`; `OutOfMemory` for no frame.
    pub fn new(frames: Vec<Frame>) -> (r: Result<Self, MemoryError>)
        requires
            frames@.len() * 4096 <= usize::MAX,
        ensures
            frames@.len() == 0 ==> r == Err::<Self, MemoryError>(MemoryError::OutOfMemory),
            frames@.len() > 0 ==> (r matches Ok(h) && h.size == frames@.len() * 4096
                && h.start.0 == crate::kernel::KERNEL_HEAP_BASE),
    {
        if frames.len() == 0 {
            return Err(MemoryError::OutOfMemory);
        }
        let size = frames.len() * 4096;
        let start = VirtAddr::new_unchecked(crate::kernel::KERNEL_HEAP_BASE);
        Ok(KernelHeap { start, size })
    }

    /// The heap's usage: its size, with use not tracked.
    pub fn usage(&self) -> (r: HeapUsage)
        ensures
            r.total == self.size,
            r.used == 0,
            r.free == 0,
    {
        HeapUsage { total: self.size, used: 0, free: 0 }
    }
}

} // verus!
