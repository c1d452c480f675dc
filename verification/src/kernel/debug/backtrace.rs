//! Stack walking by frame pointers: which frames are trusted, and how the
//! walk advances from the two words saved at each frame.
use vstd::prelude::*;
use crate::types::memory::VirtAddr;

verus! {

/// One frame: its frame pointer and the return address saved there.
#[derive(Debug, Clone, Copy, PartialEq, Eq, Structural)]
pub struct StackFrame {
    pub frame_pointer: VirtAddr,
    pub return_address: VirtAddr,
}

/// Deepest walk by default.
pub const DEFAULT_MAX_DEPTH: usize = 64;

/// Whether `addr` may be a kernel frame pointer: non-null, 8-byte aligned,
/// in the kernel half, and not in the last 64KB of the address space.
pub open spec fn valid_frame_pointer(addr: u64) -> bool {
    addr != 0 && addr % 8 == 0 && addr >= 0xFFFF_8000_0000_0000 && addr <= 0xFFFF_FFFF_FFFF_0000
}

/// Whether `addr` may be a kernel frame pointer.
pub fn is_valid_frame_pointer(addr: VirtAddr) -> (r: bool)
    ensures
        r == valid_frame_pointer(addr.0),
{
    let a = addr.0;
    if a == 0 {
        return false;
    }
    if a % 8 != 0 {
        return false;
    }
    if a < 0xFFFF_8000_0000_0000 {
        return false;
    }
    if a > 0xFFFF_FFFF_FFFF_0000 {
        return false;
    }
    true
}

/// A stack walk in progress.
#[derive(Debug, Clone, Copy, PartialEq, Eq, Structural)]
pub struct Backtrace {
    pub current_frame: Option<StackFrame>,
    pub max_depth: usize,
    pub current_depth: usize,
}

/// No symbol table is available.
pub fn symbol_name(addr: VirtAddr) -> (r: Option<&'static str>)
    ensures
        r is None,
{
    None
}

impl Backtrace {
    /// A walk starting at `frame_pointer` (nothing to walk when it is
    /// null), at most 64 frames deep.
    pub fn from_frame_pointer(frame_pointer: VirtAddr) -> (r: Self)
        ensures
            r.current_frame == (if frame_pointer.0 != 0 {
                Some(StackFrame { frame_pointer, return_address: VirtAddr(0) }) } else { None }),
            r.max_depth == DEFAULT_MAX_DEPTH,
            r.current_depth == 0,
    {
        let current_frame = if frame_pointer.0 != 0 {
            Some(StackFrame { frame_pointer, return_address: VirtAddr(0) })
        } else {
            None
        };
        Backtrace { current_frame, max_depth: DEFAULT_MAX_DEPTH, current_depth: 0 }
    }

    /// The same walk with another depth limit.
    pub fn max_depth(self, depth: usize) -> (r: Self)
        ensures
            r == (Backtrace { max_depth: depth, ..self }),
    {
        Backtrace { max_depth: depth, ..self }
    }

    /// Start the next step: the frame pointer whose two saved words (the
    /// caller's frame pointer, then the return address) must be read, or
    /// `None` when the walk is over. A started step counts toward the
    /// depth even when the frame pointer turns out invalid.
    pub fn begin_step(&mut self) -> (r: Option<VirtAddr>)
        ensures
            final(self).max_depth == old(self).max_depth,
            final(self).current_frame == old(self).current_frame,
            old(self).current_depth >= old(self).max_depth ==> r is None && final(self).current_depth == old(self).current_depth,
            old(self).current_depth < old(self).max_depth ==> match old(self).current_frame {
                None => r is None && final(self).current_depth == old(self).current_depth,
                Some(f) => final(self).current_depth == old(self).current_depth + 1
                    && r == (if valid_frame_pointer(f.frame_pointer.0) { Some(f.frame_pointer) } else { None }),
            },
    {
        if self.current_depth >= self.max_depth {
            return None;
        }
        let frame = match self.current_frame {
            Some(f) => f,
            None => return None,
        };
        self.current_depth = self.current_depth + 1;
        if !is_valid_frame_pointer(frame.frame_pointer) {
            return None;
        }
        Some(frame.frame_pointer)
    }

    /// Finish the step at `frame_pointer` with the words read there: the
    /// walk moves to `saved_fp` when it is non-null and higher, and ends
    /// otherwise; gives the frame just walked.
    pub fn finish_step(&mut self, frame_pointer: VirtAddr, saved_fp: u64, return_address: u64) -> (r: StackFrame)
        ensures
            r == (StackFrame { frame_pointer, return_address: VirtAddr(return_address) }),
            final(self).current_frame == (if saved_fp != 0 && saved_fp > frame_pointer.0 {
                Some(StackFrame { frame_pointer: VirtAddr(saved_fp), return_address: VirtAddr(0) }) } else { None }),
            final(self).max_depth == old(self).max_depth,
            final(self).current_depth == old(self).current_depth,
    {
        self.current_frame = if saved_fp != 0 && saved_fp > frame_pointer.0 {
            Some(StackFrame { frame_pointer: VirtAddr(saved_fp), return_address: VirtAddr(0) })
        } else {
            None
        };
        StackFrame { frame_pointer, return_address: VirtAddr(return_address) }
    }

    /// A copy of the walk restarted at depth 0.
    pub fn restart(&self) -> (r: Self)
        ensures
            r == (Backtrace { current_depth: 0, ..*self }),
    {
        Backtrace { current_frame: self.current_frame, max_depth: self.max_depth, current_depth: 0 }
    }
}

} // verus!
