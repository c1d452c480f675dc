//! Multiboot2 boot information.
//!
//! GRUB hands over the information as a sequence of tagged entries after an
//! 8-byte header that gives its total size. The walk below extracts the
//! memory map, command line, loader name, first module (the initrd) and
//! framebuffer from those bytes.
use vstd::prelude::*;
use crate::kernel::boot::{BootInfo, BootParams, FramebufferInfo, MemoryRegion, MemoryRegionType};
use crate::kernel::process::elf::{le32, le64, rd_u32, rd_u64};
use crate::types::memory::PhysAddr;

verus! {

/// Multiboot2 info magic value (passed in EAX by the bootloader).
pub const MULTIBOOT2_INFO_MAGIC: u32 = 0x36D76289;

/// Tag that ends the list.
pub const TAG_END: u32 = 0;
/// Kernel command line.
pub const TAG_CMDLINE: u32 = 1;
/// Bootloader name.
pub const TAG_LOADER_NAME: u32 = 2;
/// A loaded module.
pub const TAG_MODULE: u32 = 3;
/// The memory map.
pub const TAG_MEMORY_MAP: u32 = 6;
/// The framebuffer.
pub const TAG_FRAMEBUFFER: u32 = 8;

/// Bytes of one memory map entry as read: base, length, type, reserved.
pub const MMAP_ENTRY_BYTES: u64 = 24;

/// A string tag's text is cut after this many bytes without a NUL.
pub const C_STRING_LIMIT: usize = 4096;

/// What the tags read so far have set: the memory map, the command line
/// and the loader name as (offset, length) of their bytes, the first
/// module's bounds, and the framebuffer.
pub type TagState = (Seq<MemoryRegion>, Option<(int, int)>, Option<(int, int)>, Option<(u64, u64)>, Option<FramebufferInfo>);

/// Nothing read yet.
pub open spec fn no_tags() -> TagState {
    (Seq::empty(), None, None, None, None)
}

/// `o` rounded up to a multiple of 8 (tags are 8-byte aligned).
pub open spec fn align8(o: int) -> int {
    (o + 7) / 8 * 8
}

/// How far a walk from `off` still is from `total`.
pub open spec fn remaining(total: int, off: int) -> int {
    if off < total { total - off } else { 0 }
}

/// Kind of a memory map entry by its type code; unknown codes are reserved.
pub open spec fn region_type_of(t: int) -> MemoryRegionType {
    if t == 1 {
        MemoryRegionType::Available
    } else if t == 3 {
        MemoryRegionType::AcpiReclaimable
    } else if t == 4 {
        MemoryRegionType::AcpiNvs
    } else if t == 5 {
        MemoryRegionType::BadRam
    } else {
        MemoryRegionType::Reserved
    }
}

/// The memory region described by the entry at `p`: it ends at base plus
/// length, wrapping at 2^64.
pub open spec fn mmap_region(b: Seq<u8>, p: int) -> MemoryRegion {
    MemoryRegion {
        start: PhysAddr(le64(b, p) as u64),
        end: PhysAddr((le64(b, p) as u64).wrapping_add(le64(b, p + 8) as u64)),
        region_type: region_type_of(le32(b, p + 16) as int),
    }
}

/// The entries from `p` on, `es` bytes apart, each whole before `e` and
/// inside the bytes.
pub open spec fn mmap_entries(b: Seq<u8>, p: int, e: int, es: int) -> Seq<MemoryRegion>
    decreases remaining(e, p),
{
    if es <= 0 || p + MMAP_ENTRY_BYTES > e || p + MMAP_ENTRY_BYTES > b.len() {
        Seq::empty()
    } else {
        seq![mmap_region(b, p)] + mmap_entries(b, p + es, e, es)
    }
}

/// Length from `s + n` on of a NUL-terminated string: up to its NUL, to the
/// end of the bytes, or one byte past the limit, whichever comes first.
pub open spec fn c_string_len(b: Seq<u8>, s: int, n: int) -> int
    decreases C_STRING_LIMIT + 1 - n,
{
    if n > C_STRING_LIMIT || s + n >= b.len() || b[s + n] == 0 {
        n
    } else {
        c_string_len(b, s, n + 1)
    }
}

/// Bytes a tag of type `ty` has read from its start.
pub open spec fn tag_need(ty: int) -> int {
    if ty == TAG_MEMORY_MAP || ty == TAG_MODULE {
        16
    } else if ty == TAG_FRAMEBUFFER {
        29
    } else {
        8
    }
}

/// The framebuffer described by the tag at `o`.
pub open spec fn framebuffer_at(b: Seq<u8>, o: int) -> FramebufferInfo {
    FramebufferInfo {
        address: PhysAddr(le64(b, o + 8) as u64),
        width: le32(b, o + 20) as u32,
        height: le32(b, o + 24) as u32,
        pitch: le32(b, o + 16) as u32,
        bpp: b[o + 28],
    }
}

/// The state after the tag of type `ty` and size `size` at `o`: a memory
/// map with a nonzero entry size replaces the one before, a command line or
/// loader name replaces the one before, the first module is kept, and the
/// last framebuffer wins; other tags change nothing.
pub open spec fn apply_tag(b: Seq<u8>, o: int, ty: int, size: int, st: TagState) -> TagState {
    if ty == TAG_MEMORY_MAP {
        let es = le32(b, o + 8) as int;
        if es > 0 {
            (mmap_entries(b, o + 16, o + size, es), st.1, st.2, st.3, st.4)
        } else {
            st
        }
    } else if ty == TAG_CMDLINE {
        (st.0, Some((o + 8, c_string_len(b, o + 8, 0))), st.2, st.3, st.4)
    } else if ty == TAG_LOADER_NAME {
        (st.0, st.1, Some((o + 8, c_string_len(b, o + 8, 0))), st.3, st.4)
    } else if ty == TAG_MODULE {
        if st.3 is None {
            (st.0, st.1, st.2, Some((le32(b, o + 8) as u64, le32(b, o + 12) as u64)), st.4)
        } else {
            st
        }
    } else if ty == TAG_FRAMEBUFFER {
        (st.0, st.1, st.2, st.3, Some(framebuffer_at(b, o)))
    } else {
        st
    }
}

/// The walk over the tags from `off` on: it stops at `total`, at the end
/// tag, at a tag of size zero, and where a tag's fields would lie past the
/// bytes.
pub open spec fn walk_tags(b: Seq<u8>, total: int, off: int, st: TagState) -> TagState
    decreases remaining(total, off),
{
    let o = align8(off);
    if off < 0 || o >= total || o + 8 > b.len() {
        st
    } else {
        let ty = le32(b, o) as int;
        let size = le32(b, o + 4) as int;
        if ty == TAG_END || size == 0 || o + tag_need(ty) > b.len() {
            st
        } else {
            walk_tags(b, total, o + size, apply_tag(b, o, ty, size, st))
        }
    }
}

/// Total size given by the header.
pub open spec fn info_total_size(b: Seq<u8>) -> int {
    if b.len() >= 4 { le32(b, 0) as int } else { 0 }
}

/// What the tags of the information in `b` set.
pub open spec fn multiboot_tags(b: Seq<u8>) -> TagState {
    walk_tags(b, info_total_size(b), 8, no_tags())
}

/// Names the text that `String::from_utf8_lossy` makes of `bytes`.
pub uninterp spec fn lossy_text(bytes: Seq<u8>) -> Seq<char>;

/// The text of the bytes at `at` = (offset, length), if any.
pub open spec fn text_at(b: Seq<u8>, at: Option<(int, int)>) -> Option<Seq<char>> {
    match at {
        Some((s, n)) => Some(lossy_text(b.subrange(s, s + n))),
        None => None,
    }
}

/// The view of an optional string.
pub open spec fn opt_text(s: Option<String>) -> Option<Seq<char>> {
    match s {
        Some(t) => Some(t@),
        None => None,
    }
}

/// Start of an optional (start, end) pair.
pub open spec fn first_of(m: Option<(u64, u64)>) -> Option<PhysAddr> {
    match m {
        Some((s, _)) => Some(PhysAddr(s)),
        None => None,
    }
}

/// End of an optional (start, end) pair.
pub open spec fn second_of(m: Option<(u64, u64)>) -> Option<PhysAddr> {
    match m {
        Some((_, e)) => Some(PhysAddr(e)),
        None => None,
    }
}

/// `info` is what the multiboot2 information in `b` describes, with the
/// kernel image at `kernel_start..kernel_end`.
pub open spec fn describes_multiboot(info: BootInfo, b: Seq<u8>, kernel_start: PhysAddr, kernel_end: PhysAddr) -> bool {
    let st = multiboot_tags(b);
    &&& info.memory_map@ == st.0
    &&& opt_text(info.boot_params.cmdline) == text_at(b, st.1)
    &&& opt_text(info.boot_params.loader_name) == text_at(b, st.2)
    &&& info.initrd_start == first_of(st.3)
    &&& info.initrd_end == second_of(st.3)
    &&& info.framebuffer == st.4
    &&& info.kernel_start == kernel_start
    &&& info.kernel_end == kernel_end
}

/// The text `String::from_utf8_lossy` makes of `bytes`: the same
/// characters where the bytes are valid UTF-8, with U+FFFD in place of each
/// invalid sequence.
#[verifier::external_body]
fn text_from_bytes(bytes: &[u8]) -> (r: String)
    ensures
        r@ == lossy_text(bytes@),
        vstd::utf8::valid_utf8(bytes@) ==> r@ == vstd::utf8::decode_utf8(bytes@),
{
    String::from_utf8_lossy(bytes).into_owned()
}

/// Kind of a memory map entry by its type code.
pub fn memory_region_type(t: u32) -> (r: MemoryRegionType)
    ensures
        r == region_type_of(t as int),
{
    match t {
        1 => MemoryRegionType::Available,
        2 => MemoryRegionType::Reserved,
        3 => MemoryRegionType::AcpiReclaimable,
        4 => MemoryRegionType::AcpiNvs,
        5 => MemoryRegionType::BadRam,
        _ => MemoryRegionType::Reserved,
    }
}

/// Length of the NUL-terminated string at `s`.
fn c_string_length(b: &[u8], s: usize) -> (r: usize)
    requires
        s <= b@.len(),
    ensures
        r == c_string_len(b@, s as int, 0),
        r <= C_STRING_LIMIT + 1,
{
    let mut n: usize = 0;
    while n <= C_STRING_LIMIT && n < b.len() - s && b[s + n] != 0
        invariant
            s <= b@.len(),
            n <= C_STRING_LIMIT + 1,
            c_string_len(b@, s as int, n as int) == c_string_len(b@, s as int, 0),
        decreases C_STRING_LIMIT + 1 - n,
    {
        n = n + 1;
    }
    n
}

/// The memory map entries from `start`, `es` bytes apart, before `end`.
fn memory_map_entries(b: &[u8], start: u64, end: u64, es: u64) -> (r: Vec<MemoryRegion>)
    requires
        end < 0x2_0000_0000,
        0 < es < 0x1_0000_0000,
    ensures
        r@ == mmap_entries(b@, start as int, end as int, es as int),
{
    let n = b.len() as u64;
    let mut v: Vec<MemoryRegion> = Vec::new();
    let mut p = start;
    if p > end {
        return v;
    }
    while p + MMAP_ENTRY_BYTES <= end && p + MMAP_ENTRY_BYTES <= n
        invariant
            n == b@.len(),
            b@.len() <= usize::MAX,
            end < 0x2_0000_0000,
            0 < es < 0x1_0000_0000,
            p <= end + es,
            v@ + mmap_entries(b@, p as int, end as int, es as int) == mmap_entries(b@, start as int, end as int, es as int),
        decreases remaining(end as int, p as int),
    {
        let i = p as usize;
        assert(i as int == p as int);
        let base = rd_u64(b, i);
        let len = rd_u64(b, i + 8);
        let t = rd_u32(b, i + 16);
        let region = MemoryRegion {
            start: PhysAddr::new_unchecked(base),
            end: PhysAddr::new_unchecked(base.wrapping_add(len)),
            region_type: memory_region_type(t),
        };
        proof {
            assert(region == mmap_region(b@, p as int));
            assert(v@.push(region) + mmap_entries(b@, p + es, end as int, es as int)
                =~= v@ + mmap_entries(b@, p as int, end as int, es as int));
        }
        v.push(region);
        p = p + es;
    }
    proof {
        assert(mmap_entries(b@, p as int, end as int, es as int) =~= Seq::empty());
        assert(v@ + Seq::<MemoryRegion>::empty() =~= v@);
    }
    v
}

/// What the tags found so far set; strings as (offset, length).
struct TagsFound {
    memory_map: Vec<MemoryRegion>,
    cmdline: Option<(usize, usize)>,
    loader_name: Option<(usize, usize)>,
    module: Option<(u64, u64)>,
    framebuffer: Option<FramebufferInfo>,
}

/// An optional (offset, length) pair as integers.
spec fn span(o: Option<(usize, usize)>) -> Option<(int, int)> {
    match o {
        Some((s, n)) => Some((s as int, n as int)),
        None => None,
    }
}

impl TagsFound {
    spec fn state(&self) -> TagState {
        (self.memory_map@, span(self.cmdline), span(self.loader_name), self.module, self.framebuffer)
    }

    spec fn spans_in(&self, len: int) -> bool {
        &&& (self.cmdline matches Some((s, n)) ==> s + n <= len)
        &&& (self.loader_name matches Some((s, n)) ==> s + n <= len)
    }

    /// Read the tag of type `ty` and size `size` at `o`.
    fn take_tag(&mut self, b: &[u8], o: usize, ty: u32, size: u32)
        requires
            o + tag_need(ty as int) <= b@.len(),
            old(self).spans_in(b@.len() as int),
            o < 0x1_0000_0000,
        ensures
            final(self).state() == apply_tag(b@, o as int, ty as int, size as int, old(self).state()),
            final(self).spans_in(b@.len() as int),
    {
        let blen = b.len();
        assert(o + 8 <= blen);
        if ty == TAG_MEMORY_MAP {
            let es = rd_u32(b, o + 8);
            if es > 0 {
                self.memory_map = memory_map_entries(b, (o as u64) + 16, (o as u64) + (size as u64), es as u64);
            }
        } else if ty == TAG_CMDLINE {
            let s = o + 8;
            let n = c_string_length(b, s);
            proof { lemma_c_string_in(b@, s as int, 0); }
            self.cmdline = Some((s, n));
        } else if ty == TAG_LOADER_NAME {
            let s = o + 8;
            let n = c_string_length(b, s);
            proof { lemma_c_string_in(b@, s as int, 0); }
            self.loader_name = Some((s, n));
        } else if ty == TAG_MODULE {
            if self.module.is_none() {
                let start = rd_u32(b, o + 8);
                let end = rd_u32(b, o + 12);
                self.module = Some((start as u64, end as u64));
            }
        } else if ty == TAG_FRAMEBUFFER {
            let fb = FramebufferInfo {
                address: PhysAddr::new_unchecked(rd_u64(b, o + 8)),
                width: rd_u32(b, o + 20),
                height: rd_u32(b, o + 24),
                pitch: rd_u32(b, o + 16),
                bpp: b[o + 28],
            };
            self.framebuffer = Some(fb);
        }
    }
}

/// A string's bytes lie inside the buffer.
proof fn lemma_c_string_in(b: Seq<u8>, s: int, n: int)
    requires
        0 <= s <= b.len(),
        0 <= n,
        s + n <= b.len(),
    ensures
        n <= c_string_len(b, s, n),
        s + c_string_len(b, s, n) <= b.len(),
    decreases C_STRING_LIMIT + 1 - n,
{
    if !(n > C_STRING_LIMIT || s + n >= b.len() || b[s + n] == 0) {
        lemma_c_string_in(b, s, n + 1);
    }
}

/// The text of the bytes at `at`, if any.
fn text_of(b: &[u8], at: Option<(usize, usize)>) -> (r: Option<String>)
    requires
        at matches Some((s, n)) ==> s + n <= b@.len(),
    ensures
        opt_text(r) == text_at(b@, span(at)),
{
    let blen = b.len();
    match at {
        Some((s, n)) => Some(text_from_bytes(&b[s..s + n])),
        None => None,
    }
}

/// Parse the multiboot2 information in `info`, the kernel image lying at
/// `kernel_start..kernel_end`.
///
/// The tags are walked from offset 8 up to the total size the header gives,
/// each at the next multiple of 8; the walk stops at the end tag, at a tag
/// of size zero, and where a tag would lie past the bytes given.
pub fn parse_multiboot2_info(info: &[u8], kernel_start: PhysAddr, kernel_end: PhysAddr) -> (r: BootInfo)
    ensures
        describes_multiboot(r, info@, kernel_start, kernel_end),
{
    let n = info.len() as u64;
    let total: u64 = if info.len() >= 4 { rd_u32(info, 0) as u64 } else { 0 };
    let mut found = TagsFound {
        memory_map: Vec::new(),
        cmdline: None,
        loader_name: None,
        module: None,
        framebuffer: None,
    };
    let mut off: u64 = 8;
    proof {
        assert(found.state() =~= no_tags());
    }
    loop
        invariant
            n == info@.len(),
            total == info_total_size(info@),
            total < 0x1_0000_0000,
            8 <= off < 0x2_0000_0000,
            found.spans_in(n as int),
            walk_tags(info@, total as int, off as int, found.state()) == multiboot_tags(info@),
        ensures
            found.spans_in(n as int),
            found.state() == multiboot_tags(info@),
        decreases remaining(total as int, off as int),
    {
        let o = (off + 7) / 8 * 8;
        if o >= total || o + 8 > n {
            break;
        }
        let i = o as usize;
        let ty = rd_u32(info, i);
        let size = rd_u32(info, i + 4);
        let need: u64 = if ty == TAG_MEMORY_MAP || ty == TAG_MODULE {
            16
        } else if ty == TAG_FRAMEBUFFER {
            29
        } else {
            8
        };
        if ty == TAG_END || size == 0 || o + need > n {
            break;
        }
        found.take_tag(info, i, ty, size);
        off = o + size as u64;
    }
    let cmdline = text_of(info, found.cmdline);
    let loader_name = text_of(info, found.loader_name);
    let (initrd_start, initrd_end) = match found.module {
        Some((s, e)) => (Some(PhysAddr::new_unchecked(s)), Some(PhysAddr::new_unchecked(e))),
        None => (None, None),
    };
    BootInfo {
        memory_map: found.memory_map,
        kernel_start,
        kernel_end,
        initrd_start,
        initrd_end,
        framebuffer: found.framebuffer,
        boot_params: BootParams { cmdline, loader_name },
    }
}

} // verus!
