//! Static ELF64 executables: validation of the header and program
//! headers, the loadable segments, and the pages a process needs mapped.
use vstd::prelude::*;
use crate::kernel::process::ProcessError;

verus! {

/// Program header type of a loadable segment.
pub const PT_LOAD: u32 = 1;
/// Size of an ELF64 program header (bytes).
pub const ELF_PH_ENTSIZE: u64 = 56;
/// Pages of initial user stack.
pub const USER_STACK_PAGES: u64 = 4;

/// The little-endian 16-bit value at `o`.
pub open spec fn le16(d: Seq<u8>, o: int) -> nat {
    (d[o] + 256 * d[o + 1]) as nat
}

/// The little-endian 32-bit value at `o`.
pub open spec fn le32(d: Seq<u8>, o: int) -> nat {
    (d[o] + 256 * d[o + 1] + 65536 * d[o + 2] + 16777216 * d[o + 3]) as nat
}

/// The little-endian 64-bit value at `o`.
pub open spec fn le64(d: Seq<u8>, o: int) -> nat {
    (le32(d, o) + 4294967296 * le32(d, o + 4)) as nat
}

/// Read the little-endian 16-bit value at `off`.
pub fn rd_u16(d: &[u8], off: usize) -> (r: u16)
    requires
        off + 2 <= d@.len(),
    ensures
        r == le16(d@, off as int),
{
    d[off] as u16 + 256 * (d[off + 1] as u16)
}

/// Read the little-endian 32-bit value at `off`.
pub fn rd_u32(d: &[u8], off: usize) -> (r: u32)
    requires
        off + 4 <= d@.len(),
    ensures
        r == le32(d@, off as int),
{
    d[off] as u32 + 256 * (d[off + 1] as u32) + 65536 * (d[off + 2] as u32) + 16777216 * (d[off + 3] as u32)
}

/// Read the little-endian 64-bit value at `off`.
pub fn rd_u64(d: &[u8], off: usize) -> (r: u64)
    requires
        off + 8 <= d@.len(),
    ensures
        r == le64(d@, off as int),
{
    let n = d.len();
    assert(off + 4 <= n);
    rd_u32(d, off) as u64 + 4294967296 * (rd_u32(d, off + 4) as u64)
}

/// A loadable segment.
#[derive(Debug, Clone, Copy, PartialEq, Eq, Structural)]
pub struct ElfSegment {
    /// Offset of its contents in the file.
    pub offset: u64,
    /// Virtual address it is loaded at.
    pub vaddr: u64,
    /// Bytes taken from the file.
    pub filesz: u64,
    /// Bytes in memory; those past the file's are zero.
    pub memsz: u64,
}

/// An executable: its entry point and loadable segments in header order.
#[derive(Debug, Clone)]
pub struct ElfImage {
    pub entry: u64,
    pub segments: Vec<ElfSegment>,
}

/// Whether `d` starts with a 64-bit ELF header whose program headers are
/// at least as large as an ELF64 one.
pub open spec fn header_ok(d: Seq<u8>) -> bool {
    &&& d.len() >= 64
    &&& d[0] == 0x7f && d[1] == 0x45 && d[2] == 0x4c && d[3] == 0x46
    &&& d[4] == 2
    &&& le16(d, 0x36) >= ELF_PH_ENTSIZE
}

/// Offset of program header `i`.
pub open spec fn ph_offset(d: Seq<u8>, i: int) -> int {
    le64(d, 0x20) + i * le16(d, 0x36)
}

/// Program header `i` read as a segment.
pub open spec fn segment_at(d: Seq<u8>, i: int) -> ElfSegment {
    let p = ph_offset(d, i);
    ElfSegment { offset: le64(d, p + 8) as u64, vaddr: le64(d, p + 0x10) as u64, filesz: le64(d, p + 0x20) as u64,
        memsz: le64(d, p + 0x28) as u64 }
}

/// Whether program header `i` lies in the file and, when loadable,
/// describes a segment whose contents lie in the file and whose memory
/// size covers them.
pub open spec fn header_good(d: Seq<u8>, i: int) -> bool {
    &&& ph_offset(d, i) + ELF_PH_ENTSIZE <= d.len()
    &&& le32(d, ph_offset(d, i)) == PT_LOAD ==> {
        let s = segment_at(d, i);
        s.offset + s.filesz <= d.len() && s.memsz >= s.filesz
    }
}

/// Whether `d` is an executable this loader accepts.
pub open spec fn elf_valid(d: Seq<u8>) -> bool {
    header_ok(d) && forall|i: int| 0 <= i < le16(d, 0x38) ==> #[trigger] header_good(d, i)
}

/// The loadable segments among the first `k` program headers, in order.
pub open spec fn load_segments(d: Seq<u8>, k: int) -> Seq<ElfSegment>
    decreases k,
{
    if k <= 0 {
        Seq::empty()
    } else {
        let rest = load_segments(d, k - 1);
        if le32(d, ph_offset(d, k - 1)) == PT_LOAD { rest.push(segment_at(d, k - 1)) } else { rest }
    }
}

/// Check an executable and list its loadable segments.
pub fn parse_elf(d: &[u8]) -> (r: Result<ElfImage, ProcessError>)
    ensures
        elf_valid(d@) ==> (r matches Ok(img) && img.entry == le64(d@, 0x18) && img.segments@ == load_segments(d@, le16(d@, 0x38) as int)),
        !elf_valid(d@) ==> r == Err::<ElfImage, ProcessError>(ProcessError::InvalidElf),
{
    let len = d.len();
    if len < 64 || d[0] != 0x7f || d[1] != 0x45 || d[2] != 0x4c || d[3] != 0x46 || d[4] != 2 {
        return Err(ProcessError::InvalidElf);
    }
    let entry = rd_u64(d, 0x18);
    let phoff = rd_u64(d, 0x20);
    let phentsize = rd_u16(d, 0x36) as u64;
    let phnum = rd_u16(d, 0x38) as u64;
    if phentsize < ELF_PH_ENTSIZE {
        return Err(ProcessError::InvalidElf);
    }
    let mut segments: Vec<ElfSegment> = Vec::new();
    let mut i: u64 = 0;
    while i < phnum
        invariant
            len == d@.len(),
            header_ok(d@),
            phoff == le64(d@, 0x20),
            phentsize == le16(d@, 0x36),
            phnum == le16(d@, 0x38),
            i <= phnum,
            forall|j: int| 0 <= j < i ==> #[trigger] header_good(d@, j),
            segments@ == load_segments(d@, i as int),
        decreases phnum - i,
    {
        assert(ph_offset(d@, i as int) == phoff + i * phentsize);
        let step = match i.checked_mul(phentsize) {
            Some(s) => s,
            None => {
                proof { assert(i * phentsize > u64::MAX); assert(!header_good(d@, i as int)); }
                return Err(ProcessError::InvalidElf);
            },
        };
        let ph = match phoff.checked_add(step) {
            Some(p) => p,
            None => {
                proof { assert(!header_good(d@, i as int)); }
                return Err(ProcessError::InvalidElf);
            },
        };
        if ph > len as u64 || len as u64 - ph < ELF_PH_ENTSIZE {
            proof { assert(!header_good(d@, i as int)); }
            return Err(ProcessError::InvalidElf);
        }
        let p = ph as usize;
        if rd_u32(d, p) == PT_LOAD {
            let seg = ElfSegment {
                offset: rd_u64(d, p + 8),
                vaddr: rd_u64(d, p + 0x10),
                filesz: rd_u64(d, p + 0x20),
                memsz: rd_u64(d, p + 0x28),
            };
            assert(seg == segment_at(d@, i as int));
            if seg.offset > len as u64 || len as u64 - seg.offset < seg.filesz || seg.memsz < seg.filesz {
                proof { assert(!header_good(d@, i as int)); }
                return Err(ProcessError::InvalidElf);
            }
            segments.push(seg);
        }
        proof {
            assert(header_good(d@, i as int));
        }
        i = i + 1;
    }
    proof {
        assert forall|j: int| 0 <= j < le16(d@, 0x38) implies #[trigger] header_good(d@, j) by {}
    }
    Ok(ElfImage { entry, segments })
}

/// The page-aligned addresses of the pages segment `s` occupies in
/// memory, lowest first.
pub open spec fn segment_pages_of(s: ElfSegment) -> Seq<u64> {
    let base = s.vaddr - s.vaddr % 4096;
    let end = s.vaddr + s.memsz;
    Seq::new(if end > base { ((end - base + 4095) / 4096) as nat } else { 0 }, |k: int| (base + 4096 * k) as u64)
}

/// The pages segment `s` needs mapped (its end must leave a page of room
/// below the top of the address space).
pub fn segment_pages(s: &ElfSegment) -> (r: Vec<u64>)
    requires
        s.vaddr + s.memsz + 4096 <= u64::MAX,
    ensures
        r@ == segment_pages_of(*s),
{
    let end = s.vaddr + s.memsz;
    let base = s.vaddr - s.vaddr % 4096;
    let mut r: Vec<u64> = Vec::new();
    let mut v = base;
    let mut k: u64 = 0;
    while v < end
        invariant
            end == s.vaddr + s.memsz,
            end + 4096 <= u64::MAX,
            base == s.vaddr - s.vaddr % 4096,
            v == base + 4096 * k,
            v <= end + 4095,
            r@ == Seq::new(k as nat, |j: int| (base + 4096 * j) as u64),
            k * 4096 < end - base + 4096,
        decreases end + 4096 - v,
    {
        r.push(v);
        assert(r@ =~= Seq::new((k + 1) as nat, |j: int| (base + 4096 * j) as u64));
        v = v + 4096;
        k = k + 1;
    }
    proof {
        let cnt: int = if end > base { (end - base + 4095) / 4096 } else { 0 };
        if end > base {
            assert(k == cnt) by (nonlinear_arith)
                requires
                    v == base + 4096 * k,
                    v >= end,
                    end > base,
                    base + 4096 * (k - 1) < end || k == 0,
                    k * 4096 < end - base + 4096,
                    cnt == (end - base + 4095) / 4096;
        } else {
            assert(k == 0);
        }
        assert(r@ =~= segment_pages_of(*s));
    }
    r
}

/// The pages of the initial user stack: the `USER_STACK_PAGES` pages just
/// below `top`, highest first.
pub fn stack_pages(top: u64) -> (r: Vec<u64>)
    requires
        top >= 4096 * USER_STACK_PAGES,
    ensures
        r@ == Seq::new(USER_STACK_PAGES as nat, |i: int| (top - 4096 * (i + 1)) as u64),
{
    let mut r: Vec<u64> = Vec::new();
    let mut i: u64 = 1;
    while i <= USER_STACK_PAGES
        invariant
            1 <= i <= USER_STACK_PAGES + 1,
            top >= 4096 * USER_STACK_PAGES,
            r@ == Seq::new((i - 1) as nat, |j: int| (top - 4096 * (j + 1)) as u64),
        decreases USER_STACK_PAGES + 1 - i,
    {
        r.push(top - i * 4096);
        assert(r@ =~= Seq::new(i as nat, |j: int| (top - 4096 * (j + 1)) as u64));
        i = i + 1;
    }
    r
}

} // verus!
