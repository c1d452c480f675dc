//! Virtual pages, the page-table flag bits, and address spaces backed by
//! four-level page tables.
use vstd::prelude::*;
use crate::types::memory::{PhysAddr, VirtAddr};
use crate::kernel::memory::{MemoryError, MemoryManager};
use crate::kernel::memory::frame::{Frame, FrameAllocator, count_free, lemma_count_free_bound, lemma_count_free_update};

verus! {

/// A virtual page, identified by its number.
#[derive(Debug, Clone, Copy, PartialEq, Eq, Structural)]
pub struct Page {
    /// Page number: start address divided by the page size.
    pub number: usize,
}

impl Page {
    /// The page holding `addr`.
    pub fn from_address(addr: VirtAddr) -> (r: Self)
        ensures
            r.number == (addr.0 / 4096) as usize,
    {
        Page { number: (addr.as_u64() / 4096) as usize }
    }

    /// The page with the given number.
    pub fn from_number(number: usize) -> (r: Self)
        ensures
            r.number == number,
    {
        Page { number }
    }

    /// The first address of the page.
    pub fn start_address(self) -> (r: VirtAddr)
        requires
            self.number * 4096 <= u64::MAX,
        ensures
            r.0 == self.number * 4096,
    {
        VirtAddr::new_unchecked((self.number as u64) * 4096)
    }

    /// The first address past the page.
    pub fn end_address(self) -> (r: VirtAddr)
        requires
            (self.number + 1) * 4096 <= u64::MAX,
        ensures
            r.0 == (self.number + 1) * 4096,
    {
        VirtAddr::new_unchecked(((self.number as u64) + 1) * 4096)
    }

    /// The page number.
    pub fn as_number(self) -> (r: usize)
        ensures
            r == self.number,
    {
        self.number
    }
}

/// The entry maps a page.
pub const PAGE_PRESENT: u64 = 0x1;
/// The page is writable.
pub const PAGE_WRITABLE: u64 = 0x2;
/// The page is reachable from user mode.
pub const PAGE_USER_ACCESSIBLE: u64 = 0x4;
/// Write-through caching.
pub const PAGE_WRITE_THROUGH: u64 = 0x8;
/// Caching disabled.
pub const PAGE_NO_CACHE: u64 = 0x10;
/// Set by the CPU on access.
pub const PAGE_ACCESSED: u64 = 0x20;
/// Set by the CPU on write.
pub const PAGE_DIRTY: u64 = 0x40;
/// The entry maps a huge page.
pub const PAGE_HUGE_PAGE: u64 = 0x80;
/// The mapping survives address-space switches.
pub const PAGE_GLOBAL: u64 = 0x100;
/// Instruction fetches are forbidden.
pub const PAGE_NO_EXECUTE: u64 = 0x8000_0000_0000_0000;
/// Every defined page flag.
pub const PAGE_FLAGS_ALL: u64 = 0x8000_0000_0000_01FF;

/// Page-table entry flags, a set of the bits above.
#[derive(Debug, Clone, Copy, PartialEq, Eq, Structural)]
pub struct PageFlags(pub u64);

impl PageFlags {
    /// No flag.
    pub fn empty() -> (r: Self)
        ensures
            r.0 == 0,
    {
        PageFlags(0)
    }

    /// The raw bits.
    pub fn bits(self) -> (r: u64)
        ensures
            r == self.0,
    {
        self.0
    }

    /// The flags named by `bits`, undefined bits dropped.
    pub fn from_bits_truncate(bits: u64) -> (r: Self)
        ensures
            r.0 == bits & PAGE_FLAGS_ALL,
    {
        PageFlags(bits & PAGE_FLAGS_ALL)
    }

    /// Whether every flag of `other` is set.
    pub fn contains(self, other: PageFlags) -> (r: bool)
        ensures
            r == (self.0 & other.0 == other.0),
    {
        self.0 & other.0 == other.0
    }

    /// The flags of both.
    pub fn union(self, other: PageFlags) -> (r: Self)
        ensures
            r.0 == self.0 | other.0,
    {
        PageFlags(self.0 | other.0)
    }
}

/// Entry bit: the entry is in use.
pub const PTE_PRESENT: u64 = 0x1;
/// Entry bit: writable.
pub const PTE_WRITABLE: u64 = 0x2;
/// Entry bit: reachable from user mode.
pub const PTE_USER: u64 = 0x4;
/// Entry bit, in a third-level entry: maps a 2MB page.
pub const PTE_HUGE: u64 = 0x80;
/// The physical-address bits of an entry.
pub const PTE_ADDR_MASK: u64 = 0x000F_FFFF_FFFF_F000;
/// Low physical memory identity-mapped, supervisor only, into every
/// address space with 2MB pages (1GB).
pub const KERNEL_IDENTITY_SIZE: u64 = 0x4000_0000;
/// Size of a huge page (2MB).
pub const HUGE_PAGE_SIZE: u64 = 0x20_0000;
/// Largest number of frames whose addresses fit an entry's address bits.
pub const MAX_TABLE_FRAMES: u64 = 0x100_0000_0000;

/// Whether entry `e` is in use.
pub open spec fn present(e: u64) -> bool {
    e & PTE_PRESENT != 0
}

/// Whether entry `e` maps a huge page.
pub open spec fn huge(e: u64) -> bool {
    e & PTE_HUGE != 0
}

/// The physical address entry `e` refers to.
pub open spec fn target(e: u64) -> u64 {
    e & PTE_ADDR_MASK
}

/// Index of `v` in the top-level table.
pub open spec fn l4_index(v: u64) -> int {
    ((v >> 39u64) & 0x1FF) as int
}

/// Index of `v` in the second-level table.
pub open spec fn l3_index(v: u64) -> int {
    ((v >> 30u64) & 0x1FF) as int
}

/// Index of `v` in the third-level table.
pub open spec fn l2_index(v: u64) -> int {
    ((v >> 21u64) & 0x1FF) as int
}

/// Index of `v` in the last-level table.
pub open spec fn l1_index(v: u64) -> int {
    ((v >> 12u64) & 0x1FF) as int
}

/// A page-table frame: its physical address, its level (4 for the top
/// table down to 1 for the tables of 4KB pages) and its 512 entries.
#[derive(Debug)]
pub struct TableFrame {
    pub addr: u64,
    pub level: u8,
    pub entries: Vec<u64>,
}

/// Whether some table of `ts` lies at `a`.
pub open spec fn has_table(ts: Seq<TableFrame>, a: u64) -> bool {
    exists|i: int| 0 <= i < ts.len() && #[trigger] ts[i].addr == a
}

/// The position in `ts` of the table at `a`.
pub open spec fn table_at(ts: Seq<TableFrame>, a: u64) -> int {
    choose|i: int| 0 <= i < ts.len() && #[trigger] ts[i].addr == a
}

/// Entry `k` of the table at `a`.
pub open spec fn entry_of(ts: Seq<TableFrame>, a: u64, k: int) -> u64 {
    ts[table_at(ts, a)].entries@[k]
}

/// The level of the table at `a`.
pub open spec fn level_of(ts: Seq<TableFrame>, a: u64) -> u8 {
    ts[table_at(ts, a)].level
}

/// No two tables share a frame.
pub open spec fn addrs_distinct(ts: Seq<TableFrame>) -> bool {
    forall|i: int, j: int| 0 <= i < j < ts.len() ==> (#[trigger] ts[i]).addr != (#[trigger] ts[j]).addr
}

/// Every entry that refers to a table (a used entry of a top or second
/// level table, or a used entry that is not a huge page in a third-level
/// table) refers to a table of the level below.
pub open spec fn links_ok(ts: Seq<TableFrame>) -> bool {
    forall|i: int, k: int| 0 <= i < ts.len() && 0 <= k < 512
        && present(#[trigger] ts[i].entries@[k])
        && (ts[i].level >= 3 || (ts[i].level == 2 && !huge(ts[i].entries@[k])))
        ==> has_table(ts, target(ts[i].entries@[k])) && level_of(ts, target(ts[i].entries@[k])) == ts[i].level - 1
}

/// Whether entry `e` of a table of level `level` refers to another table.
pub open spec fn links(level: u8, e: u64) -> bool {
    present(e) && (level >= 3 || (level == 2 && !huge(e)))
}

/// No table is referred to by two entries.
pub open spec fn single_parents(ts: Seq<TableFrame>) -> bool {
    forall|i: int, k: int, p: int, q: int| 0 <= i < ts.len() && 0 <= k < 512 && 0 <= p < ts.len() && 0 <= q < 512
        && links(ts[i].level, #[trigger] ts[i].entries@[k]) && links(ts[p].level, #[trigger] ts[p].entries@[q])
        && target(ts[i].entries@[k]) == target(ts[p].entries@[q]) ==> i == p && k == q
}

/// Every entry of a third-level table marked as a huge page is in use.
pub open spec fn huge_present(ts: Seq<TableFrame>) -> bool {
    forall|i: int, k: int| 0 <= i < ts.len() && 0 <= k < ts[i].entries@.len() && ts[i].level == 2
        && huge(#[trigger] ts[i].entries@[k]) ==> present(ts[i].entries@[k])
}

/// The tables form a four-level tree under the top table at `root`.
pub open spec fn tables_wf(ts: Seq<TableFrame>, root: u64) -> bool {
    &&& addrs_distinct(ts)
    &&& forall|i: int| 0 <= i < ts.len() ==> (#[trigger] ts[i]).entries@.len() == 512 && 1 <= ts[i].level <= 4
    &&& has_table(ts, root)
    &&& level_of(ts, root) == 4
    &&& links_ok(ts)
    &&& single_parents(ts)
}

/// The frame the tables under `root` map the virtual address `v` to:
/// through a huge page, the frame of the address within it.
pub open spec fn translate_in(ts: Seq<TableFrame>, root: u64, v: u64) -> Option<Frame> {
    let e4 = entry_of(ts, root, l4_index(v));
    if !present(e4) {
        None
    } else {
        let e3 = entry_of(ts, target(e4), l3_index(v));
        if !present(e3) {
            None
        } else {
            let e2 = entry_of(ts, target(e3), l2_index(v));
            if !present(e2) {
                None
            } else if huge(e2) {
                Some(Frame { index: ((target(e2) + (v & 0x1F_FFFF)) / 4096) as usize })
            } else {
                let e1 = entry_of(ts, target(e2), l1_index(v));
                if !present(e1) { None } else { Some(Frame { index: (target(e1) / 4096) as usize }) }
            }
        }
    }
}

/// The entry `map_page` writes for `frame` with `flags`.
pub open spec fn leaf_entry(frame: Frame, flags: PageFlags) -> u64 {
    ((frame.index * 4096) as u64 & PTE_ADDR_MASK) | flags.0
}

/// What a last-level entry `e` maps its page to.
pub open spec fn mapped_to(e: u64) -> Option<Frame> {
    if present(e) { Some(Frame { index: (target(e) / 4096) as usize }) } else { None }
}

/// Whether the tables under `root` map `v` through a huge page.
pub open spec fn huge_mapped(ts: Seq<TableFrame>, root: u64, v: u64) -> bool {
    let e4 = entry_of(ts, root, l4_index(v));
    let e3 = entry_of(ts, target(e4), l3_index(v));
    let e2 = entry_of(ts, target(e3), l2_index(v));
    present(e4) && present(e3) && present(e2) && huge(e2)
}

/// The entry that maps the 2MB page at `paddr` with `flags`.
pub open spec fn huge_entry(paddr: u64, flags: u64) -> u64 {
    (paddr & !0x1F_FFFFu64) | flags | PTE_HUGE
}

/// Below 1GB only the third-level index varies: it is the 2MB page number.
pub proof fn lemma_low_indices(v: u64)
    requires
        v < KERNEL_IDENTITY_SIZE,
    ensures
        l4_index(v) == 0,
        l3_index(v) == 0,
        l2_index(v) == v / HUGE_PAGE_SIZE,
        v & 0x1F_FFFF == v % HUGE_PAGE_SIZE,
{
    assert((v >> 39u64) & 0x1FF == 0 && (v >> 30u64) & 0x1FF == 0 && (v >> 21u64) & 0x1FF == v / 0x20_0000
        && v & 0x1F_FFFF == v % 0x20_0000) by (bit_vector) requires v < 0x4000_0000u64;
}

/// A huge entry for an aligned address is a used huge entry for it.
pub proof fn lemma_huge_entry(paddr: u64, flags: u64)
    requires
        paddr % HUGE_PAGE_SIZE == 0,
        paddr < 0x10_0000_0000_0000,
        flags & PTE_PRESENT != 0,
        flags & PTE_ADDR_MASK == 0,
    ensures
        present(huge_entry(paddr, flags)),
        huge(huge_entry(paddr, flags)),
        target(huge_entry(paddr, flags)) == paddr,
{
    let e = huge_entry(paddr, flags);
    assert(e & 1 != 0 && e & 0x80 != 0 && e & 0x000F_FFFF_FFFF_F000 == paddr) by (bit_vector)
        requires
            e == (paddr & !0x1F_FFFFu64) | flags | 0x80,
            paddr % 0x20_0000 == 0,
            paddr < 0x10_0000_0000_0000,
            flags & 1 != 0,
            flags & 0x000F_FFFF_FFFF_F000 == 0;
}

/// A table of 512 unused entries.
fn zero_entries() -> (r: Vec<u64>)
    ensures
        r@.len() == 512,
        forall|j: int| 0 <= j < 512 ==> r@[j] == 0,
{
    let mut entries: Vec<u64> = Vec::new();
    let mut n: usize = 0;
    while n < 512
        invariant
            n <= 512,
            entries@.len() == n,
            forall|j: int| 0 <= j < n ==> entries@[j] == 0,
        decreases 512 - n,
    {
        entries.push(0);
        n = n + 1;
    }
    entries
}

/// What `map_page` of `page` to `frame` with `flags` does, from address
/// space `s0` and frame allocator `fa0` to `s1` and `fa1`, returning `r`:
/// both stay well formed with the tables backed by the allocator, and at
/// most three frames are taken; a page already mapped, and only such a
/// page, is refused as `AlreadyMapped` with nothing changed; otherwise
/// either a frame for a table runs out (fewer than three were free), or
/// the page ends up mapped by the entry made of `frame` and `flags`.
pub open spec fn map_outcome(s0: AddressSpace, s1: AddressSpace, fa0: FrameAllocator, fa1: FrameAllocator,
    page: Page, frame: Frame, flags: PageFlags, r: Result<(), MemoryError>) -> bool
{
    let v = (page.number * 4096) as u64;
    &&& s1.wf()
    &&& fa1.wf()
    &&& s1.backed_by(fa1)
    &&& s1.root() == s0.root()
    &&& fa1.view().len() == fa0.view().len()
    &&& s0.translation(v) is Some <==> r == Err::<(), MemoryError>(MemoryError::AlreadyMapped)
    &&& s0.translation(v) is Some ==> s1 == s0 && fa1 == fa0
    &&& r is Err ==> r == Err::<(), MemoryError>(MemoryError::AlreadyMapped) || r == Err::<(), MemoryError>(MemoryError::OutOfMemory)
    &&& r == Err::<(), MemoryError>(MemoryError::OutOfMemory) ==> s0.translation(v) is None
        && count_free(fa0.view()) < 3
    &&& count_free(fa1.view()) <= count_free(fa0.view())
    &&& count_free(fa1.view()) + 3 >= count_free(fa0.view())
    &&& r is Ok ==> s0.translation(v) is None && s1.translation(v) == mapped_to(leaf_entry(frame, flags))
        && !huge_mapped(s1.tables(), s1.root(), v)
    &&& forall|w: u64| !same_path(v, w) ==> #[trigger] s1.translation(w) == s0.translation(w)
}

/// What `unmap_page` of `page` does, from `s0` to `s1`, returning `r`: the
/// tables keep their frames; a page not mapped by an entry of its own is
/// refused with nothing changed; otherwise its frame is returned and the
/// page is no longer mapped.
pub open spec fn unmap_outcome(s0: AddressSpace, s1: AddressSpace, page: Page, r: Result<Frame, MemoryError>) -> bool {
    let v = (page.number * 4096) as u64;
    &&& s1.wf()
    &&& s1.root() == s0.root()
    &&& s1.tables().len() == s0.tables().len()
    &&& forall|j: int| 0 <= j < s0.tables().len() ==> (#[trigger] s1.tables()[j]).addr == s0.tables()[j].addr
    &&& (s0.translation(v) is None || huge_mapped(s0.tables(), s0.root(), v))
        ==> r == Err::<Frame, MemoryError>(MemoryError::AddressNotMapped) && s1 == s0
    &&& (s0.translation(v) is Some && !huge_mapped(s0.tables(), s0.root(), v))
        ==> r == Ok::<Frame, MemoryError>(s0.translation(v).unwrap()) && s1.translation(v) is None
    &&& forall|w: u64| !same_path(v, w) ==> #[trigger] s1.translation(w) == s0.translation(w)
}

/// Whether translating `v` under `root` reads entry `k` of the table at `a`.
pub open spec fn reads(ts: Seq<TableFrame>, root: u64, v: u64, a: u64, k: int) -> bool {
    let e4 = entry_of(ts, root, l4_index(v));
    let e3 = entry_of(ts, target(e4), l3_index(v));
    let e2 = entry_of(ts, target(e3), l2_index(v));
    ||| a == root && k == l4_index(v)
    ||| present(e4) && a == target(e4) && k == l3_index(v)
    ||| present(e4) && present(e3) && a == target(e3) && k == l2_index(v)
    ||| present(e4) && present(e3) && present(e2) && !huge(e2) && a == target(e2) && k == l1_index(v)
}

/// Whether `v` and `w` go through the same entry at every level.
pub open spec fn same_path(v: u64, w: u64) -> bool {
    l4_index(v) == l4_index(w) && l3_index(v) == l3_index(w) && l2_index(v) == l2_index(w) && l1_index(v) == l1_index(w)
}

/// A translation that does not read the one entry changed is unchanged.
pub proof fn lemma_unread_entry(ts: Seq<TableFrame>, ts2: Seq<TableFrame>, root: u64, w: u64, a: u64, k: int)
    requires
        tables_wf(ts, root),
        forall|x: u64, j: int| has_table(ts, x) && 0 <= j < 512 && !(x == a && j == k) ==>
            #[trigger] entry_of(ts2, x, j) == entry_of(ts, x, j),
        !reads(ts, root, w, a, k),
    ensures
        translate_in(ts2, root, w) == translate_in(ts, root, w),
{
    lemma_indices(w);
    lemma_table_at(ts, root, table_at(ts, root));
    let e4 = entry_of(ts, root, l4_index(w));
    assert(entry_of(ts2, root, l4_index(w)) == e4);
    if present(e4) {
        let e3 = entry_of(ts, target(e4), l3_index(w));
        assert(has_table(ts, target(e4)) && level_of(ts, target(e4)) == 3);
        assert(entry_of(ts2, target(e4), l3_index(w)) == e3);
        if present(e3) {
            let e2 = entry_of(ts, target(e3), l2_index(w));
            assert(has_table(ts, target(e3)) && level_of(ts, target(e3)) == 2);
            assert(entry_of(ts2, target(e3), l2_index(w)) == e2);
            if present(e2) && !huge(e2) {
                assert(has_table(ts, target(e2)));
                assert(entry_of(ts2, target(e2), l1_index(w)) == entry_of(ts, target(e2), l1_index(w)));
            }
        }
    }
}

/// Pointing an unused entry at a fresh table of unused entries changes no
/// translation.
pub proof fn lemma_fresh_link(ts: Seq<TableFrame>, ts2: Seq<TableFrame>, root: u64, w: u64, a: u64, k: int, t: u64)
    requires
        tables_wf(ts, root),
        has_table(ts, a),
        level_of(ts, a) >= 2,
        0 <= k < 512,
        !present(entry_of(ts, a, k)),
        present(entry_of(ts2, a, k)),
        level_of(ts, a) >= 3 || !huge(entry_of(ts2, a, k)),
        target(entry_of(ts2, a, k)) == t,
        forall|j: int| 0 <= j < 512 ==> #[trigger] entry_of(ts2, t, j) == 0,
        forall|x: u64, j: int| has_table(ts, x) && 0 <= j < 512 && !(x == a && j == k) ==>
            #[trigger] entry_of(ts2, x, j) == entry_of(ts, x, j),
    ensures
        translate_in(ts2, root, w) == translate_in(ts, root, w),
{
    lemma_indices(w);
    lemma_unused_entry();
    if !reads(ts, root, w, a, k) {
        lemma_unread_entry(ts, ts2, root, w, a, k);
    } else {
        lemma_table_at(ts, root, table_at(ts, root));
        let e4 = entry_of(ts, root, l4_index(w));
        assert(entry_of(ts2, root, l4_index(w)) == e4 || (a == root && k == l4_index(w)));
        if a == root && k == l4_index(w) {
            assert(entry_of(ts2, t, l3_index(w)) == 0);
        } else if present(e4) {
            let e3 = entry_of(ts, target(e4), l3_index(w));
            assert(has_table(ts, target(e4)) && level_of(ts, target(e4)) == 3);
            if a == target(e4) && k == l3_index(w) {
                assert(entry_of(ts2, t, l2_index(w)) == 0);
            } else {
                assert(entry_of(ts2, target(e4), l3_index(w)) == e3);
                if present(e3) {
                    let e2 = entry_of(ts, target(e3), l2_index(w));
                    assert(has_table(ts, target(e3)) && level_of(ts, target(e3)) == 2);
                    if a == target(e3) && k == l2_index(w) {
                        assert(entry_of(ts2, t, l1_index(w)) == 0);
                    } else {
                        assert(entry_of(ts2, target(e3), l2_index(w)) == e2);
                        if present(e2) && !huge(e2) {
                            assert(has_table(ts, target(e2)) && level_of(ts, target(e2)) == 1);
                            assert(a != target(e2));
                        }
                    }
                }
            }
        }
    }
}

/// Only addresses on the same path read a given entry of a last-level
/// table, since no table is referred to twice.
pub proof fn lemma_leaf_readers(ts: Seq<TableFrame>, root: u64, v: u64, w: u64, a: u64, k: int)
    requires
        tables_wf(ts, root),
        has_table(ts, a),
        level_of(ts, a) == 1,
        reads(ts, root, v, a, k),
        reads(ts, root, w, a, k),
    ensures
        same_path(v, w),
{
    lemma_indices(v);
    lemma_indices(w);
    lemma_table_at(ts, root, table_at(ts, root));
    let e4v = entry_of(ts, root, l4_index(v));
    let e4w = entry_of(ts, root, l4_index(w));
    let e3v = entry_of(ts, target(e4v), l3_index(v));
    let e3w = entry_of(ts, target(e4w), l3_index(w));
    let e2v = entry_of(ts, target(e3v), l2_index(v));
    let e2w = entry_of(ts, target(e3w), l2_index(w));
    if present(e4v) {
        assert(level_of(ts, target(e4v)) == 3);
        if present(e3v) {
            assert(level_of(ts, target(e3v)) == 2);
        }
    }
    if present(e4w) {
        assert(level_of(ts, target(e4w)) == 3);
        if present(e3w) {
            assert(level_of(ts, target(e3w)) == 2);
        }
    }
    assert(present(e4v) && present(e3v) && present(e2v) && !huge(e2v) && a == target(e2v) && k == l1_index(v));
    assert(present(e4w) && present(e3w) && present(e2w) && !huge(e2w) && a == target(e2w) && k == l1_index(w));
    let i2v = table_at(ts, target(e3v));
    let i2w = table_at(ts, target(e3w));
    assert(ts[i2v].entries@[l2_index(v)] == e2v);
    assert(ts[i2w].entries@[l2_index(w)] == e2w);
    assert(i2v == i2w && l2_index(v) == l2_index(w));
    lemma_table_at(ts, target(e3v), i2v);
    lemma_table_at(ts, target(e3w), i2w);
    let i3v = table_at(ts, target(e4v));
    let i3w = table_at(ts, target(e4w));
    assert(ts[i3v].entries@[l3_index(v)] == e3v);
    assert(ts[i3w].entries@[l3_index(w)] == e3w);
    assert(i3v == i3w && l3_index(v) == l3_index(w));
    lemma_table_at(ts, target(e4v), i3v);
    lemma_table_at(ts, target(e4w), i3w);
    let i4 = table_at(ts, root);
    assert(ts[i4].entries@[l4_index(v)] == e4v);
    assert(ts[i4].entries@[l4_index(w)] == e4w);
}

/// The table at position `i` is the one `table_at` finds for its address.
pub proof fn lemma_table_at(ts: Seq<TableFrame>, a: u64, i: int)
    requires
        addrs_distinct(ts),
        0 <= i < ts.len(),
        ts[i].addr == a,
    ensures
        has_table(ts, a),
        table_at(ts, a) == i,
{
    assert(has_table(ts, a));
    let j = table_at(ts, a);
    if j < i {
        assert(ts[j].addr != ts[i].addr);
    } else if j > i {
        assert(ts[i].addr != ts[j].addr);
    }
}

/// The zero entry is not in use.
pub proof fn lemma_unused_entry()
    ensures
        !present(0),
        !huge(0),
{
    assert(0u64 & 1 == 0 && 0u64 & 0x80 == 0) by (bit_vector);
}

/// The index bits of an address are below 512.
pub proof fn lemma_indices(v: u64)
    ensures
        0 <= l4_index(v) < 512,
        0 <= l3_index(v) < 512,
        0 <= l2_index(v) < 512,
        0 <= l1_index(v) < 512,
{
    assert((v >> 39u64) & 0x1FF < 512 && (v >> 30u64) & 0x1FF < 512 && (v >> 21u64) & 0x1FF < 512
        && (v >> 12u64) & 0x1FF < 512) by (bit_vector);
}

/// Whether entry `v`, put in a table of level `level` of `ts`, refers to a
/// table where it must.
pub open spec fn link_ok(ts: Seq<TableFrame>, level: u8, v: u64) -> bool {
    (present(v) && (level >= 3 || (level == 2 && !huge(v))))
        ==> has_table(ts, target(v)) && level_of(ts, target(v)) == level - 1
}

/// Tables with the same addresses and levels, position by position, have
/// the same tables at the same positions.
pub proof fn lemma_same_frames(ts: Seq<TableFrame>, ts2: Seq<TableFrame>)
    requires
        addrs_distinct(ts),
        ts2.len() == ts.len(),
        forall|j: int| 0 <= j < ts.len() ==> (#[trigger] ts2[j]).addr == ts[j].addr && ts2[j].level == ts[j].level,
    ensures
        addrs_distinct(ts2),
        forall|x: u64| #[trigger] has_table(ts2, x) == has_table(ts, x),
        forall|x: u64| has_table(ts, x) ==> #[trigger] table_at(ts2, x) == table_at(ts, x) && level_of(ts2, x) == level_of(ts, x),
{
    assert(addrs_distinct(ts2)) by {
        assert forall|i: int, j: int| 0 <= i < j < ts2.len() implies (#[trigger] ts2[i]).addr != (#[trigger] ts2[j]).addr by {
            assert(ts[i].addr != ts[j].addr);
        }
    }
    assert forall|x: u64| #[trigger] has_table(ts2, x) == has_table(ts, x) by {
        if has_table(ts, x) {
            let i = choose|i: int| 0 <= i < ts.len() && #[trigger] ts[i].addr == x;
            assert(ts2[i].addr == x);
        }
        if has_table(ts2, x) {
            let i = choose|i: int| 0 <= i < ts2.len() && #[trigger] ts2[i].addr == x;
            assert(ts[i].addr == x);
        }
    }
    assert forall|x: u64| has_table(ts, x) implies #[trigger] table_at(ts2, x) == table_at(ts, x) && level_of(ts2, x) == level_of(ts, x) by {
        let i = table_at(ts, x);
        lemma_table_at(ts, x, i);
        lemma_table_at(ts2, x, i);
    }
}

/// Appending a table at a fresh address keeps every other table where it
/// was and puts the new one last.
pub proof fn lemma_push_frame(ts: Seq<TableFrame>, t: TableFrame)
    requires
        addrs_distinct(ts),
        !has_table(ts, t.addr),
    ensures
        addrs_distinct(ts.push(t)),
        forall|x: u64| #[trigger] has_table(ts.push(t), x) == (has_table(ts, x) || x == t.addr),
        forall|x: u64| has_table(ts, x) ==> #[trigger] table_at(ts.push(t), x) == table_at(ts, x)
            && level_of(ts.push(t), x) == level_of(ts, x),
        table_at(ts.push(t), t.addr) == ts.len(),
{
    let ts2 = ts.push(t);
    assert(addrs_distinct(ts2)) by {
        assert forall|i: int, j: int| 0 <= i < j < ts2.len() implies (#[trigger] ts2[i]).addr != (#[trigger] ts2[j]).addr by {
            if j == ts.len() {
                if ts[i].addr == t.addr {
                    assert(has_table(ts, t.addr));
                }
            } else {
                assert(ts[i].addr != ts[j].addr);
            }
        }
    }
    assert forall|x: u64| #[trigger] has_table(ts2, x) == (has_table(ts, x) || x == t.addr) by {
        if has_table(ts, x) {
            let i = choose|i: int| 0 <= i < ts.len() && #[trigger] ts[i].addr == x;
            assert(ts2[i].addr == x);
        }
        if x == t.addr {
            assert(ts2[ts.len() as int].addr == x);
        }
        if has_table(ts2, x) && x != t.addr {
            let i = choose|i: int| 0 <= i < ts2.len() && #[trigger] ts2[i].addr == x;
            assert(i < ts.len());
            assert(ts[i].addr == x);
        }
    }
    assert forall|x: u64| has_table(ts, x) implies #[trigger] table_at(ts2, x) == table_at(ts, x)
        && level_of(ts2, x) == level_of(ts, x) by {
        let i = table_at(ts, x);
        lemma_table_at(ts, x, i);
        lemma_table_at(ts2, x, i);
    }
    lemma_table_at(ts2, t.addr, ts.len() as int);
}

/// The number of the frame at physical address `a`.
pub open spec fn frame_no(a: u64) -> int {
    ((a / 4096) as usize) as int
}

/// Whether entry `k` of table `t` is in use and refers to frame `i`.
pub open spec fn leaf_frees(t: TableFrame, k: int, i: int) -> bool {
    present(t.entries@[k]) && frame_no(target(t.entries@[k])) == i
}

/// Whether one of the first `k` entries of `t` is in use and refers to
/// frame `i`.
pub open spec fn leaves_freed(t: TableFrame, k: int, i: int) -> bool {
    exists|m: int| 0 <= m < k && #[trigger] leaf_frees(t, m, i)
}

/// Whether frame `i` goes with table `t`: the table's own frame or, for a
/// last-level table, a page one of its entries maps.
pub open spec fn frees_frame(t: TableFrame, i: int) -> bool {
    frame_no(t.addr) == i || (t.level == 1 && leaves_freed(t, t.entries@.len() as int, i))
}

/// Whether frame `i` goes with one of the first `j` tables of `ts`.
pub open spec fn released(ts: Seq<TableFrame>, j: int, i: int) -> bool {
    exists|w: int| 0 <= w < j && #[trigger] frees_frame(ts[w], i)
}

/// An address space: the tables under the top table at `cr3`, all of them
/// owned by this address space.
#[derive(Debug)]
pub struct AddressSpace {
    cr3: PhysAddr,
    tables: Vec<TableFrame>,
}

impl AddressSpace {
    /// The physical address of the top table.
    pub closed spec fn root(&self) -> u64 {
        self.cr3.0
    }

    /// The page-table frames.
    pub closed spec fn tables(&self) -> Seq<TableFrame> {
        self.tables@
    }

    /// The tables form a hierarchy under the top table, and every huge
    /// page entry is in use.
    pub open spec fn wf(&self) -> bool {
        tables_wf(self.tables(), self.root()) && huge_present(self.tables())
    }

    /// The frame virtual address `v` is mapped to, if any.
    pub open spec fn translation(&self, v: u64) -> Option<Frame> {
        translate_in(self.tables(), self.root(), v)
    }

    /// Whether frame `i` belongs to the address space: one of its table
    /// frames, or a page one of its last-level tables maps.
    pub open spec fn owns(&self, i: int) -> bool {
        exists|j: int| 0 <= j < self.tables().len() && #[trigger] frees_frame(self.tables()[j], i)
    }

    /// Every table frame is page aligned, addressable by an entry and
    /// allocated in `fa`.
    pub open spec fn backed_by(&self, fa: FrameAllocator) -> bool {
        forall|i: int| 0 <= i < self.tables().len() ==> {
            let a = (#[trigger] self.tables()[i]).addr;
            &&& a % 4096 == 0
            &&& a < 0x10_0000_0000_0000
            &&& (a / 4096) < fa.view().len()
            &&& fa.view()[(a / 4096) as int]
        }
    }

    /// The position of the table at `a`.
    fn find_table(&self, a: u64) -> (r: usize)
        requires
            self.wf(),
            has_table(self.tables(), a),
        ensures
            r == table_at(self.tables(), a),
            r < self.tables().len(),
    {
        let mut i: usize = 0;
        while i < self.tables.len()
            invariant
                self.wf(),
                has_table(self.tables(), a),
                i <= self.tables@.len(),
                forall|j: int| 0 <= j < i ==> self.tables@[j].addr != a,
            decreases self.tables@.len() - i,
        {
            if self.tables[i].addr == a {
                proof { lemma_table_at(self.tables@, a, i as int); }
                return i;
            }
            i = i + 1;
        }
        proof {
            let j = choose|j: int| 0 <= j < self.tables@.len() && #[trigger] self.tables@[j].addr == a;
            assert(self.tables@[j].addr == a);
        }
        0
    }

    /// Put `v` in entry `k` of the table at `a`; nothing else changes.
    fn set_entry(&mut self, a: u64, k: usize, v: u64)
        requires
            old(self).wf(),
            has_table(old(self).tables(), a),
            k < 512,
            link_ok(old(self).tables(), level_of(old(self).tables(), a), v),
            level_of(old(self).tables(), a) == 2 && huge(v) ==> present(v),
            links(level_of(old(self).tables(), a), v) ==> forall|p: int, q: int| 0 <= p < old(self).tables().len() && 0 <= q < 512
                && links(old(self).tables()[p].level, #[trigger] old(self).tables()[p].entries@[q])
                && target(old(self).tables()[p].entries@[q]) == target(v)
                ==> p == table_at(old(self).tables(), a) && q == k,
        ensures
            final(self).wf(),
            final(self).root() == old(self).root(),
            final(self).tables().len() == old(self).tables().len(),
            forall|j: int| 0 <= j < old(self).tables().len() ==> (#[trigger] final(self).tables()[j]).addr == old(self).tables()[j].addr,
            forall|x: u64| #[trigger] has_table(final(self).tables(), x) == has_table(old(self).tables(), x),
            forall|x: u64| has_table(old(self).tables(), x) ==> #[trigger] level_of(final(self).tables(), x) == level_of(old(self).tables(), x),
            forall|x: u64, j: int| has_table(old(self).tables(), x) && 0 <= j < 512 ==>
                #[trigger] entry_of(final(self).tables(), x, j) == (if x == a && j == k { v } else { entry_of(old(self).tables(), x, j) }),
    {
        let i = self.find_table(a);
        let ghost ts = self.tables@;
        let mut t = TableFrame { addr: 0, level: 0, entries: Vec::new() };
        self.tables.set_and_swap(i, &mut t);
        assert(t.entries@.len() == 512);
        t.entries.set(k, v);
        self.tables.set(i, t);
        let ghost ts2 = self.tables@;
        proof {
            assert forall|j: int| 0 <= j < ts.len() implies (#[trigger] ts2[j]).addr == ts[j].addr && ts2[j].level == ts[j].level by {}
            lemma_same_frames(ts, ts2);
            assert forall|x: u64, j: int| has_table(ts, x) && 0 <= j < 512 implies
                #[trigger] entry_of(ts2, x, j) == (if x == a && j == k { v } else { entry_of(ts, x, j) }) by {
                lemma_table_at(ts, x, table_at(ts, x));
                if x != a {
                    assert(table_at(ts, x) != i);
                }
            }
            assert forall|p: int, q: int| 0 <= p < ts2.len() && 0 <= q < 512
                && present(#[trigger] ts2[p].entries@[q])
                && (ts2[p].level >= 3 || (ts2[p].level == 2 && !huge(ts2[p].entries@[q])))
                implies has_table(ts2, target(ts2[p].entries@[q])) && level_of(ts2, target(ts2[p].entries@[q])) == ts2[p].level - 1 by {
                if p == i && q == k {
                    lemma_table_at(ts, a, i as int);
                } else {
                    assert(ts2[p].entries@[q] == ts[p].entries@[q]);
                }
            }
            lemma_table_at(ts, a, i as int);
            assert forall|i1: int, k1: int, p: int, q: int| 0 <= i1 < ts2.len() && 0 <= k1 < 512 && 0 <= p < ts2.len() && 0 <= q < 512
                && links(ts2[i1].level, #[trigger] ts2[i1].entries@[k1]) && links(ts2[p].level, #[trigger] ts2[p].entries@[q])
                && target(ts2[i1].entries@[k1]) == target(ts2[p].entries@[q]) implies i1 == p && k1 == q by {
                if !(i1 == i && k1 == k) {
                    assert(ts2[i1].entries@[k1] == ts[i1].entries@[k1]);
                }
                if !(p == i && q == k) {
                    assert(ts2[p].entries@[q] == ts[p].entries@[q]);
                }
            }
            lemma_table_at(ts, self.cr3.0, table_at(ts, self.cr3.0));
            assert forall|p: int, q: int| 0 <= p < ts2.len() && 0 <= q < ts2[p].entries@.len() && ts2[p].level == 2
                && huge(#[trigger] ts2[p].entries@[q]) implies present(ts2[p].entries@[q]) by {
                if !(p == i && q == k) {
                    assert(ts2[p].entries@[q] == ts[p].entries@[q]);
                }
            }
        }
    }

    /// Add a zeroed table of level `level` at the fresh address `a`.
    fn add_table(&mut self, a: u64, level: u8)
        requires
            old(self).wf(),
            !has_table(old(self).tables(), a),
            1 <= level <= 3,
        ensures
            final(self).wf(),
            final(self).root() == old(self).root(),
            final(self).tables().len() == old(self).tables().len() + 1,
            forall|j: int| 0 <= j < old(self).tables().len() ==> (#[trigger] final(self).tables()[j]).addr == old(self).tables()[j].addr,
            final(self).tables()[old(self).tables().len() as int].addr == a,
            forall|x: u64| #[trigger] has_table(final(self).tables(), x) == (has_table(old(self).tables(), x) || x == a),
            forall|x: u64| has_table(old(self).tables(), x) ==> #[trigger] level_of(final(self).tables(), x) == level_of(old(self).tables(), x),
            level_of(final(self).tables(), a) == level,
            forall|x: u64, j: int| has_table(old(self).tables(), x) && 0 <= j < 512 ==>
                #[trigger] entry_of(final(self).tables(), x, j) == entry_of(old(self).tables(), x, j),
            forall|j: int| 0 <= j < 512 ==> #[trigger] entry_of(final(self).tables(), a, j) == 0,
    {
        let mut entries: Vec<u64> = Vec::new();
        let mut n: usize = 0;
        while n < 512
            invariant
                n <= 512,
                entries@.len() == n,
                forall|j: int| 0 <= j < n ==> entries@[j] == 0,
            decreases 512 - n,
        {
            entries.push(0);
            n = n + 1;
        }
        let ghost ts = self.tables@;
        let t = TableFrame { addr: a, level, entries };
        let ghost tg = t;
        self.tables.push(t);
        proof {
            let ts2 = ts.push(tg);
            assert(self.tables@ == ts2);
            lemma_push_frame(ts, tg);
            assert forall|x: u64, j: int| has_table(ts, x) && 0 <= j < 512 implies
                #[trigger] entry_of(ts2, x, j) == entry_of(ts, x, j) by {
                lemma_table_at(ts, x, table_at(ts, x));
            }
            assert forall|p: int, q: int| 0 <= p < ts2.len() && 0 <= q < 512
                && present(#[trigger] ts2[p].entries@[q])
                && (ts2[p].level >= 3 || (ts2[p].level == 2 && !huge(ts2[p].entries@[q])))
                implies has_table(ts2, target(ts2[p].entries@[q])) && level_of(ts2, target(ts2[p].entries@[q])) == ts2[p].level - 1 by {
                if p < ts.len() {
                    assert(ts2[p] == ts[p]);
                    assert(has_table(ts, target(ts[p].entries@[q])));
                } else {
                    assert(ts2[p].entries@[q] == 0);
                    lemma_unused_entry();
                }
            }
            assert forall|p: int| 0 <= p < ts2.len() implies (#[trigger] ts2[p]).entries@.len() == 512 && 1 <= ts2[p].level <= 4 by {
                if p < ts.len() { assert(ts2[p] == ts[p]); }
            }
            assert forall|i1: int, k1: int, p: int, q: int| 0 <= i1 < ts2.len() && 0 <= k1 < 512 && 0 <= p < ts2.len() && 0 <= q < 512
                && links(ts2[i1].level, #[trigger] ts2[i1].entries@[k1]) && links(ts2[p].level, #[trigger] ts2[p].entries@[q])
                && target(ts2[i1].entries@[k1]) == target(ts2[p].entries@[q]) implies i1 == p && k1 == q by {
                if i1 == ts.len() || p == ts.len() {
                    lemma_unused_entry();
                } else {
                    assert(ts2[i1] == ts[i1] && ts2[p] == ts[p]);
                }
            }
            assert forall|p: int, q: int| 0 <= p < ts2.len() && 0 <= q < ts2[p].entries@.len() && ts2[p].level == 2
                && huge(#[trigger] ts2[p].entries@[q]) implies present(ts2[p].entries@[q]) by {
                if p < ts.len() {
                    assert(ts2[p] == ts[p]);
                } else {
                    assert(ts2[p].entries@[q] == 0);
                    lemma_unused_entry();
                }
            }
        }
    }

    /// The level of the table at `a`.
    fn read_level(&self, a: u64) -> (r: u8)
        requires
            self.wf(),
            has_table(self.tables(), a),
        ensures
            r == level_of(self.tables(), a),
    {
        let i = self.find_table(a);
        self.tables[i].level
    }

    /// The table that entry `k` of the table at `a` refers to; when the
    /// entry is not in use, a new zeroed table is made in a frame taken from
    /// `fa` and entered there, writable and reachable from user mode (the
    /// last-level entry decides the real access rights).
    fn next_table(&mut self, fa: &mut FrameAllocator, a: u64, k: usize) -> (r: Result<u64, MemoryError>)
        requires
            old(self).wf(),
            old(fa).wf(),
            old(self).backed_by(*old(fa)),
            old(fa).view().len() <= MAX_TABLE_FRAMES,
            has_table(old(self).tables(), a),
            k < 512,
            level_of(old(self).tables(), a) >= 2,
            level_of(old(self).tables(), a) == 2 ==> !huge(entry_of(old(self).tables(), a, k as int)),
        ensures
            final(self).wf(),
            final(fa).wf(),
            final(self).backed_by(*final(fa)),
            final(self).root() == old(self).root(),
            final(fa).view().len() == old(fa).view().len(),
            forall|x: u64| has_table(old(self).tables(), x) ==> #[trigger] has_table(final(self).tables(), x)
                && level_of(final(self).tables(), x) == level_of(old(self).tables(), x),
            forall|x: u64, j: int| has_table(old(self).tables(), x) && 0 <= j < 512 && !(x == a && j == k) ==>
                #[trigger] entry_of(final(self).tables(), x, j) == entry_of(old(self).tables(), x, j),
            present(entry_of(old(self).tables(), a, k as int)) ==> r == Ok::<u64, MemoryError>(target(entry_of(old(self).tables(), a, k as int)))
                && *final(self) == *old(self) && *final(fa) == *old(fa),
            r is Err ==> r == Err::<u64, MemoryError>(MemoryError::OutOfMemory) && !present(entry_of(old(self).tables(), a, k as int))
                && *final(self) == *old(self) && *final(fa) == *old(fa)
                && (old(fa).free_count() == 0 || forall|m: int| 0 <= m < old(fa).view().len() ==> old(fa).view()[m])
                && count_free(old(fa).view()) == 0,
            !present(entry_of(old(self).tables(), a, k as int)) && r is Ok
                ==> count_free(final(fa).view()) + 1 == count_free(old(fa).view()),
            r matches Ok(t) ==> {
                &&& present(entry_of(final(self).tables(), a, k as int))
                &&& target(entry_of(final(self).tables(), a, k as int)) == t
                &&& has_table(final(self).tables(), t)
                &&& level_of(final(self).tables(), t) == level_of(old(self).tables(), a) - 1
            },
            !present(entry_of(old(self).tables(), a, k as int)) ==> (r matches Ok(t) ==> {
                &&& !has_table(old(self).tables(), t)
                &&& forall|x: u64| #[trigger] has_table(final(self).tables(), x) == (has_table(old(self).tables(), x) || x == t)
                &&& forall|j: int| 0 <= j < 512 ==> #[trigger] entry_of(final(self).tables(), t, j) == 0
                &&& !huge(entry_of(final(self).tables(), a, k as int))
                &&& final(fa).free_count() == old(fa).free_count() - 1
            }),
            present(entry_of(old(self).tables(), a, k as int)) || r is Err ==>
                forall|x: u64| #[trigger] has_table(final(self).tables(), x) == has_table(old(self).tables(), x),
            forall|w: u64| #[trigger] final(self).translation(w) == old(self).translation(w),
    {
        let e = self.read_entry(a, k);
        if e & PTE_PRESENT != 0 {
            return Ok(e & PTE_ADDR_MASK);
        }
        let level = self.read_level(a);
        let f = match fa.allocate() {
            Some(f) => f,
            None => return Err(MemoryError::OutOfMemory),
        };
        let next: u64 = (f.index as u64) * 4096;
        proof {
            let idx = f.index as u64;
            assert(next % 4096 == 0 && next / 4096 == idx && next < 0x10_0000_0000_0000) by (nonlinear_arith)
                requires next == idx * 4096, idx < 0x100_0000_0000;
            if has_table(self.tables(), next) {
                let i = choose|i: int| 0 <= i < self.tables().len() && #[trigger] self.tables()[i].addr == next;
                assert(old(fa).view()[(self.tables()[i].addr / 4096) as int]);
            }
        }
        self.add_table(next, level - 1);
        let v = next | PTE_PRESENT | PTE_WRITABLE | PTE_USER;
        proof {
            assert(v & 1 != 0 && v & 0x80 == 0 && v & 0x000F_FFFF_FFFF_F000 == next) by (bit_vector)
                requires v == next | 1 | 2 | 4, next % 4096 == 0, next < 0x10_0000_0000_0000;
        }
        let ghost mid = self.tables();
        proof {
            let ts0 = old(self).tables();
            assert forall|p: int, q: int| 0 <= p < mid.len() && 0 <= q < 512
                && links(mid[p].level, #[trigger] mid[p].entries@[q]) && target(mid[p].entries@[q]) == target(v)
                implies p == table_at(mid, a) && q == k by {
                if p < ts0.len() {
                    assert(mid[p].addr == ts0[p].addr);
                    lemma_table_at(ts0, mid[p].addr, p);
                    lemma_table_at(mid, mid[p].addr, p);
                    assert(mid[p].entries@[q] == entry_of(mid, mid[p].addr, q));
                    assert(entry_of(mid, mid[p].addr, q) == entry_of(ts0, ts0[p].addr, q));
                    assert(level_of(mid, mid[p].addr) == level_of(ts0, ts0[p].addr));
                    assert(mid[p].level == ts0[p].level);
                    assert(links(ts0[p].level, ts0[p].entries@[q]));
                    assert(has_table(ts0, target(ts0[p].entries@[q])));
                } else {
                    lemma_table_at(mid, next, p);
                    assert(mid[p].entries@[q] == entry_of(mid, next, q));
                    lemma_unused_entry();
                }
            }
        }
        self.set_entry(a, k, v);
        proof {
            assert forall|i: int| 0 <= i < self.tables().len() implies {
                let b = (#[trigger] self.tables()[i]).addr;
                &&& b % 4096 == 0
                &&& b < 0x10_0000_0000_0000
                &&& (b / 4096) < fa.view().len()
                &&& fa.view()[(b / 4096) as int]
            } by {
                if i < old(self).tables().len() {
                    assert(self.tables()[i].addr == old(self).tables()[i].addr);
                    assert(old(self).backed_by(*old(fa)));
                    let b = old(self).tables()[i].addr;
                    assert(old(fa).view()[(b / 4096) as int]);
                } else {
                    assert(self.tables()[i].addr == mid[i].addr);
                }
            }
            assert forall|w: u64| #[trigger] self.translation(w) == old(self).translation(w) by {
                lemma_fresh_link(old(self).tables(), self.tables(), self.root(), w, a, k as int, next);
            }
        }
        Ok(next)
    }

    /// Entry `k` of the table at `a`.
    fn read_entry(&self, a: u64, k: usize) -> (r: u64)
        requires
            self.wf(),
            has_table(self.tables(), a),
            k < 512,
        ensures
            r == entry_of(self.tables(), a, k as int),
    {
        let i = self.find_table(a);
        self.tables[i].entries[k]
    }

    /// The frame the page is mapped to, if any; a page inside a huge
    /// mapping gives the frame of its own address.
    pub fn translate(&self, page: Page) -> (r: Option<Frame>)
        requires
            self.wf(),
            page.number * 4096 <= u64::MAX,
        ensures
            r == self.translation((page.number * 4096) as u64),
    {
        let vaddr = page.start_address().as_u64();
        proof { lemma_indices(vaddr); }
        let e4 = self.read_entry(self.cr3.0, ((vaddr >> 39) & 0x1FF) as usize);
        if e4 & PTE_PRESENT == 0 {
            return None;
        }
        assert(has_table(self.tables(), target(e4)));
        let e3 = self.read_entry(e4 & PTE_ADDR_MASK, ((vaddr >> 30) & 0x1FF) as usize);
        if e3 & PTE_PRESENT == 0 {
            return None;
        }
        let e2 = self.read_entry(e3 & PTE_ADDR_MASK, ((vaddr >> 21) & 0x1FF) as usize);
        if e2 & PTE_PRESENT == 0 {
            return None;
        }
        if e2 & PTE_HUGE != 0 {
            let base = e2 & PTE_ADDR_MASK;
            assert(base <= 0x000F_FFFF_FFFF_F000 && vaddr & 0x1F_FFFF <= 0x1F_FFFF) by (bit_vector)
                requires base == e2 & 0x000F_FFFF_FFFF_F000u64;
            return Some(Frame::from_address(PhysAddr::new_unchecked(base + (vaddr & 0x1F_FFFF))));
        }
        let e1 = self.read_entry(e2 & PTE_ADDR_MASK, ((vaddr >> 12) & 0x1FF) as usize);
        if e1 & PTE_PRESENT == 0 {
            return None;
        }
        Some(Frame::from_address(PhysAddr::new_unchecked(e1 & PTE_ADDR_MASK)))
    }

    /// Map the 2MB page at `vaddr` to the one at `paddr` in a third-level
    /// entry, making the tables it needs from frames of `fa`.
    fn map_huge_2mb(&mut self, fa: &mut FrameAllocator, vaddr: u64, paddr: u64, flags: u64) -> (r: Result<(), MemoryError>)
        requires
            flags & PTE_PRESENT != 0,
            old(self).wf(),
            old(fa).wf(),
            old(self).backed_by(*old(fa)),
            old(fa).view().len() <= MAX_TABLE_FRAMES,
        ensures
            final(self).wf(),
            final(fa).wf(),
            final(self).backed_by(*final(fa)),
            final(self).root() == old(self).root(),
            final(fa).view().len() == old(fa).view().len(),
            r is Err ==> r == Err::<(), MemoryError>(MemoryError::OutOfMemory),
            r is Ok ==> {
                let ts = final(self).tables();
                let e4 = entry_of(ts, final(self).root(), l4_index(vaddr));
                let e3 = entry_of(ts, target(e4), l3_index(vaddr));
                &&& present(e4)
                &&& present(e3)
                &&& entry_of(ts, target(e3), l2_index(vaddr)) == huge_entry(paddr, flags)
                &&& forall|x: u64, j: int| has_table(old(self).tables(), x) && 0 <= j < 512
                    && present(entry_of(old(self).tables(), x, j)) && !(x == target(e3) && j == l2_index(vaddr))
                    ==> #[trigger] entry_of(ts, x, j) == entry_of(old(self).tables(), x, j)
            },
            forall|x: u64| has_table(old(self).tables(), x) ==> #[trigger] has_table(final(self).tables(), x)
                && level_of(final(self).tables(), x) == level_of(old(self).tables(), x),
            r is Err ==> count_free(old(fa).view()) < 2,
            count_free(final(fa).view()) <= count_free(old(fa).view()),
            count_free(final(fa).view()) + 2 >= count_free(old(fa).view()),
            ({
                let e4 = entry_of(old(self).tables(), old(self).root(), l4_index(vaddr));
                present(e4) && present(entry_of(old(self).tables(), target(e4), l3_index(vaddr)))
                    ==> r is Ok && *final(fa) == *old(fa)
            }),
    {
        proof { lemma_indices(vaddr); }
        let root = self.cr3.0;
        let ghost t0 = self.tables();
        let pdpt = self.next_table(fa, root, ((vaddr >> 39) & 0x1FF) as usize)?;
        let ghost t1 = self.tables();
        let ghost e4 = entry_of(t1, root, l4_index(vaddr));
        let pd = self.next_table(fa, pdpt, ((vaddr >> 30) & 0x1FF) as usize)?;
        let ghost t2 = self.tables();
        let ghost e3 = entry_of(t2, pdpt, l3_index(vaddr));
        proof {
            assert(root != pdpt);
            assert(entry_of(t2, root, l4_index(vaddr)) == e4);
        }
        let i2 = ((vaddr >> 21) & 0x1FF) as usize;
        let v = (paddr & !0x1F_FFFF) | flags | PTE_HUGE;
        proof {
            assert(v & 0x80 != 0 && v & 1 != 0) by (bit_vector)
                requires v == (paddr & !0x1F_FFFFu64) | flags | 0x80, flags & 1 != 0;
        }
        self.set_entry(pd, i2, v);
        proof {
            let t3 = self.tables();
            assert(pd != root && pd != pdpt);
            assert(entry_of(t3, root, l4_index(vaddr)) == e4);
            assert(entry_of(t3, pdpt, l3_index(vaddr)) == e3);
            assert forall|x: u64, j: int| has_table(t0, x) && 0 <= j < 512
                && present(entry_of(t0, x, j)) && !(x == pd && j == l2_index(vaddr))
                implies #[trigger] entry_of(t3, x, j) == entry_of(t0, x, j) by {
                assert(entry_of(t1, x, j) == entry_of(t0, x, j));
                assert(entry_of(t2, x, j) == entry_of(t1, x, j));
            }
        }
        Ok(())
    }

    /// Identity-map the first gigabyte, supervisor only, with 2MB pages.
    fn map_kernel_identity(&mut self, fa: &mut FrameAllocator) -> (r: Result<(), MemoryError>)
        requires
            old(self).wf(),
            old(fa).wf(),
            old(self).backed_by(*old(fa)),
            old(fa).view().len() <= MAX_TABLE_FRAMES,
        ensures
            final(self).wf(),
            final(fa).wf(),
            final(self).backed_by(*final(fa)),
            final(self).root() == old(self).root(),
            final(fa).view().len() == old(fa).view().len(),
            r is Err ==> r == Err::<(), MemoryError>(MemoryError::OutOfMemory),
            r is Ok ==> forall|v: u64| v < KERNEL_IDENTITY_SIZE ==>
                #[trigger] final(self).translation(v) == Some(Frame { index: (v / 4096) as usize }),
            r is Err ==> count_free(old(fa).view()) < 2,
            count_free(final(fa).view()) <= count_free(old(fa).view()),
            count_free(final(fa).view()) + 2 >= count_free(old(fa).view()),
    {
        let mut phys: u64 = 0;
        while phys < KERNEL_IDENTITY_SIZE
            invariant
                self.wf(),
                fa.wf(),
                self.backed_by(*fa),
                fa.view().len() == old(fa).view().len(),
                phys == 0 ==> *fa == *old(fa),
                count_free(fa.view()) <= count_free(old(fa).view()),
                count_free(fa.view()) + 2 >= count_free(old(fa).view()),
                phys > 0 ==> present(entry_of(self.tables(), self.root(), 0))
                    && present(entry_of(self.tables(), target(entry_of(self.tables(), self.root(), 0)), 0)),
                old(fa).view().len() <= MAX_TABLE_FRAMES,
                self.root() == old(self).root(),
                phys <= KERNEL_IDENTITY_SIZE,
                phys % HUGE_PAGE_SIZE == 0,
                forall|v: u64| v < phys ==> #[trigger] self.translation(v) == Some(Frame { index: (v / 4096) as usize }),
            decreases KERNEL_IDENTITY_SIZE - phys,
        {
            let ghost t0 = self.tables();
            let ghost s0 = *self;
            proof {
                lemma_low_indices(phys);
                assert((PTE_PRESENT | PTE_WRITABLE) & PTE_PRESENT != 0 && (PTE_PRESENT | PTE_WRITABLE) & PTE_ADDR_MASK == 0) by (bit_vector);
            }
            self.map_huge_2mb(fa, phys, phys, PTE_PRESENT | PTE_WRITABLE)?;
            proof {
                let ts = self.tables();
                let root = self.root();
                lemma_low_indices(phys);
                lemma_huge_entry(phys, PTE_PRESENT | PTE_WRITABLE);
                assert forall|v: u64| v < phys + HUGE_PAGE_SIZE implies #[trigger] translate_in(ts, root, v)
                    == Some(Frame { index: (v / 4096) as usize }) by {
                    lemma_low_indices(v);
                    if v < phys {
                        assert(s0.translation(v) == Some(Frame { index: (v / 4096) as usize }));
                        let e4 = entry_of(t0, root, 0);
                        let e3 = entry_of(t0, target(e4), 0);
                        lemma_table_at(t0, root, table_at(t0, root));
                        assert(entry_of(ts, root, 0) == e4);
                        assert(entry_of(ts, target(e4), 0) == e3);
                        assert(entry_of(ts, target(e3), l2_index(v)) == entry_of(t0, target(e3), l2_index(v)));
                        let e2 = entry_of(t0, target(e3), l2_index(v));
                        if !huge(e2) {
                            lemma_indices(v);
                            let e1 = entry_of(t0, target(e2), l1_index(v));
                            assert(present(e1));
                            assert(has_table(t0, target(e2)) && level_of(t0, target(e2)) == 1);
                            let n4 = entry_of(ts, root, l4_index(phys));
                            let n3 = entry_of(ts, target(n4), l3_index(phys));
                            assert(level_of(ts, target(n4)) == 3);
                            assert(level_of(ts, target(n3)) == 2);
                            assert(level_of(ts, target(e2)) == 1);
                            assert(entry_of(ts, target(e2), l1_index(v)) == e1);
                        }
                        assert(translate_in(ts, root, v) == translate_in(t0, root, v));
                    } else {
                        assert(v / 0x20_0000 == phys / 0x20_0000 && phys + v % 0x20_0000 == v) by (nonlinear_arith)
                            requires phys <= v < phys + 0x20_0000, phys % 0x20_0000 == 0;
                        let e4 = entry_of(ts, root, l4_index(phys));
                        let e3 = entry_of(ts, target(e4), l3_index(phys));
                        assert(present(e4) && present(e3));
                        assert(entry_of(ts, target(e3), l2_index(v)) == huge_entry(phys, PTE_PRESENT | PTE_WRITABLE));
                        assert(translate_in(ts, root, v) == Some(Frame { index: ((phys + (v & 0x1F_FFFF)) / 4096) as usize }));
                    }
                }
            }
            phys = phys + HUGE_PAGE_SIZE;
        }
        Ok(())
    }

    /// A fresh address space: a zeroed top table in a frame of `fa`, with
    /// the first gigabyte identity-mapped for the kernel with 2MB pages so
    /// that the kernel keeps running when it is made current.
    pub fn new(fa: &mut FrameAllocator) -> (r: Result<Self, MemoryError>)
        requires
            old(fa).wf(),
            old(fa).view().len() <= MAX_TABLE_FRAMES,
        ensures
            final(fa).wf(),
            final(fa).view().len() == old(fa).view().len(),
            r is Err ==> r == Err::<Self, MemoryError>(MemoryError::OutOfMemory),
            r is Err ==> count_free(old(fa).view()) < 3,
            count_free(final(fa).view()) <= count_free(old(fa).view()),
            count_free(final(fa).view()) + 3 >= count_free(old(fa).view()),
            r matches Ok(space) ==> {
                &&& space.wf()
                &&& space.backed_by(*final(fa))
                &&& space.root() / 4096 < old(fa).view().len()
                &&& !old(fa).view()[(space.root() / 4096) as int]
                &&& forall|v: u64| v < KERNEL_IDENTITY_SIZE ==>
                    #[trigger] space.translation(v) == Some(Frame { index: (v / 4096) as usize })
            },
    {
        let f = match fa.allocate() {
            Some(f) => f,
            None => return Err(MemoryError::OutOfMemory),
        };
        let root: u64 = (f.index as u64) * 4096;
        proof {
            let idx = f.index as u64;
            assert(root % 4096 == 0 && root / 4096 == idx && root < 0x10_0000_0000_0000) by (nonlinear_arith)
                requires root == idx * 4096, idx < 0x100_0000_0000;
        }
        let mut tables: Vec<TableFrame> = Vec::new();
        tables.push(TableFrame { addr: root, level: 4, entries: zero_entries() });
        let mut space = AddressSpace { cr3: PhysAddr::new_unchecked(root), tables };
        proof {
            let ts = space.tables@;
            lemma_table_at(ts, root, 0);
            assert forall|i: int, k: int| 0 <= i < ts.len() && 0 <= k < 512 && present(#[trigger] ts[i].entries@[k])
                && (ts[i].level >= 3 || (ts[i].level == 2 && !huge(ts[i].entries@[k])))
                implies has_table(ts, target(ts[i].entries@[k])) && level_of(ts, target(ts[i].entries@[k])) == ts[i].level - 1 by {
                assert(ts[i].entries@[k] == 0);
                lemma_unused_entry();
            }
        }
        space.map_kernel_identity(fa)?;
        Ok(space)
    }

    /// A fresh address space for the kernel (the same layout as any other).
    pub fn kernel_space(fa: &mut FrameAllocator) -> (r: Result<Self, MemoryError>)
        requires
            old(fa).wf(),
            old(fa).view().len() <= MAX_TABLE_FRAMES,
        ensures
            final(fa).wf(),
            final(fa).view().len() == old(fa).view().len(),
            r is Err ==> r == Err::<Self, MemoryError>(MemoryError::OutOfMemory),
            r is Err ==> count_free(old(fa).view()) < 3,
            count_free(final(fa).view()) <= count_free(old(fa).view()),
            count_free(final(fa).view()) + 3 >= count_free(old(fa).view()),
            r matches Ok(space) ==> {
                &&& space.wf()
                &&& space.backed_by(*final(fa))
                &&& space.root() / 4096 < old(fa).view().len()
                &&& !old(fa).view()[(space.root() / 4096) as int]
                &&& forall|v: u64| v < KERNEL_IDENTITY_SIZE ==>
                    #[trigger] space.translation(v) == Some(Frame { index: (v / 4096) as usize })
            },
    {
        Self::new(fa)
    }

    /// A fresh address space for a user process (the same layout as any
    /// other).
    pub fn user_space(fa: &mut FrameAllocator) -> (r: Result<Self, MemoryError>)
        requires
            old(fa).wf(),
            old(fa).view().len() <= MAX_TABLE_FRAMES,
        ensures
            final(fa).wf(),
            final(fa).view().len() == old(fa).view().len(),
            r is Err ==> r == Err::<Self, MemoryError>(MemoryError::OutOfMemory),
            r is Err ==> count_free(old(fa).view()) < 3,
            count_free(final(fa).view()) <= count_free(old(fa).view()),
            count_free(final(fa).view()) + 3 >= count_free(old(fa).view()),
            r matches Ok(space) ==> {
                &&& space.wf()
                &&& space.backed_by(*final(fa))
                &&& space.root() / 4096 < old(fa).view().len()
                &&& !old(fa).view()[(space.root() / 4096) as int]
                &&& forall|v: u64| v < KERNEL_IDENTITY_SIZE ==>
                    #[trigger] space.translation(v) == Some(Frame { index: (v / 4096) as usize })
            },
    {
        Self::new(fa)
    }

    /// Map `page` to `frame` with `flags` (which should include PRESENT),
    /// making the intermediate tables it lacks from frames of `fa`. A page
    /// already mapped, by its own entry or by a huge page, is refused; when
    /// a frame runs out, the tables made so far stay.
    #[verifier::spinoff_prover]
    #[verifier::rlimit(40)]
    pub fn map_page(&mut self, fa: &mut FrameAllocator, page: Page, frame: Frame, flags: PageFlags) -> (r: Result<(), MemoryError>)
        requires
            old(self).wf(),
            old(fa).wf(),
            old(self).backed_by(*old(fa)),
            old(fa).view().len() <= MAX_TABLE_FRAMES,
            page.number * 4096 <= u64::MAX,
            frame.index * 4096 <= u64::MAX,
        ensures
            map_outcome(*old(self), *final(self), *old(fa), *final(fa), page, frame, flags, r),
    {
        if self.translate(page).is_some() {
            return Err(MemoryError::AlreadyMapped);
        }
        let vaddr = page.start_address().as_u64();
        let paddr = frame.start_address().as_u64();
        proof { lemma_indices(vaddr); }
        let i4 = ((vaddr >> 39) & 0x1FF) as usize;
        let i3 = ((vaddr >> 30) & 0x1FF) as usize;
        let i2 = ((vaddr >> 21) & 0x1FF) as usize;
        let i1 = ((vaddr >> 12) & 0x1FF) as usize;
        let root = self.cr3.0;
        let ghost s0 = *self;
        let pdpt = self.next_table(fa, root, i4)?;
        let ghost s1 = *self;
        let ghost t1 = self.tables();
        let ghost e4 = entry_of(t1, root, i4 as int);
        let pd = self.next_table(fa, pdpt, i3)?;
        let ghost s2 = *self;
        let ghost t2 = self.tables();
        let ghost e3 = entry_of(t2, pdpt, i3 as int);
        proof {
            assert(root != pdpt);
            assert(entry_of(t2, root, i4 as int) == e4);
        }
        let e2 = self.read_entry(pd, i2);
        if e2 & PTE_HUGE != 0 {
            proof {
                let j = table_at(t2, pd);
                assert(huge(t2[j].entries@[i2 as int]));
                assert(present(e2));
                assert(s2.translation(vaddr) is Some);
                assert(s1.translation(vaddr) == s0.translation(vaddr));
                assert(s2.translation(vaddr) == s1.translation(vaddr));
            }
            return Err(MemoryError::AlreadyMapped);
        }
        let pt = self.next_table(fa, pd, i2)?;
        let ghost s3 = *self;
        let ghost t3 = self.tables();
        proof {
            assert(pd != root && pd != pdpt);
            assert(entry_of(t3, root, i4 as int) == e4);
            assert(entry_of(t3, pdpt, i3 as int) == e3);
        }
        let e1 = self.read_entry(pt, i1);
        if e1 & PTE_PRESENT != 0 {
            proof {
                assert(s3.translation(vaddr) is Some);
                assert(s1.translation(vaddr) == s0.translation(vaddr));
                assert(s2.translation(vaddr) == s1.translation(vaddr));
                assert(s3.translation(vaddr) == s2.translation(vaddr));
            }
            return Err(MemoryError::AlreadyMapped);
        }
        let ghost e2n = entry_of(t3, pd, i2 as int);
        proof {
            assert(pt != root && pt != pdpt && pt != pd);
        }
        self.set_entry(pt, i1, (paddr & PTE_ADDR_MASK) | flags.0);
        proof {
            let t4 = self.tables();
            assert(entry_of(t4, root, i4 as int) == e4);
            assert(entry_of(t4, pdpt, i3 as int) == e3);
            assert(entry_of(t4, pd, i2 as int) == e2n);
            assert(entry_of(t4, pt, i1 as int) == leaf_entry(frame, flags));
            assert(!huge(e2n));
            assert(!huge_mapped(t4, root, vaddr));
            assert(reads(t3, root, vaddr, pt, i1 as int));
            assert forall|w: u64| !same_path(vaddr, w) implies #[trigger] self.translation(w) == s0.translation(w) by {
                if reads(t3, root, w, pt, i1 as int) {
                    lemma_leaf_readers(t3, root, vaddr, w, pt, i1 as int);
                } else {
                    lemma_unread_entry(t3, t4, root, w, pt, i1 as int);
                }
                assert(s1.translation(w) == s0.translation(w));
                assert(s2.translation(w) == s1.translation(w));
                assert(s3.translation(w) == s2.translation(w));
            }
        }
        Ok(())
    }

    /// Remove the mapping of `page` and return the frame it was mapped to.
    /// A page that is not mapped by an entry of its own (none, or a huge
    /// page covering it) is refused as `AddressNotMapped`. The caller flushes
    /// the page from the TLB.
    pub fn unmap_page(&mut self, page: Page) -> (r: Result<Frame, MemoryError>)
        requires
            old(self).wf(),
            page.number * 4096 <= u64::MAX,
        ensures
            unmap_outcome(*old(self), *final(self), page, r),
    {
        let vaddr = page.start_address().as_u64();
        proof { lemma_indices(vaddr); }
        let root = self.cr3.0;
        let e4 = self.read_entry(root, ((vaddr >> 39) & 0x1FF) as usize);
        if e4 & PTE_PRESENT == 0 {
            return Err(MemoryError::AddressNotMapped);
        }
        let pdpt = e4 & PTE_ADDR_MASK;
        let e3 = self.read_entry(pdpt, ((vaddr >> 30) & 0x1FF) as usize);
        if e3 & PTE_PRESENT == 0 {
            return Err(MemoryError::AddressNotMapped);
        }
        let pd = e3 & PTE_ADDR_MASK;
        let e2 = self.read_entry(pd, ((vaddr >> 21) & 0x1FF) as usize);
        if e2 & PTE_PRESENT == 0 || e2 & PTE_HUGE != 0 {
            return Err(MemoryError::AddressNotMapped);
        }
        let pt = e2 & PTE_ADDR_MASK;
        let i1 = ((vaddr >> 12) & 0x1FF) as usize;
        let e1 = self.read_entry(pt, i1);
        if e1 & PTE_PRESENT == 0 {
            return Err(MemoryError::AddressNotMapped);
        }
        let frame = Frame::from_address(PhysAddr::new_unchecked(e1 & PTE_ADDR_MASK));
        proof {
            assert(pt != root && pt != pdpt && pt != pd);
            lemma_unused_entry();
        }
        self.set_entry(pt, i1, 0);
        proof {
            let t = self.tables();
            assert(entry_of(t, root, l4_index(vaddr)) == e4);
            assert(entry_of(t, pdpt, l3_index(vaddr)) == e3);
            assert(entry_of(t, pd, l2_index(vaddr)) == e2);
            assert(entry_of(t, pt, l1_index(vaddr)) == 0);
            let t0 = old(self).tables();
            assert(reads(t0, root, vaddr, pt, i1 as int));
            assert forall|w: u64| !same_path(vaddr, w) implies #[trigger] translate_in(t, root, w) == translate_in(t0, root, w) by {
                if reads(t0, root, w, pt, i1 as int) {
                    lemma_leaf_readers(t0, root, vaddr, w, pt, i1 as int);
                } else {
                    lemma_unread_entry(t0, t, root, w, pt, i1 as int);
                }
            }
        }
        Ok(frame)
    }

    /// The physical address of the top table (what CR3 is loaded with).
    pub fn cr3(&self) -> (r: PhysAddr)
        ensures
            r.0 == self.root(),
    {
        self.cr3
    }

    /// Give the frames the address space owns back to `fa`: the pages its
    /// last-level tables map and all its table frames. The 2MB pages of
    /// the kernel's identity map alias physical memory rather than frames
    /// of the allocator and are not freed, and a frame already free stays
    /// free. Exactly the owned frames that were allocated become free, and
    /// the free counter grows by their number.
    pub fn release(self, fa: &mut FrameAllocator)
        requires
            old(fa).wf(),
        ensures
            final(fa).wf(),
            final(fa).view().len() == old(fa).view().len(),
            forall|i: int| 0 <= i < old(fa).view().len()
                ==> #[trigger] final(fa).view()[i] == (old(fa).view()[i] && !self.owns(i)),
            final(fa).free_count() + count_free(old(fa).view()) == old(fa).free_count() + count_free(final(fa).view()),
    {
        let ghost fa0 = *fa;
        let ghost ts = self.tables@;
        let mut j: usize = 0;
        while j < self.tables.len()
            invariant
                fa.wf(),
                fa0.wf(),
                fa.view().len() == fa0.view().len(),
                fa.free_count() + count_free(fa0.view()) == fa0.free_count() + count_free(fa.view()),
                ts == self.tables@,
                j <= ts.len(),
                forall|i: int| 0 <= i < fa.view().len() && #[trigger] fa.view()[i] ==> fa0.view()[i],
                forall|i: int| 0 <= i < fa0.view().len()
                    ==> #[trigger] fa.view()[i] == (fa0.view()[i] && !released(ts, j as int, i)),
            decreases ts.len() - j,
        {
            let ghost before = *fa;
            if self.tables[j].level == 1 {
                let mut k: usize = 0;
                while k < self.tables[j].entries.len()
                    invariant
                        fa.wf(),
                        fa0.wf(),
                        fa.view().len() == fa0.view().len(),
                        fa.free_count() + count_free(fa0.view()) == fa0.free_count() + count_free(fa.view()),
                                ts == self.tables@,
                        j < ts.len(),
                        ts[j as int].level == 1,
                        k <= ts[j as int].entries@.len(),
                        forall|i: int| 0 <= i < fa.view().len() && #[trigger] fa.view()[i] ==> fa0.view()[i],
                        forall|i: int| 0 <= i < fa0.view().len() ==> #[trigger] fa.view()[i]
                            == (fa0.view()[i] && !(released(ts, j as int, i) || leaves_freed(ts[j as int], k as int, i))),
                    decreases ts[j as int].entries@.len() - k,
                {
                    let e = self.tables[j].entries[k];
                    if e & PTE_PRESENT != 0 {
                        let f = Frame { index: ((e & PTE_ADDR_MASK) / 4096) as usize };
                        Self::free_one(fa, f, Ghost(fa0));
                        proof {
                            assert(leaf_frees(ts[j as int], k as int, f.index as int));
                        }
                    }
                    proof {
                        assert forall|i: int| 0 <= i < fa0.view().len() implies #[trigger] fa.view()[i]
                            == (fa0.view()[i] && !(released(ts, j as int, i) || leaves_freed(ts[j as int], k + 1, i))) by {
                            if leaves_freed(ts[j as int], k + 1, i) && !leaves_freed(ts[j as int], k as int, i) {
                                assert(leaf_frees(ts[j as int], k as int, i));
                            }
                        }
                    }
                    k = k + 1;
                }
            }
            let a = self.tables[j].addr;
            Self::free_one(fa, Frame { index: (a / 4096) as usize }, Ghost(fa0));
            proof {
                assert forall|i: int| 0 <= i < fa0.view().len() implies #[trigger] fa.view()[i]
                    == (fa0.view()[i] && !released(ts, j + 1, i)) by {
                    if frees_frame(ts[j as int], i) {
                        assert(released(ts, j + 1, i));
                    }
                    if released(ts, j + 1, i) && !released(ts, j as int, i) {
                        let w = choose|w: int| 0 <= w < j + 1 && #[trigger] frees_frame(ts[w], i);
                        assert(w == j);
                    }
                    if released(ts, j as int, i) {
                        let w = choose|w: int| 0 <= w < j && #[trigger] frees_frame(ts[w], i);
                        assert(frees_frame(ts[w], i));
                    }
                }
            }
            j = j + 1;
        }
        proof {
            assert forall|i: int| 0 <= i < fa0.view().len() implies #[trigger] fa.view()[i]
                == (fa0.view()[i] && !self.owns(i)) by {
                if self.owns(i) {
                    let w = choose|w: int| 0 <= w < self.tables().len() && #[trigger] frees_frame(self.tables()[w], i);
                    assert(frees_frame(ts[w], i));
                }
                if released(ts, ts.len() as int, i) {
                    let w = choose|w: int| 0 <= w < ts.len() && #[trigger] frees_frame(ts[w], i);
                    assert(frees_frame(self.tables()[w], i));
                }
            }
        }
    }

    /// Free `f` in `fa` unless the counter is at its largest value.
    fn free_one(fa: &mut FrameAllocator, f: Frame, Ghost(fa0): Ghost<FrameAllocator>)
        requires
            old(fa).wf(),
            fa0.wf(),
            old(fa).view().len() == fa0.view().len(),
            old(fa).free_count() + count_free(fa0.view()) == fa0.free_count() + count_free(old(fa).view()),
            forall|i: int| 0 <= i < old(fa).view().len() && #[trigger] old(fa).view()[i] ==> fa0.view()[i],
        ensures
            final(fa).wf(),
            final(fa).view().len() == fa0.view().len(),
            final(fa).free_count() + count_free(fa0.view()) == fa0.free_count() + count_free(final(fa).view()),
            forall|i: int| 0 <= i < final(fa).view().len() && #[trigger] final(fa).view()[i] ==> fa0.view()[i],
            forall|i: int| 0 <= i < fa0.view().len()
                ==> #[trigger] final(fa).view()[i] == (old(fa).view()[i] && i != f.index),
    {
        proof {
            lemma_count_free_bound(fa0.view());
            lemma_count_free_bound(fa.view());
        }
        let ghost v0 = fa.view();
        fa.deallocate(f);
        proof {
            if f.index < v0.len() && v0[f.index as int] {
                lemma_count_free_update(v0, f.index as int, false);
            }
        }
    }
}

/// A page mapped to a frame with flags that hold PRESENT and no address
/// bits translates to that frame.
pub proof fn law_map_then_translate(s0: AddressSpace, s1: AddressSpace, fa0: FrameAllocator, fa1: FrameAllocator,
    page: Page, frame: Frame, flags: PageFlags)
    requires
        map_outcome(s0, s1, fa0, fa1, page, frame, flags, Ok(())),
        frame.index < MAX_TABLE_FRAMES,
        flags.0 & PTE_PRESENT != 0,
        flags.0 & PTE_ADDR_MASK == 0,
    ensures
        s1.translation((page.number * 4096) as u64) == Some(frame),
{
    let a = (frame.index * 4096) as u64;
    assert(a % 4096 == 0 && a < 0x10_0000_0000_0000 && a / 4096 == frame.index) by (nonlinear_arith)
        requires a == frame.index * 4096, frame.index < 0x100_0000_0000;
    let e = leaf_entry(frame, flags);
    let f = flags.0;
    assert(e & 1 != 0 && e & 0x000F_FFFF_FFFF_F000 == a) by (bit_vector)
        requires
            e == (a & 0x000F_FFFF_FFFF_F000u64) | f,
            a % 4096 == 0,
            a < 0x10_0000_0000_0000,
            f & 1 != 0,
            f & 0x000F_FFFF_FFFF_F000 == 0;
}

/// Unmapping a page just mapped gives back its frame and leaves the page
/// unmapped; unmapping it again is refused as not mapped and changes
/// nothing; pages on other paths translate as before the mapping.
pub proof fn law_map_then_unmap(s0: AddressSpace, s1: AddressSpace, fa0: FrameAllocator, fa1: FrameAllocator,
    page: Page, frame: Frame, flags: PageFlags, s2: AddressSpace, r: Result<Frame, MemoryError>,
    s3: AddressSpace, r2: Result<Frame, MemoryError>)
    requires
        map_outcome(s0, s1, fa0, fa1, page, frame, flags, Ok(())),
        unmap_outcome(s1, s2, page, r),
        unmap_outcome(s2, s3, page, r2),
        frame.index < MAX_TABLE_FRAMES,
        flags.0 & PTE_PRESENT != 0,
        flags.0 & PTE_ADDR_MASK == 0,
    ensures
        r == Ok::<Frame, MemoryError>(frame),
        s2.translation((page.number * 4096) as u64) is None,
        r2 == Err::<Frame, MemoryError>(MemoryError::AddressNotMapped),
        s3 == s2,
        forall|w: u64| !same_path((page.number * 4096) as u64, w) ==> #[trigger] s2.translation(w) == s0.translation(w),
{
    law_map_then_translate(s0, s1, fa0, fa1, page, frame, flags);
}

} // verus!
