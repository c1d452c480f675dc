//! Physical and virtual addresses, pages, frames and memory regions.
use vstd::prelude::*;

verus! {

/// `x` rounded down to a multiple of `align` by masking off the low bits
/// (exact when `align` is a power of two).
pub open spec fn mask_down(x: u64, align: u64) -> u64 {
    x & !((align - 1) as u64)
}

/// `x` rounded down to a multiple of 4096.
pub open spec fn page_floor(x: u64) -> u64 {
    (x - x % 4096) as u64
}

/// Rounding down to a page by masking is arithmetic rounding down.
pub proof fn lemma_page_mask(x: u64)
    ensures
        mask_down(x, 4096) == page_floor(x),
        page_floor(x) % 4096 == 0,
        page_floor(x) <= x,
{
    assert(x & !4095u64 == x - x % 4096) by (bit_vector);
}

/// Masking never increases a value.
pub proof fn lemma_mask_le(x: u64, m: u64)
    ensures
        x & m <= x,
{
    assert(x & m <= x) by (bit_vector);
}

/// Physical memory address.
#[derive(Debug, Clone, Copy, PartialEq, Eq, PartialOrd, Ord, Hash, Structural)]
pub struct PhysAddr(pub u64);

impl PhysAddr {
    /// Null physical address.
    pub fn null() -> (r: Self)
        ensures
            r.0 == 0,
    {
        PhysAddr(0)
    }

    /// Create a new physical address; `None` above the 52-bit limit.
    pub fn new(addr: u64) -> (r: Option<Self>)
        ensures
            addr <= crate::types::MAX_PHYS_ADDR ==> r == Some(PhysAddr(addr)),
            addr > crate::types::MAX_PHYS_ADDR ==> r is None,
    {
        if addr <= crate::types::MAX_PHYS_ADDR {
            Some(PhysAddr(addr))
        } else {
            None
        }
    }

    /// Create a physical address without bounds checking.
    pub fn new_unchecked(addr: u64) -> (r: Self)
        ensures
            r.0 == addr,
    {
        PhysAddr(addr)
    }

    /// The raw address value.
    pub fn as_u64(self) -> (r: u64)
        ensures
            r == self.0,
    {
        self.0
    }

    /// Whether the address is zero.
    pub fn is_null(self) -> (r: bool)
        ensures
            r == (self.0 == 0),
    {
        self.0 == 0
    }

    /// Whether the address is a multiple of `align`.
    pub fn is_aligned(self, align: u64) -> (r: bool)
        requires
            align != 0,
        ensures
            r == (self.0 % align == 0),
    {
        self.0 % align == 0
    }

    /// Clear the bits below `align`.
    pub fn align_down(self, align: u64) -> (r: Self)
        requires
            align != 0,
        ensures
            r.0 == mask_down(self.0, align),
            r.0 <= self.0,
    {
        proof { lemma_mask_le(self.0, !((align - 1) as u64)); }
        PhysAddr(self.0 & !(align - 1))
    }

    /// Round up to `align` by adding `align - 1` and masking.
    pub fn align_up(self, align: u64) -> (r: Self)
        requires
            align != 0,
            self.0 + align - 1 <= u64::MAX,
        ensures
            r.0 == mask_down((self.0 + align - 1) as u64, align),
    {
        PhysAddr((self.0 + (align - 1)) & !(align - 1))
    }

    /// Whether the address is page-aligned.
    pub fn is_page_aligned(self) -> (r: bool)
        ensures
            r == (self.0 % 4096 == 0),
    {
        self.is_aligned(4096)
    }

    /// Round down to the page boundary.
    pub fn page_align_down(self) -> (r: Self)
        ensures
            r.0 == page_floor(self.0),
    {
        proof { lemma_page_mask(self.0); }
        self.align_down(4096)
    }

    /// Round up to the page boundary.
    pub fn page_align_up(self) -> (r: Self)
        requires
            self.0 + 4095 <= u64::MAX,
        ensures
            r.0 == page_floor((self.0 + 4095) as u64),
            r.0 % 4096 == 0,
            self.0 <= r.0 < self.0 + 4096,
    {
        proof { lemma_page_mask((self.0 + 4095) as u64); }
        self.align_up(4096)
    }

    /// The number of the page holding this address.
    pub fn page_number(self) -> (r: u64)
        ensures
            r == self.0 / 4096,
    {
        self.0 / 4096
    }

    /// The offset of this address within its page.
    pub fn page_offset(self) -> (r: u64)
        ensures
            r == self.0 % 4096,
    {
        self.0 % 4096
    }
}

/// Virtual memory address.
#[derive(Debug, Clone, Copy, PartialEq, Eq, PartialOrd, Ord, Hash, Structural)]
pub struct VirtAddr(pub u64);

/// First byte of user space.
pub const USER_START: u64 = 0x0000_0000_0000_1000;

/// End of user space (exclusive).
pub const USER_END: u64 = 0x0000_7FFF_FFFF_F000;

/// First byte of kernel space.
pub const KERNEL_START: u64 = 0xFFFF_8000_0000_0000;

/// End of kernel space (exclusive).
pub const KERNEL_END: u64 = 0xFFFF_FFFF_FFFF_F000;

/// First address past the lower canonical half (bit 47 set).
pub const LOWER_HALF_END: u64 = 0x0000_8000_0000_0000;

/// Whether an x86_64 address is canonical (48-bit virtual addresses): bits
/// 48 to 63 all copy bit 47, so it lies in the lower half, below 2^47, or
/// in the upper half, from `KERNEL_START` on.
pub open spec fn canonical(addr: u64) -> bool {
    addr < LOWER_HALF_END || addr >= KERNEL_START
}

/// The 9-bit page-table index of `addr` at `level` (0 is the last level).
pub open spec fn table_index(addr: u64, level: u64) -> u64 {
    (addr >> (12 + 9 * level) as u64) & 0x1FF
}

impl VirtAddr {
    /// Null virtual address.
    pub fn null() -> (r: Self)
        ensures
            r.0 == 0,
    {
        VirtAddr(0)
    }

    /// Create a new virtual address; `None` for a non-canonical one.
    pub fn new(addr: u64) -> (r: Option<Self>)
        ensures
            canonical(addr) ==> r == Some(VirtAddr(addr)),
            !canonical(addr) ==> r is None,
    {
        if addr < LOWER_HALF_END || addr >= KERNEL_START {
            Some(VirtAddr(addr))
        } else {
            None
        }
    }

    /// Create a virtual address without canonical address checking.
    pub fn new_unchecked(addr: u64) -> (r: Self)
        ensures
            r.0 == addr,
    {
        VirtAddr(addr)
    }

    /// The raw address value.
    pub fn as_u64(self) -> (r: u64)
        ensures
            r == self.0,
    {
        self.0
    }

    /// Whether the address is zero.
    pub fn is_null(self) -> (r: bool)
        ensures
            r == (self.0 == 0),
    {
        self.0 == 0
    }

    /// Whether this is a canonical address.
    pub fn is_canonical(self) -> (r: bool)
        ensures
            r == canonical(self.0),
    {
        self.0 < LOWER_HALF_END || self.0 >= KERNEL_START
    }

    /// Whether this is a user space address.
    pub fn is_user(self) -> (r: bool)
        ensures
            r == (USER_START <= self.0 < USER_END),
    {
        self.0 >= USER_START && self.0 < USER_END
    }

    /// Whether this is a kernel space address.
    pub fn is_kernel(self) -> (r: bool)
        ensures
            r == (KERNEL_START <= self.0 < KERNEL_END),
    {
        self.0 >= KERNEL_START && self.0 < KERNEL_END
    }

    /// Whether the address is a multiple of `align`.
    pub fn is_aligned(self, align: u64) -> (r: bool)
        requires
            align != 0,
        ensures
            r == (self.0 % align == 0),
    {
        self.0 % align == 0
    }

    /// Clear the bits below `align`.
    pub fn align_down(self, align: u64) -> (r: Self)
        requires
            align != 0,
        ensures
            r.0 == mask_down(self.0, align),
            r.0 <= self.0,
    {
        proof { lemma_mask_le(self.0, !((align - 1) as u64)); }
        VirtAddr(self.0 & !(align - 1))
    }

    /// Round up to `align` by adding `align - 1` and masking.
    pub fn align_up(self, align: u64) -> (r: Self)
        requires
            align != 0,
            self.0 + align - 1 <= u64::MAX,
        ensures
            r.0 == mask_down((self.0 + align - 1) as u64, align),
    {
        VirtAddr((self.0 + (align - 1)) & !(align - 1))
    }

    /// Whether the address is page-aligned.
    pub fn is_page_aligned(self) -> (r: bool)
        ensures
            r == (self.0 % 4096 == 0),
    {
        self.is_aligned(4096)
    }

    /// Round down to the page boundary.
    pub fn page_align_down(self) -> (r: Self)
        ensures
            r.0 == page_floor(self.0),
    {
        proof { lemma_page_mask(self.0); }
        self.align_down(4096)
    }

    /// Round up to the page boundary.
    pub fn page_align_up(self) -> (r: Self)
        requires
            self.0 + 4095 <= u64::MAX,
        ensures
            r.0 == page_floor((self.0 + 4095) as u64),
            r.0 % 4096 == 0,
            self.0 <= r.0 < self.0 + 4096,
    {
        proof { lemma_page_mask((self.0 + 4095) as u64); }
        self.align_up(4096)
    }

    /// The number of the page holding this address.
    pub fn page_number(self) -> (r: u64)
        ensures
            r == self.0 / 4096,
    {
        self.0 / 4096
    }

    /// The offset of this address within its page.
    pub fn page_offset(self) -> (r: u64)
        ensures
            r == self.0 % 4096,
    {
        self.0 % 4096
    }

    /// The page-table index selecting this address at `level`.
    pub fn page_table_index(self, level: usize) -> (r: usize)
        requires
            12 + 9 * level < 64,
        ensures
            r == table_index(self.0, level as u64),
            r < 512,
    {
        let shift: u64 = 12 + 9 * (level as u64);
        let v: u64 = self.0 >> shift;
        assert(v & 0x1FF < 512) by (bit_vector);
        (v & 0x1FF) as usize
    }
}

/// A virtual page, identified by its page-aligned start address.
#[derive(Debug, Clone, Copy, PartialEq, Eq, PartialOrd, Ord)]
pub struct Page {
    address: VirtAddr,
}

impl View for Page {
    type V = u64;

    /// The page's start address.
    closed spec fn view(&self) -> u64 {
        self.address.0
    }
}

impl Page {
    /// The page holding `address`.
    pub fn new(address: VirtAddr) -> (r: Self)
        ensures
            r@ == page_floor(address.0),
            r@ % 4096 == 0,
    {
        proof { lemma_page_mask(address.0); }
        Page { address: address.page_align_down() }
    }

    /// The page holding `address`.
    pub fn containing(address: VirtAddr) -> (r: Self)
        ensures
            r@ == page_floor(address.0),
    {
        Self::new(address)
    }

    /// The start address of this page.
    pub fn address(self) -> (r: VirtAddr)
        ensures
            r.0 == self@,
    {
        self.address
    }

    /// The page number.
    pub fn number(self) -> (r: u64)
        ensures
            r == self@ / 4096,
    {
        self.address.page_number()
    }

    /// The following page.
    pub fn next(self) -> (r: Self)
        requires
            self@ + 4096 <= u64::MAX,
        ensures
            r@ == page_floor((self@ + 4096) as u64),
    {
        Self::new(VirtAddr::new_unchecked(self.address.as_u64() + 4096))
    }

    /// The pages from the one holding `start` up to the one holding `end`
    /// rounded up to a page boundary (exclusive).
    pub fn range(start: VirtAddr, end: VirtAddr) -> (r: PageRange)
        requires
            end.0 + 4095 <= u64::MAX,
        ensures
            r.start@ == page_floor(start.0),
            r.end@ == page_floor(mask_down((end.0 + 4095) as u64, 4096)),
    {
        PageRange {
            start: Self::containing(start),
            end: Self::containing(end.align_up(4096)),
        }
    }
}

/// A physical frame, identified by its page-aligned start address.
#[derive(Debug, Clone, Copy, PartialEq, Eq, PartialOrd, Ord)]
pub struct Frame {
    address: PhysAddr,
}

impl View for Frame {
    type V = u64;

    /// The frame's start address.
    closed spec fn view(&self) -> u64 {
        self.address.0
    }
}

impl Frame {
    /// The frame holding `address`.
    pub fn new(address: PhysAddr) -> (r: Self)
        ensures
            r@ == page_floor(address.0),
            r@ % 4096 == 0,
    {
        proof { lemma_page_mask(address.0); }
        Frame { address: address.page_align_down() }
    }

    /// The frame holding `address`.
    pub fn containing(address: PhysAddr) -> (r: Self)
        ensures
            r@ == page_floor(address.0),
    {
        Self::new(address)
    }

    /// The frame with the given number.
    pub fn from_number(number: u64) -> (r: Self)
        requires
            number * 4096 <= u64::MAX,
        ensures
            r@ == number * 4096,
    {
        let a: u64 = number * 4096;
        proof {
            lemma_page_mask(a);
            assert(a % 4096 == 0) by (nonlinear_arith) requires a == number * 4096;
        }
        Self::new(PhysAddr::new_unchecked(a))
    }

    /// The start address of this frame.
    pub fn address(self) -> (r: PhysAddr)
        ensures
            r.0 == self@,
    {
        self.address
    }

    /// The frame number.
    pub fn number(self) -> (r: u64)
        ensures
            r == self@ / 4096,
    {
        self.address.page_number()
    }

    /// The following frame.
    pub fn next(self) -> (r: Self)
        requires
            self@ + 4096 <= u64::MAX,
        ensures
            r@ == page_floor((self@ + 4096) as u64),
    {
        Self::new(PhysAddr::new_unchecked(self.address.as_u64() + 4096))
    }
}

/// A range of virtual pages, `start` inclusive and `end` exclusive.
#[derive(Debug, Clone, Copy, PartialEq, Eq)]
pub struct PageRange {
    /// First page of the range.
    pub start: Page,
    /// First page after the range.
    pub end: Page,
}

impl PageRange {
    /// Create a new page range.
    pub fn new(start: Page, end: Page) -> (r: Self)
        ensures
            r.start == start,
            r.end == end,
    {
        PageRange { start, end }
    }

    /// Whether the range holds no page.
    pub fn is_empty(self) -> (r: bool)
        ensures
            r == (self.start@ >= self.end@),
    {
        self.start.address().as_u64() >= self.end.address().as_u64()
    }

    /// The number of pages in the range.
    pub fn count(self) -> (r: u64)
        ensures
            r == if self.start@ >= self.end@ { 0 } else { ((self.end@ - self.start@) / 4096) as u64 },
    {
        if self.is_empty() {
            0
        } else {
            (self.end.address().as_u64() - self.start.address().as_u64()) / 4096
        }
    }

    /// Whether the range holds `page`.
    pub fn contains(self, page: Page) -> (r: bool)
        ensures
            r == (self.start@ <= page@ < self.end@),
    {
        page.address().as_u64() >= self.start.address().as_u64()
            && page.address().as_u64() < self.end.address().as_u64()
    }

    /// Whether the two ranges share a page.
    pub fn overlaps(self, other: PageRange) -> (r: bool)
        ensures
            r == (self.start@ < other.end@ && other.start@ < self.end@),
    {
        self.start.address().as_u64() < other.end.address().as_u64()
            && other.start.address().as_u64() < self.end.address().as_u64()
    }
}

/// Kind of a physical memory region.
#[derive(Debug, Clone, Copy, PartialEq, Eq, Structural)]
pub enum MemoryRegionType {
    /// Usable RAM.
    Usable,
    /// Reserved by firmware.
    Reserved,
    /// ACPI reclaimable.
    AcpiReclaimable,
    /// ACPI NVS.
    AcpiNvs,
    /// Bad memory.
    BadMemory,
    /// Kernel code and data.
    Kernel,
    /// Boot information.
    BootInfo,
}

/// A physical memory region descriptor.
#[derive(Debug, Clone, Copy, PartialEq, Eq)]
pub struct MemoryRegion {
    /// Start physical address.
    pub start: PhysAddr,
    /// Size in bytes.
    pub size: u64,
    /// Kind of the region.
    pub region_type: MemoryRegionType,
}

impl MemoryRegion {
    /// Create a new memory region.
    pub fn new(start: PhysAddr, size: u64, region_type: MemoryRegionType) -> (r: Self)
        ensures
            r.start == start,
            r.size == size,
            r.region_type == region_type,
    {
        MemoryRegion { start, size, region_type }
    }

    /// The end address (exclusive).
    pub fn end(self) -> (r: PhysAddr)
        requires
            self.start.0 + self.size <= u64::MAX,
        ensures
            r.0 == self.start.0 + self.size,
    {
        PhysAddr::new_unchecked(self.start.as_u64() + self.size)
    }

    /// Whether the region holds `addr`.
    pub fn contains(self, addr: PhysAddr) -> (r: bool)
        requires
            self.start.0 + self.size <= u64::MAX,
        ensures
            r == (self.start.0 <= addr.0 < self.start.0 + self.size),
    {
        addr.as_u64() >= self.start.as_u64() && addr.as_u64() < self.end().as_u64()
    }

    /// Whether the two regions share an address.
    pub fn overlaps(self, other: MemoryRegion) -> (r: bool)
        requires
            self.start.0 + self.size <= u64::MAX,
            other.start.0 + other.size <= u64::MAX,
        ensures
            r == (self.start.0 < other.start.0 + other.size && other.start.0 < self.start.0 + self.size),
    {
        self.start.as_u64() < other.end().as_u64() && other.start.as_u64() < self.end().as_u64()
    }

    /// Whether the region is usable RAM.
    pub fn is_usable(self) -> (r: bool)
        ensures
            r == (self.region_type == MemoryRegionType::Usable),
    {
        match self.region_type {
            MemoryRegionType::Usable => true,
            _ => false,
        }
    }
}

/// Shared memory object identifier; zero is invalid.
#[derive(Debug, Clone, Copy, PartialEq, Eq, PartialOrd, Ord, Hash)]
pub struct SharedMemoryId(pub u32);

impl SharedMemoryId {
    /// Create a shared memory ID; `None` for zero.
    pub fn new(id: u32) -> (r: Option<Self>)
        ensures
            id == 0 ==> r is None,
            id != 0 ==> r == Some(SharedMemoryId(id)),
    {
        if id == 0 {
            None
        } else {
            Some(SharedMemoryId(id))
        }
    }

    /// Create a shared memory ID without validation.
    pub fn new_unchecked(id: u32) -> (r: Self)
        ensures
            r.0 == id,
    {
        SharedMemoryId(id)
    }

    /// The raw ID value.
    pub fn as_u32(self) -> (r: u32)
        ensures
            r == self.0,
    {
        self.0
    }

    /// Whether this is a valid (nonzero) ID.
    pub fn is_valid(self) -> (r: bool)
        ensures
            r == (self.0 != 0),
    {
        self.0 != 0
    }
}

} // verus!
