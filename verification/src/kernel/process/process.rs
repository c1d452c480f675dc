//! Process control blocks.
use vstd::prelude::*;
use crate::types::process::ProcessId;
use crate::kernel::capability::CapabilityId;
use crate::kernel::interrupt::InterruptFrame;
use crate::kernel::process::context::{Context, initial_context};
use crate::kernel::process::elf::{parse_elf, elf_valid, le64, le16, load_segments, segment_pages, segment_pages_of,
    stack_pages, ElfImage, ElfSegment, USER_STACK_PAGES};
use crate::kernel::memory::frame::{Frame, FrameAllocator, count_free};
use crate::kernel::memory::page::{AddressSpace, Page, PageFlags, MAX_TABLE_FRAMES, KERNEL_IDENTITY_SIZE, PTE_PRESENT,
    PTE_WRITABLE, PTE_USER, PTE_ADDR_MASK, same_path, law_map_then_translate};
use crate::kernel::USER_STACK_TOP;
use crate::kernel::process::ProcessError;
use crate::kernel::process::scheduler::INITIAL_QUANTUM;
use crate::kernel::interrupt::zero_frame;
use crate::kernel::KERNEL_PID;
use crate::kernel::ipc::message::Message;
use crate::types::ipc::EndpointId;
use crate::types::memory::VirtAddr;

verus! {

/// Lifecycle state of a process.
#[derive(Debug, Clone, Copy, PartialEq, Eq, Structural)]
pub enum ProcessState {
    Ready,
    Running,
    Blocked,
    Sleeping,
    SendWait,
    ReceiveWait,
    ReplyWait,
    Zombie,
}

/// Scheduling priority, lowest first.
#[derive(Debug, Clone, Copy, PartialEq, Eq, Structural)]
pub enum Priority {
    Idle,
    Low,
    Normal,
    High,
    Critical,
}

/// The level of a priority: 0 for Idle up to 4 for Critical.
pub open spec fn priority_level(p: Priority) -> nat {
    match p {
        Priority::Idle => 0,
        Priority::Low => 1,
        Priority::Normal => 2,
        Priority::High => 3,
        Priority::Critical => 4,
    }
}

/// The priorities from lowest to highest: Idle, Low, Normal, High,
/// Critical.
pub open spec fn ascending_priorities() -> Seq<Priority> {
    seq![Priority::Idle, Priority::Low, Priority::Normal, Priority::High, Priority::Critical]
}

/// A priority's level is its place counted from the lowest priority, so
/// levels rise strictly with priority, from Idle at 0 to Critical at 4.
pub proof fn law_priority_levels_rise(a: Priority, b: Priority, i: int, j: int)
    requires
        0 <= i < 5,
        0 <= j < 5,
        ascending_priorities()[i] == a,
        ascending_priorities()[j] == b,
    ensures
        priority_level(a) == i,
        i < j <==> priority_level(a) < priority_level(b),
{
    assert(ascending_priorities()[0] == Priority::Idle);
    assert(ascending_priorities()[1] == Priority::Low);
    assert(ascending_priorities()[2] == Priority::Normal);
    assert(ascending_priorities()[3] == Priority::High);
    assert(ascending_priorities()[4] == Priority::Critical);
}

impl Priority {
    /// The priority's level, which indexes the ready queues.
    pub fn as_usize(self) -> (r: usize)
        ensures
            r == priority_level(self),
    {
        match self {
            Priority::Idle => 0,
            Priority::Low => 1,
            Priority::Normal => 2,
            Priority::High => 3,
            Priority::Critical => 4,
        }
    }
}

/// Per-process accounting.
#[derive(Debug, Clone, Copy, PartialEq, Eq, Structural)]
pub struct ProcessStats {
    pub cpu_time: u64,
    pub context_switches: u64,
    pub voluntary_switches: u64,
    pub page_faults: u64,
    pub syscalls: u64,
}

impl ProcessStats {
    /// All counters zero.
    pub fn new() -> (r: Self)
        ensures
            r == (ProcessStats { cpu_time: 0, context_switches: 0, voluntary_switches: 0, page_faults: 0, syscalls: 0 }),
    {
        ProcessStats { cpu_time: 0, context_switches: 0, voluntary_switches: 0, page_faults: 0, syscalls: 0 }
    }
}

/// A process control block.
#[derive(Debug)]
pub struct Process {
    pub id: ProcessId,
    pub state: ProcessState,
    pub context: Context,
    /// Saved user registers, restored to resume the process.
    pub saved: InterruptFrame,
    /// The page tables of the process.
    pub address_space: AddressSpace,
    pub capabilities: Vec<CapabilityId>,
    pub priority: Priority,
    pub quantum: u32,
    pub stats: ProcessStats,
    pub parent: Option<ProcessId>,
    pub children: Vec<ProcessId>,
    /// Reincarnation generation: 0 for a first start, one more on each
    /// restart after a crash.
    pub generation: u32,
}

/// The page holding virtual address `v`.
pub open spec fn page_of(v: u64) -> Page {
    Page { number: (v / 4096) as usize }
}

/// Whether the page holding `v` is mapped in `space`.
pub open spec fn covered(space: AddressSpace, v: u64) -> bool {
    space.translation((page_of(v).number * 4096) as u64) is Some
}

/// Whether `s1` still maps every address `s0` maps, to the same frame.
pub open spec fn keeps_mappings(s0: AddressSpace, s1: AddressSpace) -> bool {
    forall|w: u64| #![trigger s1.translation(w)] s0.translation(w) is Some ==> s1.translation(w) == s0.translation(w)
}

/// Whether no segment of `segs` ends within a page of the top of the
/// address space.
pub open spec fn segments_fit(segs: Seq<ElfSegment>) -> bool {
    forall|i: int| 0 <= i < segs.len() ==> (#[trigger] segs[i]).vaddr + segs[i].memsz + 4096 <= u64::MAX
}

/// Whether `d` is an executable the loader accepts: valid, with segments
/// that fit.
pub open spec fn loadable(d: Seq<u8>) -> bool {
    elf_valid(d) && segments_fit(load_segments(d, le16(d, 0x38) as int))
}

/// Whether `space` maps every page of the segments `segs` and of the
/// initial user stack.
pub open spec fn image_mapped(space: AddressSpace, segs: Seq<ElfSegment>) -> bool {
    &&& forall|i: int, k: int| 0 <= i < segs.len() && 0 <= k < segment_pages_of(segs[i]).len()
        ==> #[trigger] covered(space, segment_pages_of(segs[i])[k])
    &&& forall|k: int| 0 <= k < USER_STACK_PAGES ==> #[trigger] covered(space, (USER_STACK_TOP - 4096 * (k + 1)) as u64)
}

/// The number of pages the first `i` segments of `segs` occupy, counted
/// segment by segment.
pub open spec fn segment_page_count(segs: Seq<ElfSegment>, i: int) -> nat
    decreases i,
{
    if i <= 0 { 0 } else { segment_page_count(segs, i - 1) + segment_pages_of(segs[i - 1]).len() }
}

/// The pages loading `d` maps at most: those of its segments and of the
/// initial stack.
pub open spec fn image_pages(d: Seq<u8>) -> nat {
    let segs = load_segments(d, le16(d, 0x38) as int);
    segment_page_count(segs, segs.len() as int) + USER_STACK_PAGES as nat
}

/// Counting more segments counts no fewer pages.
proof fn lemma_page_count_grows(segs: Seq<ElfSegment>, i: int, j: int)
    requires
        i <= j,
    ensures
        segment_page_count(segs, i) <= segment_page_count(segs, j),
    decreases j - i,
{
    if i < j {
        lemma_page_count_grows(segs, i, j - 1);
    }
}

/// The flags of an executable's pages: present, writable and reachable
/// from user mode.
pub const USER_PAGE_FLAGS: u64 = PTE_PRESENT | PTE_WRITABLE | PTE_USER;

/// Make sure the page holding `vaddr` is mapped in `space`: a mapped page
/// (an earlier segment may share it) is left as it is and its frame
/// returned; otherwise a fresh frame of `fa` is mapped there with
/// `USER_PAGE_FLAGS`. Running out of frames is `OutOfMemory`.
fn ensure_user_page(space: &mut AddressSpace, fa: &mut FrameAllocator, vaddr: u64) -> (r: Result<Frame, ProcessError>)
    requires
        old(space).wf(),
        old(fa).wf(),
        old(space).backed_by(*old(fa)),
        old(fa).view().len() <= MAX_TABLE_FRAMES,
    ensures
        final(space).wf(),
        final(fa).wf(),
        final(space).backed_by(*final(fa)),
        final(fa).view().len() == old(fa).view().len(),
        final(space).root() == old(space).root(),
        keeps_mappings(*old(space), *final(space)),
        covered(*old(space), vaddr) ==> r == Ok::<Frame, ProcessError>(
            old(space).translation((page_of(vaddr).number * 4096) as u64).unwrap())
            && *final(space) == *old(space) && *final(fa) == *old(fa),
        r matches Ok(f) ==> final(space).translation((page_of(vaddr).number * 4096) as u64) == Some(f),
        r is Err ==> r == Err::<Frame, ProcessError>(ProcessError::OutOfMemory),
        r is Err ==> count_free(old(fa).view()) < 4,
        count_free(final(fa).view()) <= count_free(old(fa).view()),
        count_free(final(fa).view()) + 4 >= count_free(old(fa).view()),
{
    let page = Page::from_address(VirtAddr::new_unchecked(vaddr));
    let ghost v = (page.number * 4096) as u64;
    assert(page.number * 4096 <= u64::MAX) by (nonlinear_arith)
        requires page.number == (vaddr / 4096) as usize, vaddr <= u64::MAX;
    if let Some(frame) = space.translate(page) {
        return Ok(frame);
    }
    let frame = match fa.allocate() {
        Some(f) => f,
        None => return Err(ProcessError::OutOfMemory),
    };
    let ghost s0 = *space;
    let ghost fa1 = *fa;
    assert(frame.index * 4096 <= u64::MAX);
    let flags = PageFlags(USER_PAGE_FLAGS);
    match space.map_page(fa, page, frame, flags) {
        Ok(()) => {
            proof {
                let f = flags.0;
                assert(f & PTE_PRESENT != 0 && f & PTE_ADDR_MASK == 0) by (bit_vector)
                    requires f == PTE_PRESENT | PTE_WRITABLE | PTE_USER;
                law_map_then_translate(s0, *space, fa1, *fa, page, frame, flags);
                assert forall|w: u64| #![trigger space.translation(w)] s0.translation(w) is Some
                    implies space.translation(w) == s0.translation(w) by {
                    if same_path(v, w) {
                        assert(s0.translation(v) is Some);
                    }
                }
            }
            Ok(frame)
        },
        Err(_) => {
            proof {
                assert forall|w: u64| #![trigger space.translation(w)] s0.translation(w) is Some
                    implies space.translation(w) == s0.translation(w) by {
                    if same_path(v, w) {
                        assert(s0.translation(v) is Some);
                    }
                }
            }
            Err(ProcessError::OutOfMemory)
        },
    }
}

/// Whether every segment of `segs` fits.
fn check_segments_fit(segs: &Vec<ElfSegment>) -> (r: bool)
    ensures
        r == segments_fit(segs@),
{
    let mut i: usize = 0;
    while i < segs.len()
        invariant
            i <= segs@.len(),
            forall|j: int| 0 <= j < i ==> (#[trigger] segs@[j]).vaddr + segs@[j].memsz + 4096 <= u64::MAX,
        decreases segs@.len() - i,
    {
        let s = segs[i];
        if s.vaddr > u64::MAX - 4096 || s.memsz > u64::MAX - 4096 - s.vaddr {
            return false;
        }
        i = i + 1;
    }
    true
}

/// Map every page of `image`'s segments and of the initial user stack
/// (the `USER_STACK_PAGES` pages just below `USER_STACK_TOP`) into
/// `space`, leaving pages already mapped as they are. Each page takes at
/// most four frames: its own and three tables.
fn map_image(image: &ElfImage, space: &mut AddressSpace, fa: &mut FrameAllocator) -> (r: Result<(), ProcessError>)
    requires
        old(space).wf(),
        old(fa).wf(),
        old(space).backed_by(*old(fa)),
        old(fa).view().len() <= MAX_TABLE_FRAMES,
        segments_fit(image.segments@),
    ensures
        final(space).wf(),
        final(fa).wf(),
        final(space).backed_by(*final(fa)),
        final(fa).view().len() == old(fa).view().len(),
        final(space).root() == old(space).root(),
        keeps_mappings(*old(space), *final(space)),
        r is Ok ==> image_mapped(*final(space), image.segments@),
        r is Err ==> r == Err::<(), ProcessError>(ProcessError::OutOfMemory),
        r is Err ==> count_free(old(fa).view())
            < 4 * (segment_page_count(image.segments@, image.segments@.len() as int) + USER_STACK_PAGES),
        count_free(final(fa).view()) <= count_free(old(fa).view()),
{
    let segs = &image.segments;
    let mut i: usize = 0;
    while i < segs.len()
        invariant
            space.wf(),
            fa.wf(),
            space.backed_by(*fa),
            fa.view().len() == old(fa).view().len(),
            old(fa).view().len() <= MAX_TABLE_FRAMES,
            space.root() == old(space).root(),
            keeps_mappings(*old(space), *space),
            segs == &image.segments,
            segments_fit(segs@),
            i <= segs@.len(),
            forall|j: int, k: int| 0 <= j < i && 0 <= k < segment_pages_of(segs@[j]).len()
                ==> #[trigger] covered(*space, segment_pages_of(segs@[j])[k]),
            count_free(fa.view()) <= count_free(old(fa).view()),
            count_free(fa.view()) + 4 * segment_page_count(segs@, i as int) >= count_free(old(fa).view()),
        decreases segs@.len() - i,
    {
        let pages = segment_pages(&segs[i]);
        let mut k: usize = 0;
        while k < pages.len()
            invariant
                space.wf(),
                fa.wf(),
                space.backed_by(*fa),
                fa.view().len() == old(fa).view().len(),
                old(fa).view().len() <= MAX_TABLE_FRAMES,
                space.root() == old(space).root(),
                keeps_mappings(*old(space), *space),
                segs == &image.segments,
                i < segs@.len(),
                pages@ == segment_pages_of(segs@[i as int]),
                k <= pages@.len(),
                forall|j: int, m: int| 0 <= j < i && 0 <= m < segment_pages_of(segs@[j]).len()
                    ==> #[trigger] covered(*space, segment_pages_of(segs@[j])[m]),
                forall|m: int| 0 <= m < k ==> #[trigger] covered(*space, pages@[m]),
                count_free(fa.view()) <= count_free(old(fa).view()),
                count_free(fa.view()) + 4 * (segment_page_count(segs@, i as int) + k) >= count_free(old(fa).view()),
            decreases pages@.len() - k,
        {
            let ghost s0 = *space;
            proof {
                lemma_page_count_grows(segs@, i + 1, segs@.len() as int);
            }
            ensure_user_page(space, fa, pages[k])?;
            proof {
                assert forall|j: int, m: int| 0 <= j < i && 0 <= m < segment_pages_of(segs@[j]).len()
                    implies #[trigger] covered(*space, segment_pages_of(segs@[j])[m]) by {
                    assert(covered(s0, segment_pages_of(segs@[j])[m]));
                }
                assert forall|m: int| 0 <= m < k + 1 implies #[trigger] covered(*space, pages@[m]) by {
                    if m < k {
                        assert(covered(s0, pages@[m]));
                    }
                }
            }
            k = k + 1;
        }
        i = i + 1;
    }
    let stack = stack_pages(USER_STACK_TOP as u64);
    let mut k: usize = 0;
    while k < stack.len()
        invariant
            space.wf(),
            fa.wf(),
            space.backed_by(*fa),
            fa.view().len() == old(fa).view().len(),
            old(fa).view().len() <= MAX_TABLE_FRAMES,
            space.root() == old(space).root(),
            keeps_mappings(*old(space), *space),
            segs == &image.segments,
            stack@ == Seq::new(USER_STACK_PAGES as nat, |m: int| (USER_STACK_TOP - 4096 * (m + 1)) as u64),
            k <= stack@.len(),
            forall|j: int, m: int| 0 <= j < segs@.len() && 0 <= m < segment_pages_of(segs@[j]).len()
                ==> #[trigger] covered(*space, segment_pages_of(segs@[j])[m]),
            forall|m: int| 0 <= m < k ==> #[trigger] covered(*space, (USER_STACK_TOP - 4096 * (m + 1)) as u64),
            count_free(fa.view()) <= count_free(old(fa).view()),
            count_free(fa.view()) + 4 * (segment_page_count(segs@, segs@.len() as int) + k) >= count_free(old(fa).view()),
        decreases stack@.len() - k,
    {
        let ghost s0 = *space;
        ensure_user_page(space, fa, stack[k])?;
        proof {
            assert forall|j: int, m: int| 0 <= j < segs@.len() && 0 <= m < segment_pages_of(segs@[j]).len()
                implies #[trigger] covered(*space, segment_pages_of(segs@[j])[m]) by {
                assert(covered(s0, segment_pages_of(segs@[j])[m]));
            }
            assert forall|m: int| 0 <= m < k + 1 implies #[trigger] covered(*space, (USER_STACK_TOP - 4096 * (m + 1)) as u64) by {
                if m < k {
                    assert(covered(s0, (USER_STACK_TOP - 4096 * (m + 1)) as u64));
                }
            }
        }
        k = k + 1;
    }
    Ok(())
}

/// Load the executable `elf_data` into `space`: check it, then map every
/// page its loadable segments occupy in memory and the pages of the
/// initial user stack, taking frames from `fa`; returns the entry point.
/// An executable that is not valid, or has a segment ending within a page
/// of the top of the address space, is `InvalidElf` with nothing mapped;
/// running out of frames is `OutOfMemory`, which takes fewer than four
/// free frames per page to map. Mappings already in `space`
/// (such as the kernel's) stay. Filling the frames with the file's bytes
/// and zeroing the rest is left to code that writes physical memory.
pub fn load_elf(elf_data: &[u8], space: &mut AddressSpace, fa: &mut FrameAllocator) -> (r: Result<u64, ProcessError>)
    requires
        old(space).wf(),
        old(fa).wf(),
        old(space).backed_by(*old(fa)),
        old(fa).view().len() <= MAX_TABLE_FRAMES,
    ensures
        final(space).wf(),
        final(fa).wf(),
        final(space).backed_by(*final(fa)),
        final(fa).view().len() == old(fa).view().len(),
        final(space).root() == old(space).root(),
        keeps_mappings(*old(space), *final(space)),
        !loadable(elf_data@) ==> r == Err::<u64, ProcessError>(ProcessError::InvalidElf)
            && *final(space) == *old(space) && *final(fa) == *old(fa),
        loadable(elf_data@) ==> (r is Err ==> r == Err::<u64, ProcessError>(ProcessError::OutOfMemory)
            && count_free(old(fa).view()) < 4 * image_pages(elf_data@)),
        r matches Ok(entry) ==> entry == le64(elf_data@, 0x18)
            && image_mapped(*final(space), load_segments(elf_data@, le16(elf_data@, 0x38) as int)),
{
    let image = parse_elf(elf_data)?;
    if !check_segments_fit(&image.segments) {
        return Err(ProcessError::InvalidElf);
    }
    map_image(&image, space, fa)?;
    Ok(image.entry)
}

/// The process `create` makes from an executable entering at `entry`.
pub open spec fn created(id: ProcessId, entry: u64, parent: Option<ProcessId>, p: Process) -> bool {
    let ctx = Context { cr3: p.address_space.root(), ..initial_context(entry, id.0 == KERNEL_PID) };
    &&& p.id == id
    &&& p.state == ProcessState::Ready
    &&& p.context == ctx
    &&& p.saved == InterruptFrame { rip: entry, rsp: ctx.rsp, cs: ctx.cs as u64, ss: ctx.ss as u64, rflags: 0x202, ..zero_frame() }
    &&& p.capabilities@.len() == 0
    &&& p.priority == Priority::Normal
    &&& p.quantum == INITIAL_QUANTUM
    &&& p.stats == ProcessStats { cpu_time: 0, context_switches: 0, voluntary_switches: 0, page_faults: 0, syscalls: 0 }
    &&& p.parent == parent
    &&& p.children@.len() == 0
    &&& p.generation == 0
}

/// Whether the address space `space`, built from frames of `fa`, holds the
/// executable `d`: its pages and stack mapped, and the first gigabyte
/// identity-mapped for the kernel.
pub open spec fn holds_image(space: AddressSpace, fa: FrameAllocator, d: Seq<u8>) -> bool {
    &&& space.wf()
    &&& space.backed_by(fa)
    &&& image_mapped(space, load_segments(d, le16(d, 0x38) as int))
    &&& forall|v: u64| v < KERNEL_IDENTITY_SIZE ==>
        #[trigger] space.translation(v) == Some(Frame { index: (v / 4096) as usize })
}

impl Process {
    /// A ready process `id` for the executable `elf_data`, in a fresh
    /// address space built from frames of `fa` (a kernel one for the
    /// kernel's ID, a user one otherwise) into which the executable is
    /// loaded: it enters at the executable's entry point with the initial
    /// context (kernel or user by `id`) bound to that address space, normal
    /// priority and a fresh quantum. An executable the loader refuses is
    /// `InvalidElf`, checked before any frame is taken; running out of
    /// frames is `OutOfMemory`, which takes fewer than three free frames
    /// for the address space and four per page to map.
    pub fn create(id: ProcessId, elf_data: &[u8], parent: Option<ProcessId>, fa: &mut FrameAllocator) -> (r: Result<Process, ProcessError>)
        requires
            old(fa).wf(),
            old(fa).view().len() <= MAX_TABLE_FRAMES,
        ensures
            final(fa).wf(),
            final(fa).view().len() == old(fa).view().len(),
            !loadable(elf_data@) ==> r == Err::<Process, ProcessError>(ProcessError::InvalidElf) && *final(fa) == *old(fa),
            loadable(elf_data@) ==> (r is Err ==> r == Err::<Process, ProcessError>(ProcessError::OutOfMemory)
                && count_free(old(fa).view()) < 3 + 4 * image_pages(elf_data@)),
            r matches Ok(p) ==> created(id, le64(elf_data@, 0x18) as u64, parent, p)
                && holds_image(p.address_space, *final(fa), elf_data@)
                && p.address_space.root() / 4096 < old(fa).view().len()
                && !old(fa).view()[(p.address_space.root() / 4096) as int],
    {
        let image = parse_elf(elf_data)?;
        if !check_segments_fit(&image.segments) {
            return Err(ProcessError::InvalidElf);
        }
        let made = if id.0 == KERNEL_PID { AddressSpace::kernel_space(fa) } else { AddressSpace::user_space(fa) };
        let mut address_space = match made {
            Ok(s) => s,
            Err(_) => return Err(ProcessError::OutOfMemory),
        };
        let ghost s0 = address_space;
        map_image(&image, &mut address_space, fa)?;
        proof {
            assert forall|v: u64| v < KERNEL_IDENTITY_SIZE implies
                #[trigger] address_space.translation(v) == Some(Frame { index: (v / 4096) as usize }) by {
                assert(s0.translation(v) is Some);
            }
        }
        let entry = image.entry;
        let mut context = Context::new(VirtAddr(entry), id.0 == KERNEL_PID);
        context.cr3 = address_space.cr3().0;
        let saved = InterruptFrame::new_user(entry, context.rsp, context.cs as u64, context.ss as u64);
        Ok(Process {
            id,
            state: ProcessState::Ready,
            context,
            saved,
            address_space,
            capabilities: Vec::new(),
            priority: Priority::Normal,
            quantum: INITIAL_QUANTUM,
            stats: ProcessStats::new(),
            parent,
            children: Vec::new(),
            generation: 0,
        })
    }

    /// Change the lifecycle state.
    pub fn set_state(&mut self, state: ProcessState)
        ensures
            final(self).state == state,
            final(self).id == old(self).id,
            final(self).context == old(self).context,
            final(self).saved == old(self).saved,
            final(self).address_space == old(self).address_space,
            final(self).capabilities == old(self).capabilities,
            final(self).priority == old(self).priority,
            final(self).quantum == old(self).quantum,
            final(self).stats == old(self).stats,
            final(self).parent == old(self).parent,
            final(self).children == old(self).children,
            final(self).generation == old(self).generation,
    {
        self.state = state;
    }

    /// Hand `message` to the process. Messages travel through the IPC
    /// manager's queues and the process's saved registers, so the process
    /// itself keeps nothing of it.
    pub fn set_message(&mut self, message: &Message)
        ensures
            *final(self) == *old(self),
    {
    }

    /// Record `message` as received. As with `set_message`, the process
    /// itself keeps nothing of it.
    pub fn set_received_message(&mut self, message: Message)
        ensures
            *final(self) == *old(self),
    {
    }

    /// Record `endpoint` as where a reply goes. Replies are routed by the
    /// IPC manager's rendezvous state, so the process keeps nothing of it.
    pub fn set_reply_endpoint(&mut self, endpoint: EndpointId)
        ensures
            *final(self) == *old(self),
    {
    }
}

/// The process in table slot `pid`, if any.
pub open spec fn slot(t: Seq<Option<Process>>, pid: ProcessId) -> Option<Process> {
    if (pid.0 as int) < t.len() { t[pid.0 as int] } else { None }
}

/// The table with the process in slot `pid`, if any, in state `state`.
pub open spec fn with_state(t: Seq<Option<Process>>, pid: ProcessId, state: ProcessState) -> Seq<Option<Process>> {
    match slot(t, pid) {
        Some(p) => t.update(pid.0 as int, Some(Process { state, ..p })),
        None => t,
    }
}

/// Put the process in slot `pid`, if any, in state `state`; says whether
/// there was one.
pub fn set_state_in(table: &mut Vec<Option<Process>>, pid: ProcessId, state: ProcessState) -> (r: bool)
    ensures
        r == slot(old(table)@, pid) is Some,
        final(table)@ == with_state(old(table)@, pid, state),
{
    let i = pid.0 as usize;
    if i < table.len() {
        match take_slot(table, i) {
            Some(mut p) => {
                p.set_state(state);
                table.set(i, Some(p));
                true
            },
            None => {
                assert(table@ =~= old(table)@);
                false
            },
        }
    } else {
        false
    }
}

/// Take the process out of slot `i`, leaving it empty.
pub fn take_slot(table: &mut Vec<Option<Process>>, i: usize) -> (r: Option<Process>)
    requires
        i < old(table)@.len(),
    ensures
        r == old(table)@[i as int],
        final(table)@ == old(table)@.update(i as int, None),
{
    let mut tmp: Option<Process> = None;
    table.set_and_swap(i, &mut tmp);
    tmp
}

} // verus!
