//! The physical frame allocator: a bitmap with one bit per 4KB frame,
//! set while the frame is allocated.
use vstd::prelude::*;
use crate::types::memory::PhysAddr;
use crate::kernel::boot::{MemoryRegion, MemoryRegionType};
use crate::kernel::memory::MemoryError;

verus! {

/// Bit `k` of the word `w`.
pub open spec fn bit_of(w: u64, k: u64) -> bool {
    (w >> k) & 1 == 1
}

/// Setting or clearing bit `k` changes that bit and no other.
pub proof fn lemma_bit_update(w: u64, k: u64, j: u64)
    requires
        k < 64,
        j < 64,
    ensures
        bit_of(w | (1u64 << k), k),
        !bit_of(w & !(1u64 << k), k),
        j != k ==> bit_of(w | (1u64 << k), j) == bit_of(w, j),
        j != k ==> bit_of(w & !(1u64 << k), j) == bit_of(w, j),
{
    assert(((w | (1u64 << k)) >> k) & 1 == 1) by (bit_vector) requires k < 64;
    assert(((w & !(1u64 << k)) >> k) & 1 != 1) by (bit_vector) requires k < 64;
    assert(j != k ==> ((w | (1u64 << k)) >> j) & 1 == (w >> j) & 1) by (bit_vector)
        requires k < 64, j < 64;
    assert(j != k ==> ((w & !(1u64 << k)) >> j) & 1 == (w >> j) & 1) by (bit_vector)
        requires k < 64, j < 64;
}

/// Every bit of a zero word is clear.
pub proof fn lemma_zero_bits(k: u64)
    requires
        k < 64,
    ensures
        !bit_of(0, k),
{
    assert((0u64 >> k) & 1 != 1) by (bit_vector);
}

/// Number of clear (free) entries.
pub open spec fn count_free(s: Seq<bool>) -> nat
    decreases s.len(),
{
    if s.len() == 0 {
        0
    } else {
        count_free(s.drop_last()) + if s.last() { 0nat } else { 1nat }
    }
}

/// Changing one entry changes the free count by the change at that entry.
pub proof fn lemma_count_free_update(s: Seq<bool>, i: int, v: bool)
    requires
        0 <= i < s.len(),
    ensures
        count_free(s.update(i, v)) + (if s[i] { 0int } else { 1int })
            == count_free(s) + (if v { 0int } else { 1int }),
    decreases s.len(),
{
    if i == s.len() - 1 {
        assert(s.update(i, v).drop_last() =~= s.drop_last());
    } else {
        lemma_count_free_update(s.drop_last(), i, v);
        assert(s.update(i, v).drop_last() =~= s.drop_last().update(i, v));
    }
}

/// The free count is at most the length, and a free entry makes it positive.
pub proof fn lemma_count_free_bound(s: Seq<bool>)
    ensures
        count_free(s) <= s.len(),
        (exists|i: int| 0 <= i < s.len() && !s[i]) ==> count_free(s) > 0,
    decreases s.len(),
{
    if s.len() > 0 {
        lemma_count_free_bound(s.drop_last());
        if exists|i: int| 0 <= i < s.len() && !s[i] {
            let i = choose|i: int| 0 <= i < s.len() && !s[i];
            if i < s.len() - 1 {
                assert(!s.drop_last()[i]);
            }
        }
    }
}

/// A sequence whose entries are all allocated has no free entry.
pub proof fn lemma_count_free_none(s: Seq<bool>)
    requires
        forall|m: int| 0 <= m < s.len() ==> s[m],
    ensures
        count_free(s) == 0,
    decreases s.len(),
{
    if s.len() > 0 {
        lemma_count_free_none(s.drop_last());
    }
}

/// A sequence of `n` allocated entries has no free entry.
pub proof fn lemma_count_free_all_set(n: nat)
    ensures
        count_free(Seq::new(n, |i: int| true)) == 0,
    decreases n,
{
    if n > 0 {
        lemma_count_free_all_set((n - 1) as nat);
        assert(Seq::new(n, |i: int| true).drop_last() =~= Seq::new((n - 1) as nat, |i: int| true));
    }
}

/// Whether `count` entries from `start` are all inside `s` and free.
pub open spec fn free_run(s: Seq<bool>, start: int, count: int) -> bool {
    &&& 0 <= start
    &&& start + count <= s.len()
    &&& forall|j: int| start <= j < start + count ==> !s[j]
}

/// One bit per frame, packed in 64-bit words.
struct Bitmap {
    data: Vec<u64>,
    size: usize,
}

impl Bitmap {
    spec fn wf(&self) -> bool {
        &&& self.data@.len() == (self.size + 63) / 64
        &&& self.size + 63 <= usize::MAX
    }

    /// Entry `i` is set when frame `i` is allocated.
    spec fn view(&self) -> Seq<bool> {
        Seq::new(self.size as nat, |i: int| bit_of(self.data@[i / 64], (i % 64) as u64))
    }

    fn new(size: usize) -> (r: Self)
        requires
            size + 63 <= usize::MAX,
        ensures
            r.wf(),
            r.size == size,
            r.view() == Seq::new(size as nat, |i: int| false),
    {
        let word_count = (size + 63) / 64;
        let mut data: Vec<u64> = Vec::new();
        let mut i: usize = 0;
        while i < word_count
            invariant
                i <= word_count,
                data@.len() == i,
                forall|j: int| 0 <= j < i ==> data@[j] == 0,
            decreases word_count - i,
        {
            data.push(0);
            i = i + 1;
        }
        let b = Bitmap { data, size };
        assert forall|j: int| 0 <= j < size implies !#[trigger] b.view()[j] by {
            lemma_zero_bits((j % 64) as u64);
        }
        assert(b.view() =~= Seq::new(size as nat, |i: int| false));
        b
    }

    fn set(&mut self, index: usize, value: bool)
        requires
            old(self).wf(),
        ensures
            final(self).wf(),
            final(self).size == old(self).size,
            index < old(self).size ==> final(self).view() == old(self).view().update(index as int, value),
            index >= old(self).size ==> final(self).view() == old(self).view(),
    {
        if index >= self.size {
            return;
        }
        let word_index = index / 64;
        let bit_index: u64 = (index % 64) as u64;
        let w = self.data[word_index];
        let nw = if value { w | (1u64 << bit_index) } else { w & !(1u64 << bit_index) };
        self.data.set(word_index, nw);
        proof {
            assert forall|j: int| 0 <= j < self.size implies #[trigger] self.view()[j]
                == old(self).view().update(index as int, value)[j] by {
                lemma_bit_update(w, bit_index, (j % 64) as u64);
                if j / 64 != word_index as int {
                    assert(self.data@[j / 64] == old(self).data@[j / 64]);
                }
            }
            assert(self.view() =~= old(self).view().update(index as int, value));
        }
    }

    fn get(&self, index: usize) -> (r: bool)
        requires
            self.wf(),
        ensures
            index >= self.size ==> r,
            index < self.size ==> r == self.view()[index as int],
    {
        if index >= self.size {
            return true;
        }
        let word_index = index / 64;
        let bit_index: u64 = (index % 64) as u64;
        (self.data[word_index] >> bit_index) & 1 == 1
    }

    /// The first index at or after `start` (up to `size - count`) where
    /// `count` free entries begin.
    fn find_free_range(&self, start: usize, count: usize) -> (r: Option<usize>)
        requires
            self.wf(),
        ensures
            r matches Some(i) ==> start <= i && free_run(self.view(), i as int, count as int)
                && forall|k: int| start <= k < i ==> !free_run(self.view(), k, count as int),
            r is None ==> forall|k: int| start <= k ==> !free_run(self.view(), k, count as int),
    {
        let last: usize = if self.size >= count { self.size - count } else { 0 };
        let mut i: usize = start;
        while i <= last
            invariant
                self.wf(),
                start <= i,
                last == if self.size >= count { self.size - count } else { 0 },
                last <= self.size,
                forall|k: int| start <= k < i ==> !free_run(self.view(), k, count as int),
            decreases last + 1 - i,
        {
            let mut found = true;
            let mut j: usize = 0;
            while j < count && found
                invariant
                    self.wf(),
                    i <= last,
                    last == if self.size >= count { self.size - count } else { 0 },
                    last <= self.size,
                    j <= count,
                    found ==> forall|m: int| i <= m < i + j ==> m < self.size && !self.view()[m],
                    !found ==> !free_run(self.view(), i as int, count as int),
                decreases (if found { count - j + 1 } else { 0 }),
            {
                if self.get(i + j) {
                    found = false;
                    proof {
                        if (i + j) < self.size {
                            assert(self.view()[(i + j) as int]);
                        }
                    }
                } else {
                    j = j + 1;
                }
            }
            if found {
                proof {
                    if count > 0 {
                        assert(j == count);
                        assert(!self.view()[(i + count - 1) as int]);
                        assert((i + count - 1) < self.size);
                    }
                }
                return Some(i);
            }
            i = i + 1;
        }
        None
    }
}

/// The index of a frame holding physical address `addr`.
pub open spec fn frame_index_of(addr: u64) -> usize {
    (addr / 4096) as usize
}

/// The highest end address of the regions (0 for none).
pub open spec fn max_end(map: Seq<MemoryRegion>) -> u64
    decreases map.len(),
{
    if map.len() == 0 {
        0
    } else {
        let m = max_end(map.drop_last());
        if map.last().end.0 > m { map.last().end.0 } else { m }
    }
}

/// Whether frame `i` lies inside an available region of `map`.
pub open spec fn available_covers(map: Seq<MemoryRegion>, i: int) -> bool {
    exists|k: int| 0 <= k < map.len() && #[trigger] map[k].region_type == MemoryRegionType::Available
        && frame_index_of(map[k].start.0) <= i < frame_index_of(map[k].end.0)
}

/// Allocates physical frames from a bitmap, searching from a hint.
pub struct FrameAllocator {
    bitmap: Bitmap,
    next_free: usize,
    free_frames: usize,
    total_frames: usize,
}

impl FrameAllocator {
    /// Internal consistency: one bit per frame, the hint within range, and
    /// the free counter equal to the number of clear bits.
    pub closed spec fn wf(&self) -> bool {
        &&& self.bitmap.wf()
        &&& self.bitmap.size == self.total_frames
        &&& self.next_free <= self.total_frames
        &&& self.free_frames == count_free(self.bitmap.view())
    }

    /// The free counter of a well-formed allocator is the number of free
    /// frames.
    pub proof fn lemma_counter(&self)
        requires
            self.wf(),
        ensures
            self.free_count() == count_free(self.view()),
            self.free_count() <= self.view().len(),
    {
        lemma_count_free_bound(self.view());
    }

    /// Entry `i` is set while frame `i` is allocated.
    pub closed spec fn view(&self) -> Seq<bool> {
        self.bitmap.view()
    }

    /// The free-frame counter.
    pub closed spec fn free_count(&self) -> nat {
        self.free_frames as nat
    }

    /// The search hint.
    pub closed spec fn hint(&self) -> nat {
        self.next_free as nat
    }

    /// A bitmap covering every frame below the highest region end, with
    /// the frames of available regions free and all others allocated; the
    /// counter is the number of free frames (a frame that several available
    /// regions cover counts once).
    pub fn new(memory_map: &[MemoryRegion]) -> (r: Result<Self, MemoryError>)
        requires
            (max_end(memory_map@) / 4096) as usize + 63 <= usize::MAX,
        ensures
            r matches Ok(a) && {
                &&& a.wf()
                &&& a.view().len() == (max_end(memory_map@) / 4096) as usize
                &&& forall|i: int| 0 <= i < a.view().len() ==> #[trigger] a.view()[i] == !available_covers(memory_map@, i)
                &&& a.free_count() == count_free(a.view())
                &&& a.hint() == 0
            },
    {
        let mut max_addr: u64 = 0;
        let mut k: usize = 0;
        while k < memory_map.len()
            invariant
                k <= memory_map@.len(),
                max_addr == max_end(memory_map@.take(k as int)),
            decreases memory_map@.len() - k,
        {
            proof { assert(memory_map@.take(k as int + 1).drop_last() =~= memory_map@.take(k as int)); }
            if memory_map[k].end.as_u64() > max_addr {
                max_addr = memory_map[k].end.as_u64();
            }
            k = k + 1;
        }
        assert(memory_map@.take(memory_map@.len() as int) =~= memory_map@);
        let total_frames = (max_addr / 4096) as usize;
        let mut bitmap = Bitmap::new(total_frames);
        let mut i: usize = 0;
        while i < total_frames
            invariant
                bitmap.wf(),
                bitmap.size == total_frames,
                i <= total_frames,
                bitmap.view() == Seq::new(total_frames as nat, |m: int| m < i),
            decreases total_frames - i,
        {
            bitmap.set(i, true);
            i = i + 1;
            assert(bitmap.view() =~= Seq::new(total_frames as nat, |m: int| m < i));
        }
        assert(bitmap.view() =~= Seq::new(total_frames as nat, |m: int| true));
        proof { lemma_count_free_all_set(total_frames as nat); }
        let ghost total = total_frames as int;
        let mut free_frames: usize = 0;
        let mut k: usize = 0;
        while k < memory_map.len()
            invariant
                bitmap.wf(),
                bitmap.size == total_frames,
                total == total_frames,
                k <= memory_map@.len(),
                bitmap.view() == Seq::new(total_frames as nat, |m: int| !available_covers(memory_map@.take(k as int), m)),
                free_frames == count_free(bitmap.view()),
            decreases memory_map@.len() - k,
        {
            let region = memory_map[k];
            let ghost pre = memory_map@.take(k as int);
            let ghost post = memory_map@.take(k as int + 1);
            proof {
                assert(post.drop_last() =~= pre);
                assert(post.last() == region);
            }
            match region.region_type {
                MemoryRegionType::Available => {
                    let start_frame = (region.start.as_u64() / 4096) as usize;
                    let end_frame = (region.end.as_u64() / 4096) as usize;
                    let mut fi = start_frame;
                    while fi < end_frame && fi < total_frames
                        invariant
                            bitmap.wf(),
                            bitmap.size == total_frames,
                            total == total_frames,
                            start_frame <= fi,
                            fi == start_frame || (fi <= end_frame && fi <= total_frames),
                            start_frame == frame_index_of(region.start.0),
                            end_frame == frame_index_of(region.end.0),
                            region.region_type == MemoryRegionType::Available,
                            bitmap.view() == Seq::new(total_frames as nat, |m: int|
                                !available_covers(pre, m) && !(start_frame <= m < fi)),
                            free_frames == count_free(bitmap.view()),
                        decreases total_frames - fi,
                    {
                        if bitmap.get(fi) {
                            proof {
                                lemma_count_free_update(bitmap.view(), fi as int, false);
                                lemma_count_free_bound(bitmap.view().update(fi as int, false));
                            }
                            bitmap.set(fi, false);
                            free_frames = free_frames + 1;
                        } else {
                            assert(bitmap.view() =~= bitmap.view().update(fi as int, false));
                        }
                        fi = fi + 1;
                        assert(bitmap.view() =~= Seq::new(total_frames as nat, |m: int|
                            !available_covers(pre, m) && !(start_frame <= m < fi)));
                    }
                    proof {
                        assert forall|m: int| 0 <= m < total_frames implies
                            #[trigger] available_covers(post, m) == (available_covers(pre, m) || (start_frame <= m < fi)) by {
                            if available_covers(post, m) {
                                let q = choose|q: int| 0 <= q < post.len() && #[trigger] post[q].region_type == MemoryRegionType::Available
                                    && frame_index_of(post[q].start.0) <= m < frame_index_of(post[q].end.0);
                                if q < k {
                                    assert(pre[q] == post[q]);
                                } else {
                                    assert(post[q] == region);
                                }
                            }
                            if available_covers(pre, m) {
                                let q = choose|q: int| 0 <= q < pre.len() && #[trigger] pre[q].region_type == MemoryRegionType::Available
                                    && frame_index_of(pre[q].start.0) <= m < frame_index_of(pre[q].end.0);
                                assert(post[q] == pre[q]);
                            }
                            if start_frame <= m < fi {
                                assert(post[k as int] == region);
                            }
                        }
                    }
                    assert(bitmap.view() =~= Seq::new(total_frames as nat, |m: int| !available_covers(post, m)));
                },
                _ => {
                    proof {
                        assert forall|m: int| 0 <= m < total_frames implies
                            #[trigger] available_covers(post, m) == available_covers(pre, m) by {
                            if available_covers(post, m) {
                                let q = choose|q: int| 0 <= q < post.len() && #[trigger] post[q].region_type == MemoryRegionType::Available
                                    && frame_index_of(post[q].start.0) <= m < frame_index_of(post[q].end.0);
                                if q < k {
                                    assert(pre[q] == post[q]);
                                }
                            }
                            if available_covers(pre, m) {
                                let q = choose|q: int| 0 <= q < pre.len() && #[trigger] pre[q].region_type == MemoryRegionType::Available
                                    && frame_index_of(pre[q].start.0) <= m < frame_index_of(pre[q].end.0);
                                assert(post[q] == pre[q]);
                            }
                        }
                    }
                    assert(bitmap.view() =~= Seq::new(total_frames as nat, |m: int| !available_covers(post, m)));
                },
            }
            k = k + 1;
        }
        assert(memory_map@.take(memory_map@.len() as int) =~= memory_map@);
        Ok(FrameAllocator { bitmap, next_free: 0, free_frames, total_frames })
    }

    /// Allocate the first free frame at or after the hint, or else the
    /// first free frame before it; `None` when no frame is free or the
    /// counter reads zero.
    pub fn allocate(&mut self) -> (r: Option<Frame>)
        requires
            old(self).wf(),
        ensures
            final(self).wf(),
            r matches Some(f) ==> {
                &&& 0 <= f.index < old(self).view().len()
                &&& !old(self).view()[f.index as int]
                &&& final(self).view() == old(self).view().update(f.index as int, true)
                &&& final(self).free_count() == old(self).free_count() - 1
                &&& final(self).hint() == f.index + 1
                &&& if exists|k: int| old(self).hint() <= k < old(self).view().len() && !old(self).view()[k] {
                        old(self).hint() <= f.index
                            && forall|k: int| old(self).hint() <= k < f.index ==> old(self).view()[k]
                    } else {
                        forall|k: int| 0 <= k < f.index ==> old(self).view()[k]
                    }
            },
            r is None ==> *final(self) == *old(self)
                && (old(self).free_count() == 0 || forall|k: int| 0 <= k < old(self).view().len() ==> old(self).view()[k]),
            r is Some ==> count_free(final(self).view()) + 1 == count_free(old(self).view()),
            r is None <==> count_free(old(self).view()) == 0,
    {
        proof { lemma_count_free_bound(self.view()); }
        if self.free_frames == 0 {
            return None;
        }
        let mut i: usize = self.next_free;
        while i < self.total_frames
            invariant
                self.wf(),
                *self == *old(self),
                self.free_frames > 0,
                self.next_free <= i <= self.total_frames,
                forall|k: int| self.next_free <= k < i ==> self.view()[k],
            decreases self.total_frames - i,
        {
            if !self.bitmap.get(i) {
                proof {
                    lemma_count_free_update(self.bitmap.view(), i as int, true);
                }
                self.bitmap.set(i, true);
                self.free_frames = self.free_frames - 1;
                self.next_free = i + 1;
                return Some(Frame::from_index(i));
            }
            i = i + 1;
        }
        let mut i: usize = 0;
        while i < self.next_free
            invariant
                self.wf(),
                *self == *old(self),
                self.free_frames > 0,
                i <= self.next_free,
                forall|k: int| self.next_free <= k < self.total_frames ==> self.view()[k],
                forall|k: int| 0 <= k < i ==> self.view()[k],
            decreases self.next_free - i,
        {
            if !self.bitmap.get(i) {
                proof {
                    lemma_count_free_update(self.bitmap.view(), i as int, true);
                }
                self.bitmap.set(i, true);
                self.free_frames = self.free_frames - 1;
                self.next_free = i + 1;
                return Some(Frame::from_index(i));
            }
            i = i + 1;
        }
        proof {
            assert forall|m: int| 0 <= m < self.view().len() implies self.view()[m] by {
                if m >= self.next_free {
                    assert(self.view()[m]);
                }
            }
            lemma_count_free_none(self.view());
        }
        None
    }

    /// Free `frame` if it is in range and allocated, moving the hint back to
    /// it when it lies before the hint; otherwise nothing changes.
    pub fn deallocate(&mut self, frame: Frame)
        requires
            old(self).wf(),
        ensures
            final(self).wf(),
            (frame.index < old(self).view().len() && old(self).view()[frame.index as int]) ==> {
                &&& final(self).view() == old(self).view().update(frame.index as int, false)
                &&& final(self).free_count() == old(self).free_count() + 1
                &&& final(self).hint() == if frame.index < old(self).hint() { frame.index as nat } else { old(self).hint() }
            },
            !(frame.index < old(self).view().len() && old(self).view()[frame.index as int])
                ==> *final(self) == *old(self),
    {
        let index = frame.as_index();
        if index < self.total_frames && self.bitmap.get(index) {
            proof {
                lemma_count_free_update(self.bitmap.view(), index as int, false);
                lemma_count_free_bound(self.bitmap.view().update(index as int, false));
            }
            self.bitmap.set(index, false);
            self.free_frames = self.free_frames + 1;
            if index < self.next_free {
                self.next_free = index;
            }
        }
    }

    /// Allocate `count` consecutive frames: the lowest free run of that
    /// length. `Err(OutOfMemory)` when the counter reads fewer than `count`
    /// or no such run exists.
    pub fn allocate_contiguous_frames(&mut self, count: usize) -> (r: Result<Vec<Frame>, MemoryError>)
        requires
            old(self).wf(),
        ensures
            final(self).wf(),
            count == 0 ==> (r matches Ok(v) && v@.len() == 0 && *final(self) == *old(self)),
            r is Err ==> r == Err::<Vec<Frame>, MemoryError>(MemoryError::OutOfMemory) && *final(self) == *old(self),
            count > 0 && old(self).free_count() < count ==> r is Err,
            count > 0 && old(self).free_count() >= count ==> (r is Ok <==> exists|k: int| free_run(old(self).view(), k, count as int)),
            count > 0 ==> (r matches Ok(v) ==> {
                let s = v@[0].index as int;
                &&& v@.len() == count
                &&& free_run(old(self).view(), s, count as int)
                &&& forall|k: int| 0 <= k < s ==> !free_run(old(self).view(), k, count as int)
                &&& forall|j: int| 0 <= j < count ==> (#[trigger] v@[j]).index == s + j
                &&& final(self).view() == Seq::new(old(self).view().len(), |m: int|
                        if s <= m < s + count { true } else { old(self).view()[m] })
                &&& final(self).free_count() == old(self).free_count() - count
                &&& final(self).hint() == s + count
            }),
    {
        if count == 0 {
            return Ok(Vec::new());
        }
        if self.free_frames < count {
            return Err(MemoryError::OutOfMemory);
        }
        match self.bitmap.find_free_range(0, count) {
            Some(start) => {
                let ghost old_view = self.view();
                let mut frames: Vec<Frame> = Vec::new();
                let mut i: usize = 0;
                while i < count
                    invariant
                        self.bitmap.wf(),
                        self.bitmap.size == self.total_frames,
                        self.total_frames == old(self).total_frames,
                        self.free_frames == old(self).free_frames,
                        self.next_free == old(self).next_free,
                        old_view == old(self).view(),
                        free_run(old_view, start as int, count as int),
                        i <= count,
                        frames@.len() == i,
                        forall|j: int| 0 <= j < i ==> (#[trigger] frames@[j]).index == start + j,
                        self.view() == Seq::new(old_view.len(), |m: int|
                            if start <= m < start + i { true } else { old_view[m] }),
                        count_free(self.view()) + i == count_free(old_view),
                    decreases count - i,
                {
                    let index = start + i;
                    proof {
                        lemma_count_free_update(self.view(), index as int, true);
                    }
                    self.bitmap.set(index, true);
                    frames.push(Frame::from_index(index));
                    i = i + 1;
                    assert(self.view() =~= Seq::new(old_view.len(), |m: int|
                        if start <= m < start + i { true } else { old_view[m] }));
                }
                self.free_frames = self.free_frames - count;
                self.next_free = start + count;
                Ok(frames)
            },
            None => Err(MemoryError::OutOfMemory),
        }
    }

    /// Mark every frame from the one holding `start` through the one
    /// holding `end` as allocated, decrementing the counter (not below zero)
    /// for each that was free.
    pub fn reserve_range(&mut self, start: PhysAddr, end: PhysAddr) -> (r: Result<(), MemoryError>)
        requires
            old(self).wf(),
        ensures
            final(self).wf(),
            r is Ok,
            final(self).view() == Seq::new(old(self).view().len(), |m: int|
                if frame_index_of(start.0) <= m <= frame_index_of(end.0) { true } else { old(self).view()[m] }),
            final(self).free_count() + count_free(old(self).view()) == old(self).free_count() + count_free(final(self).view()),
            final(self).hint() == old(self).hint(),
    {
        let start_frame = (start.as_u64() / 4096) as usize;
        let end_frame = (end.as_u64() / 4096) as usize;
        let ghost old_view = self.view();
        let mut frame_index = start_frame;
        while frame_index <= end_frame && frame_index < self.total_frames
            invariant
                self.wf(),
                self.total_frames == old(self).total_frames,
                self.next_free == old(self).next_free,
                old_view == old(self).view(),
                start_frame <= frame_index,
                start_frame == frame_index_of(start.0),
                end_frame == frame_index_of(end.0),
                self.view() == Seq::new(old_view.len(), |m: int|
                    if start_frame <= m < frame_index && m <= end_frame { true } else { old_view[m] }),
                self.free_frames + count_free(old_view) == old(self).free_frames + count_free(self.view()),
            decreases self.total_frames - frame_index,
        {
            if !self.bitmap.get(frame_index) {
                proof {
                    lemma_count_free_update(self.view(), frame_index as int, true);
                    lemma_count_free_bound(self.view());
                }
                self.bitmap.set(frame_index, true);
                self.free_frames = if self.free_frames > 0 { self.free_frames - 1 } else { 0 };
            }
            frame_index = frame_index + 1;
            assert(self.view() =~= Seq::new(old_view.len(), |m: int|
                if start_frame <= m < frame_index && m <= end_frame { true } else { old_view[m] }));
        }
        assert(self.view() =~= Seq::new(old_view.len(), |m: int|
            if start_frame <= m <= end_frame { true } else { old_view[m] }));
        Ok(())
    }

    /// The free-frame counter.
    pub fn free_frames(&self) -> (r: usize)
        ensures
            r == self.free_count(),
    {
        self.free_frames
    }

    /// The number of frames managed.
    pub fn total_frames(&self) -> (r: usize)
        requires
            self.wf(),
        ensures
            r == self.view().len(),
    {
        self.total_frames
    }
}

/// A physical frame, identified by its index.
#[derive(Debug, Clone, Copy, PartialEq, Eq, Structural)]
pub struct Frame {
    /// Frame index: start address divided by the page size.
    pub index: usize,
}

impl Frame {
    /// The frame with the given index.
    pub fn from_index(index: usize) -> (r: Self)
        ensures
            r.index == index,
    {
        Frame { index }
    }

    /// The frame holding `addr`.
    pub fn from_address(addr: PhysAddr) -> (r: Self)
        ensures
            r.index == frame_index_of(addr.0),
    {
        Frame { index: (addr.as_u64() / 4096) as usize }
    }

    /// The frame index.
    pub fn as_index(self) -> (r: usize)
        ensures
            r == self.index,
    {
        self.index
    }

    /// The first address of the frame.
    pub fn start_address(self) -> (r: PhysAddr)
        requires
            self.index * 4096 <= u64::MAX,
        ensures
            r.0 == self.index * 4096,
    {
        PhysAddr::new_unchecked((self.index as u64) * 4096)
    }

    /// The first address past the frame.
    pub fn end_address(self) -> (r: PhysAddr)
        requires
            (self.index + 1) * 4096 <= u64::MAX,
        ensures
            r.0 == (self.index + 1) * 4096,
    {
        PhysAddr::new_unchecked(((self.index as u64) + 1) * 4096)
    }
}

/// Allocating a frame and then freeing it restores the bitmap and the free
/// counter.
pub proof fn lemma_allocate_then_deallocate(before: Seq<bool>, i: int, c: nat)
    requires
        0 <= i < before.len(),
        !before[i],
    ensures
        before.update(i, true).update(i, false) == before,
        (c - 1) + 1 == c || c == 0,
{
    assert(before.update(i, true).update(i, false) =~= before);
}

} // verus!
