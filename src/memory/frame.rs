//! Physical frame allocation over a bitmap of free frames.

use bitmap_allocator::BitAlloc as _;
use vstd::prelude::*;

use super::addr::{PhysAddr, PAGE_SIZE};
use super::paging::PHYS_LIMIT;
use super::physmem::{word_at, PhysMemory};
use crate::error::{HvError, HvErrorNum, HvResult};

verus! {

/// The number of frames the bitmap can track: 1M frames, 4 GiB.
pub const FRAME_CAPACITY: usize = 0x10_0000;

/// The bitmap of free frame indices, kept by `bitmap_allocator`. The
/// crate's generic bitmap type, bounded by its own `BitAlloc` trait, is
/// held here rather than declared.
#[verifier::external_body]
pub struct FrameBitmap {
    inner: Box<bitmap_allocator::BitAlloc1M>,
}

/// The frame indices that the bitmap holds as free.
pub uninterp spec fn free_indices(b: FrameBitmap) -> Set<usize>;

/// Relies on `BitAlloc1M::DEFAULT`: a bitmap with no free bit.
#[verifier::external_body]
fn bitmap_empty() -> (r: FrameBitmap)
    ensures
        free_indices(r) == Set::<usize>::empty(),
{
    FrameBitmap { inner: Box::new(bitmap_allocator::BitAlloc1M::DEFAULT) }
}

/// Relies on `BitAlloc::insert`: marks `start..end` free. It asserts that
/// the range ends inside the capacity, and an empty range at 0 underflows,
/// so the range here is never empty.
#[verifier::external_body]
fn bitmap_insert(b: &mut FrameBitmap, start: usize, end: usize)
    requires
        start < end <= FRAME_CAPACITY,
    ensures
        free_indices(*final(b)) == free_indices(*old(b)).union(Set::new(|i: usize| start <= i < end)),
{
    b.inner.insert(start..end)
}

/// Relies on `BitAlloc::alloc`: takes one free index out of the bitmap;
/// it finds none only when no index is free.
#[verifier::external_body]
fn bitmap_alloc(b: &mut FrameBitmap) -> (r: Option<usize>)
    ensures
        match r {
            Some(i) => free_indices(*old(b)).contains(i) && free_indices(*final(b))
                == free_indices(*old(b)).remove(i),
            None => free_indices(*final(b)) == free_indices(*old(b)) && free_indices(*old(b))
                == Set::<usize>::empty(),
        },
{
    b.inner.alloc()
}

/// Relies on `BitAlloc::alloc_contiguous` with no requested base: a run
/// of `size` free indices whose first is a multiple of `2^align_log2`,
/// taken out of the bitmap, or the bitmap as it is. Taking the run out
/// asserts that it ends inside the capacity. With an alignment of at most
/// the capacity, it finds no run only when no aligned run of free indices
/// exists.
#[verifier::external_body]
fn bitmap_alloc_contiguous(b: &mut FrameBitmap, size: usize, align_log2: usize) -> (r: Option<usize>)
    requires
        size >= 1,
        align_log2 < 64,
    ensures
        match r {
            Some(base) => {
                &&& base + size <= FRAME_CAPACITY
                &&& base as int % vstd::arithmetic::power2::pow2(align_log2 as nat) as int == 0
                &&& forall|i: usize| base <= i < base + size ==> free_indices(*old(b)).contains(i)
                &&& free_indices(*final(b)) == free_indices(*old(b)).difference(Set::new(|i: usize| base <= i < base + size))
            },
            None => {
                &&& free_indices(*final(b)) == free_indices(*old(b))
                &&& align_log2 <= 20 ==> forall|base: usize|
                    #![trigger base as int % vstd::arithmetic::power2::pow2(align_log2 as nat) as int]
                    base as int % vstd::arithmetic::power2::pow2(align_log2 as nat) as int == 0 && base + size
                        <= FRAME_CAPACITY ==> exists|i: usize| base <= i < base + size && !#[trigger] free_indices(*old(b)).contains(i)
            },
        },
{
    b.inner.alloc_contiguous(None, size, align_log2)
}

/// Relies on `BitAlloc::dealloc`: marks `key` free and tells whether it
/// was in use.
#[verifier::external_body]
fn bitmap_dealloc(b: &mut FrameBitmap, key: usize) -> (r: bool)
    requires
        key < FRAME_CAPACITY,
    ensures
        free_indices(*final(b)) == free_indices(*old(b)).insert(key),
        r == !free_indices(*old(b)).contains(key),
{
    b.inner.dealloc(key)
}

/// The allocator of physical frames: frame `i` of the bitmap is the 4 KiB
/// frame at `base + i * 4096`.
pub struct FrameAllocator {
    base: PhysAddr,
    inner: FrameBitmap,
}

/// The physical address of frame index `i`.
pub open spec fn frame_paddr(base: u64, i: usize) -> u64 {
    (base + i * PAGE_SIZE) as u64
}

impl FrameAllocator {
    /// The first frame's address.
    pub closed spec fn spec_base(&self) -> u64 {
        self.base
    }

    /// The physical addresses of the free frames.
    pub closed spec fn free_frames(&self) -> Set<u64> {
        Set::new(|p: u64| exists|i: usize| #[trigger] free_indices(self.inner).contains(i) && p == frame_paddr(self.base, i))
    }

    /// The base is page aligned, every frame lies below the physical limit,
    /// and every free index is inside the bitmap.
    pub closed spec fn wf(&self) -> bool {
        &&& self.base % PAGE_SIZE == 0
        &&& self.base + FRAME_CAPACITY * PAGE_SIZE <= PHYS_LIMIT
        &&& forall|i: usize| #[trigger] free_indices(self.inner).contains(i) ==> i < FRAME_CAPACITY
    }

    /// An allocator with no free frame.
    pub fn empty() -> (r: Self)
        ensures
            r.wf(),
            r.free_frames() == Set::<u64>::empty(),
    {
        let r = FrameAllocator { base: 0, inner: bitmap_empty() };
        assert(r.free_frames() =~= Set::<u64>::empty());
        r
    }

    /// An allocator whose free frames are the pages of `[base, base + size)`
    /// after rounding `base` up to a page.
    pub fn init(base: PhysAddr, size: u64) -> (r: Self)
        requires
            base <= PHYS_LIMIT - FRAME_CAPACITY * PAGE_SIZE - PAGE_SIZE,
            size <= FRAME_CAPACITY * PAGE_SIZE,
        ensures
            r.wf(),
            r.spec_base() == super::addr::spec_align_up(base as int),
            forall|p: u64|
                #![trigger r.free_frames().contains(p)]
                r.free_frames().contains(p) <==> (exists|i: usize|
                    i * PAGE_SIZE < super::addr::spec_align_up(size as int) && p == frame_paddr(
                        r.spec_base(),
                        i,
                    )),
    {
        let aligned = super::addr::align_up(base);
        let count = (super::addr::align_up(size) / PAGE_SIZE) as usize;
        let mut inner = bitmap_empty();
        if count > 0 {
            bitmap_insert(&mut inner, 0, count);
        }
        let r = FrameAllocator { base: aligned, inner };
        assert(count as int == super::addr::spec_align_up(size as int) / 4096);
        assert(super::addr::spec_align_up(size as int) % 4096 == 0);
        assert forall|p: u64| r.free_frames().contains(p) <==> (exists|i: usize|
            i * PAGE_SIZE < super::addr::spec_align_up(size as int) && p == frame_paddr(
                r.spec_base(),
                i,
            )) by {
            if r.free_frames().contains(p) {
                let i = choose|i: usize| #[trigger] free_indices(r.inner).contains(i) && p == frame_paddr(r.base, i);
                assert(i < count);
                assert(i * PAGE_SIZE < super::addr::spec_align_up(size as int)) by (nonlinear_arith)
                    requires
                        i < count,
                        count == super::addr::spec_align_up(size as int) / 4096,
                        super::addr::spec_align_up(size as int) % 4096 == 0,
                ;
                assert(i * PAGE_SIZE < super::addr::spec_align_up(size as int) && p == frame_paddr(r.spec_base(), i));
            }
            if exists|i: usize|
                i * PAGE_SIZE < super::addr::spec_align_up(size as int) && p == frame_paddr(r.base, i) {
                let i = choose|i: usize|
                    i * PAGE_SIZE < super::addr::spec_align_up(size as int) && p == frame_paddr(r.base, i);
                assert(i < count) by (nonlinear_arith)
                    requires
                        i * 4096 < super::addr::spec_align_up(size as int),
                        count == super::addr::spec_align_up(size as int) / 4096,
                        super::addr::spec_align_up(size as int) % 4096 == 0,
                ;
                assert(free_indices(r.inner).contains(i));
            }
        }
        r
    }

    /// Takes one free frame.
    pub fn alloc_frame(&mut self) -> (r: Option<PhysAddr>)
        requires
            old(self).wf(),
        ensures
            final(self).wf(),
            final(self).spec_base() == old(self).spec_base(),
            match r {
                Some(p) => {
                    &&& old(self).free_frames().contains(p)
                    &&& final(self).free_frames() == old(self).free_frames().remove(p)
                    &&& p % PAGE_SIZE == 0
                    &&& p + PAGE_SIZE <= PHYS_LIMIT
                },
                None => final(self).free_frames() == old(self).free_frames() && old(self).free_frames()
                    == Set::<u64>::empty(),
            },
    {
        let ghost before = self.free_frames();
        let ghost before_idx = free_indices(self.inner);
        match bitmap_alloc(&mut self.inner) {
            Some(i) => {
                assert(i < FRAME_CAPACITY);
                let p = self.base + (i as u64) * PAGE_SIZE;
                proof {
                    assert(p % PAGE_SIZE == 0) by (nonlinear_arith)
                        requires
                            p == self.base + i * 4096,
                            self.base % 4096 == 0,
                    ;
                    assert forall|q: u64| self.free_frames().contains(q) <==> before.remove(p).contains(q) by {
                        if self.free_frames().contains(q) {
                            let j = choose|j: usize| #[trigger] free_indices(self.inner).contains(j) && q == frame_paddr(self.base, j);
                            assert(j != i);
                            assert(q != p) by (nonlinear_arith)
                                requires
                                    q == self.base + j * 4096,
                                    p == self.base + i * 4096,
                                    j != i,
                            ;
                            assert(before_idx.contains(j));
                        }
                        if before.remove(p).contains(q) {
                            let j = choose|j: usize| #[trigger] before_idx.contains(j) && q == frame_paddr(self.base, j);
                            assert(j != i);
                            assert(free_indices(self.inner).contains(j));
                        }
                    }
                    assert(self.free_frames() =~= before.remove(p));
                }
                Some(p)
            },
            None => {
                assert(self.free_frames() =~= before);
                assert(before =~= Set::<u64>::empty());
                None
            },
        }
    }

    /// Takes `frame_count` contiguous free frames whose first frame index is
    /// a multiple of `2^align_log2`; returns the first frame's address.
    pub fn alloc_contiguous(&mut self, frame_count: usize, align_log2: usize) -> (r: Option<PhysAddr>)
        requires
            old(self).wf(),
            frame_count >= 1,
            align_log2 < 64,
        ensures
            final(self).wf(),
            final(self).spec_base() == old(self).spec_base(),
            match r {
                Some(p) => {
                    &&& p % PAGE_SIZE == 0
                    &&& forall|k: int| 0 <= k < frame_count ==> #[trigger] old(self).free_frames().contains((p + k * PAGE_SIZE) as u64)
                    &&& forall|k: int| 0 <= k < frame_count ==> !#[trigger] final(self).free_frames().contains((p + k * PAGE_SIZE) as u64)
                    &&& p + frame_count * PAGE_SIZE <= PHYS_LIMIT
                },
                None => {
                    &&& final(self).free_frames() == old(self).free_frames()
                    &&& align_log2 <= 20 ==> forall|base: usize|
                        #![trigger base as int % vstd::arithmetic::power2::pow2(align_log2 as nat) as int]
                        base as int % vstd::arithmetic::power2::pow2(align_log2 as nat) as int == 0 && base + frame_count
                            <= FRAME_CAPACITY ==> exists|k: int| 0 <= k < frame_count && !#[trigger] old(self).free_frames().contains(
                            frame_paddr(old(self).spec_base(), (base + k) as usize),
                        )
                },
            },
    {
        let ghost before = self.free_frames();
        let ghost before_idx = free_indices(self.inner);
        match bitmap_alloc_contiguous(&mut self.inner, frame_count, align_log2) {
            Some(i) => {
                assert(before_idx.contains(i));
                let ghost last = (i + frame_count - 1) as usize;
                assert(before_idx.contains(last));
                let p = self.base + (i as u64) * PAGE_SIZE;
                proof {
                    assert(p % PAGE_SIZE == 0) by (nonlinear_arith)
                        requires
                            p == self.base + i * 4096,
                            self.base % 4096 == 0,
                    ;
                    assert(p + frame_count * 4096 <= PHYS_LIMIT) by (nonlinear_arith)
                        requires
                            p == self.base + i * 4096,
                            i + frame_count - 1 < FRAME_CAPACITY,
                            self.base + FRAME_CAPACITY * 4096 <= PHYS_LIMIT,
                    ;
                    assert forall|k: int| 0 <= k < frame_count implies #[trigger] before.contains((p + k * PAGE_SIZE) as u64) by {
                        let j = (i + k) as usize;
                        assert(before_idx.contains(j));
                        assert((p + k * PAGE_SIZE) as u64 == frame_paddr(self.base, j)) by (nonlinear_arith)
                            requires
                                p == self.base + i * 4096,
                                j == i + k,
                                p + k * 4096 <= PHYS_LIMIT,
                        ;
                    }
                    assert forall|k: int| 0 <= k < frame_count implies !#[trigger] self.free_frames().contains((p + k * PAGE_SIZE) as u64) by {
                        if self.free_frames().contains((p + k * PAGE_SIZE) as u64) {
                            let j = choose|j: usize| #[trigger] free_indices(self.inner).contains(j) && (p + k * PAGE_SIZE) as u64 == frame_paddr(self.base, j);
                            assert(j == i + k) by (nonlinear_arith)
                                requires
                                    (p + k * 4096) == self.base + j * 4096,
                                    p == self.base + i * 4096,
                                    p + k * 4096 <= PHYS_LIMIT,
                            ;
                        }
                    }
                }
                Some(p)
            },
            None => {
                assert(self.free_frames() =~= before);
                proof {
                    if align_log2 <= 20 {
                        assert forall|base: usize|
                            #![trigger base as int % vstd::arithmetic::power2::pow2(align_log2 as nat) as int]
                            base as int % vstd::arithmetic::power2::pow2(align_log2 as nat) as int == 0 && base + frame_count
                                <= FRAME_CAPACITY implies exists|k: int| 0 <= k < frame_count && !#[trigger] old(self).free_frames().contains(
                                frame_paddr(old(self).spec_base(), (base + k) as usize),
                            ) by {
                            assert(exists|i: usize| base <= i < base + frame_count && !#[trigger] before_idx.contains(i));
                            let i = choose|i: usize| base <= i < base + frame_count && !before_idx.contains(i);
                            let k = i - base;
                            assert((base + k) as usize == i);
                            if before.contains(frame_paddr(self.base, i)) {
                                let j = choose|j: usize| #[trigger] before_idx.contains(j) && frame_paddr(self.base, i) == frame_paddr(self.base, j);
                                assert(j == i) by (nonlinear_arith)
                                    requires
                                        self.base + i * 4096 == self.base + j * 4096,
                                ;
                            }
                            assert(0 <= k < frame_count && !old(self).free_frames().contains(frame_paddr(old(self).spec_base(), (base + k) as usize)));
                        }
                    }
                }
                None
            },
        }
    }

    /// Whether `paddr` is a frame of this allocator's bitmap.
    pub open spec fn in_pool(&self, paddr: u64) -> bool {
        paddr >= self.spec_base() && (paddr - self.spec_base()) % (PAGE_SIZE as int) == 0 && (paddr
            - self.spec_base()) / (PAGE_SIZE as int) < FRAME_CAPACITY
    }

    /// Returns a frame to the free pool.
    pub fn dealloc_frame(&mut self, paddr: PhysAddr)
        requires
            old(self).wf(),
        ensures
            final(self).wf(),
            final(self).spec_base() == old(self).spec_base(),
            old(self).in_pool(paddr) ==> final(self).free_frames() == old(self).free_frames().insert(paddr),
            !old(self).in_pool(paddr) ==> final(self).free_frames() == old(self).free_frames(),
    {
        if paddr < self.base || (paddr - self.base) % PAGE_SIZE != 0 {
            return;
        }
        let i = (paddr - self.base) / PAGE_SIZE;
        if i >= FRAME_CAPACITY as u64 {
            return;
        }
        let ghost before = self.free_frames();
        let ghost before_idx = free_indices(self.inner);
        let key = i as usize;
        bitmap_dealloc(&mut self.inner, key);
        proof {
            assert(paddr == frame_paddr(self.base, key)) by (nonlinear_arith)
                requires
                    i == (paddr - self.base) / 4096,
                    (paddr - self.base) % 4096 == 0,
                    paddr >= self.base,
                    key == i,
            ;
            assert forall|q: u64| self.free_frames().contains(q) <==> before.insert(paddr).contains(q) by {
                if self.free_frames().contains(q) {
                    let j = choose|j: usize| #[trigger] free_indices(self.inner).contains(j) && q == frame_paddr(self.base, j);
                    if j != key {
                        assert(before_idx.contains(j));
                    }
                }
                if before.insert(paddr).contains(q) && q != paddr {
                    let j = choose|j: usize| #[trigger] before_idx.contains(j) && q == frame_paddr(self.base, j);
                    assert(free_indices(self.inner).contains(j));
                }
                if q == paddr {
                    assert(free_indices(self.inner).contains(key));
                }
            }
            assert(self.free_frames() =~= before.insert(paddr));
        }
    }
}

/// An owned run of physical frames; a frame adopted from a raw address
/// (`frame_count == 0`) is not owned and is never returned to the pool.
#[derive(Debug)]
pub struct Frame {
    start_paddr: PhysAddr,
    frame_count: usize,
}

impl Frame {
    /// The first byte of the frame.
    pub closed spec fn spec_start(&self) -> u64 {
        self.start_paddr
    }

    /// The number of owned frames.
    pub closed spec fn spec_count(&self) -> usize {
        self.frame_count
    }

    /// Page aligned, and inside the physical address range.
    pub open spec fn wf(&self) -> bool {
        &&& self.spec_start() % PAGE_SIZE == 0
        &&& self.spec_start() + self.spec_count() * PAGE_SIZE <= PHYS_LIMIT
        &&& self.spec_start() + PAGE_SIZE <= PHYS_LIMIT
    }

    /// Allocates one physical frame.
    pub fn new(allocator: &mut FrameAllocator) -> (r: HvResult<Self>)
        requires
            old(allocator).wf(),
        ensures
            final(allocator).wf(),
            final(allocator).spec_base() == old(allocator).spec_base(),
            match r {
                Ok(f) => {
                    &&& f.wf()
                    &&& f.spec_count() == 1
                    &&& old(allocator).free_frames().contains(f.spec_start())
                    &&& final(allocator).free_frames() == old(allocator).free_frames().remove(
                        f.spec_start(),
                    )
                },
                Err(e) => {
                    &&& e.spec_num() == HvErrorNum::ENOMEM
                    &&& final(allocator).free_frames() == old(allocator).free_frames()
                    &&& old(allocator).free_frames() == Set::<u64>::empty()
                },
            },
    {
        match allocator.alloc_frame() {
            Some(start_paddr) => Ok(Frame { start_paddr, frame_count: 1 }),
            None => Err(HvError::from_num(HvErrorNum::ENOMEM)),
        }
    }

    /// Allocates one physical frame and fills it with zero.
    pub fn new_zero(allocator: &mut FrameAllocator, mem: &mut PhysMemory) -> (r: HvResult<Self>)
        requires
            old(allocator).wf(),
        ensures
            final(allocator).wf(),
            final(allocator).spec_base() == old(allocator).spec_base(),
            match r {
                Ok(f) => {
                    &&& f.wf()
                    &&& f.spec_count() == 1
                    &&& old(allocator).free_frames().contains(f.spec_start())
                    &&& final(allocator).free_frames() == old(allocator).free_frames().remove(
                        f.spec_start(),
                    )
                    &&& forall|a: u64|
                        f.spec_start() <= a < f.spec_start() + PAGE_SIZE ==> word_at(final(mem)@, a) == 0
                            || a % 8 != 0
                    &&& forall|a: u64|
                        (a < f.spec_start() || a >= f.spec_start() + PAGE_SIZE) ==> word_at(
                            final(mem)@,
                            a,
                        ) == word_at(old(mem)@, a)
                },
                Err(e) => {
                    &&& e.spec_num() == HvErrorNum::ENOMEM
                    &&& final(allocator).free_frames() == old(allocator).free_frames()
                    &&& old(allocator).free_frames() == Set::<u64>::empty()
                    &&& final(mem)@ == old(mem)@
                },
            },
    {
        let f = Frame::new(allocator)?;
        f.zero(mem);
        Ok(f)
    }

    /// Allocates `frame_count` contiguous frames, the first aligned to
    /// `2^align_log2` frames.
    pub fn new_contiguous(frame_count: usize, align_log2: usize, allocator: &mut FrameAllocator) -> (r: HvResult<Self>)
        requires
            old(allocator).wf(),
            frame_count >= 1,
            align_log2 < 64,
        ensures
            final(allocator).wf(),
            match r {
                Ok(f) => {
                    &&& f.wf()
                    &&& f.spec_count() == frame_count
                    &&& forall|k: int| 0 <= k < frame_count ==> #[trigger] old(allocator).free_frames().contains(
                        (f.spec_start() + k * PAGE_SIZE) as u64,
                    )
                    &&& forall|k: int| 0 <= k < frame_count ==> !#[trigger] final(allocator).free_frames().contains(
                        (f.spec_start() + k * PAGE_SIZE) as u64,
                    )
                },
                Err(e) => {
                    &&& e.spec_num() == HvErrorNum::ENOMEM
                    &&& final(allocator).free_frames() == old(allocator).free_frames()
                    &&& align_log2 <= 20 ==> forall|base: usize|
                        #![trigger base as int % vstd::arithmetic::power2::pow2(align_log2 as nat) as int]
                        base as int % vstd::arithmetic::power2::pow2(align_log2 as nat) as int == 0 && base + frame_count
                            <= FRAME_CAPACITY ==> exists|k: int| 0 <= k < frame_count && !#[trigger] old(allocator).free_frames().contains(
                            frame_paddr(old(allocator).spec_base(), (base + k) as usize),
                        )
                },
            },
    {
        match allocator.alloc_contiguous(frame_count, align_log2) {
            Some(start_paddr) => {
                proof {
                    assert(start_paddr + PAGE_SIZE <= PHYS_LIMIT) by (nonlinear_arith)
                        requires
                            start_paddr + frame_count * 4096 <= PHYS_LIMIT,
                            frame_count >= 1,
                    ;
                }
                Ok(Frame { start_paddr, frame_count })
            },
            None => Err(HvError::from_num(HvErrorNum::ENOMEM)),
        }
    }

    /// Adopts the frame at `start_paddr` without owning it.
    pub fn from_paddr(start_paddr: PhysAddr) -> (r: Self)
        requires
            start_paddr % PAGE_SIZE == 0,
            start_paddr + PAGE_SIZE <= PHYS_LIMIT,
        ensures
            r.wf(),
            r.spec_start() == start_paddr,
            r.spec_count() == 0,
    {
        Frame { start_paddr, frame_count: 0 }
    }

    /// Get the start physical address of this frame.
    pub fn start_paddr(&self) -> (r: PhysAddr)
        ensures
            r == self.spec_start(),
    {
        self.start_paddr
    }

    /// Get the total size (in bytes) of this frame.
    pub fn size(&self) -> (r: u64)
        requires
            self.wf(),
        ensures
            r == self.spec_count() * PAGE_SIZE,
    {
        self.frame_count as u64 * PAGE_SIZE
    }

    /// Fills the first page of the frame with `byte`.
    pub fn fill(&self, mem: &mut PhysMemory, byte: u8)
        requires
            self.wf(),
        ensures
            forall|a: u64|
                self.spec_start() <= a < self.spec_start() + PAGE_SIZE && a % 8 == 0 ==> word_at(
                    final(mem)@,
                    a,
                ) == byte as u64 * 0x0101_0101_0101_0101u64,
            forall|a: u64|
                (a < self.spec_start() || a >= self.spec_start() + PAGE_SIZE) ==> word_at(final(mem)@, a)
                    == word_at(old(mem)@, a),
    {
        let w: u64 = byte as u64 * 0x0101_0101_0101_0101;
        let start = self.start_paddr;
        let mut j: u64 = 0;
        while j < 512
            invariant
                self.wf(),
                start == self.spec_start(),
                j <= 512,
                w == byte as u64 * 0x0101_0101_0101_0101u64,
                forall|a: u64| start <= a < start + 8 * j && a % 8 == 0 ==> word_at(mem@, a) == w,
                forall|a: u64| (a < start || a >= start + 8 * j) ==> word_at(mem@, a) == word_at(old(mem)@, a),
            decreases 512 - j,
        {
            mem.write(start + 8 * j, w);
            proof {
                assert forall|a: u64| start <= a < start + 8 * (j + 1) && a % 8 == 0 implies word_at(mem@, a) == w by {
                    if a != start + 8 * j {
                        assert(a < start + 8 * j) by {
                            assert(start % 8 == 0) by {
                                assert(start % 4096 == 0);
                            }
                        }
                    }
                }
            }
            j = j + 1;
        }
    }

    /// Fills the first page of the frame with zero.
    pub fn zero(&self, mem: &mut PhysMemory)
        requires
            self.wf(),
        ensures
            forall|a: u64|
                self.spec_start() <= a < self.spec_start() + PAGE_SIZE ==> word_at(final(mem)@, a) == 0
                    || a % 8 != 0,
            forall|a: u64|
                (a < self.spec_start() || a >= self.spec_start() + PAGE_SIZE) ==> word_at(final(mem)@, a)
                    == word_at(old(mem)@, a),
    {
        self.fill(mem, 0);
    }

    /// Returns the owned frames to the pool; an adopted frame is left alone.
    pub fn dealloc(self, allocator: &mut FrameAllocator)
        requires
            old(allocator).wf(),
            self.wf(),
        ensures
            final(allocator).wf(),
            final(allocator).spec_base() == old(allocator).spec_base(),
            forall|k: int|
                0 <= k < self.spec_count() && old(allocator).in_pool((self.spec_start() + k * PAGE_SIZE) as u64)
                    ==> #[trigger] final(allocator).free_frames().contains((self.spec_start() + k * PAGE_SIZE) as u64),
            old(allocator).free_frames().subset_of(final(allocator).free_frames()),
    {
        let mut k: usize = 0;
        while k < self.frame_count
            invariant
                allocator.wf(),
                allocator.spec_base() == old(allocator).spec_base(),
                self.wf(),
                k <= self.frame_count,
                old(allocator).free_frames().subset_of(allocator.free_frames()),
                forall|j: int|
                    0 <= j < k && old(allocator).in_pool((self.spec_start() + j * PAGE_SIZE) as u64)
                        ==> #[trigger] allocator.free_frames().contains((self.spec_start() + j * PAGE_SIZE) as u64),
            decreases self.frame_count - k,
        {
            proof {
                assert(self.start_paddr + k * PAGE_SIZE < PHYS_LIMIT) by (nonlinear_arith)
                    requires
                        k < self.frame_count,
                        self.start_paddr + self.frame_count * 4096 <= PHYS_LIMIT,
                ;
            }
            allocator.dealloc_frame(self.start_paddr + k as u64 * PAGE_SIZE);
            k = k + 1;
        }
    }
}

} // verus!
