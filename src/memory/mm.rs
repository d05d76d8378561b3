//! A memory set: non-overlapping regions over one page table.

use vstd::prelude::*;

use super::frame::FrameAllocator;
use super::mapper::MemoryRegion;
use super::pagetable::{lemma_leaves_fit_same, block_inside, block_outside, greedy_frames_ok, lemma_greedy_from_room, lemma_region_room_same, region_keeps_room, greedy_ok, leaves_fit, region_in_half, region_mapped, single_page_mappable, Level4PageTable};
use super::paging::can_map;
use super::paging::{is_canonical, GenericPTE, MemFlags, PageSize, PagingError, PagingInstr, PagingResult};
use crate::error::{HvError, HvErrorNum, HvResult};

verus! {

/// Whether two regions share an address.
pub open spec fn regions_overlap(a: MemoryRegion, b: MemoryRegion) -> bool {
    a.start < b.start + b.size && b.start < a.start + a.size
}

/// A region the page table can map: page aligned, inside one canonical
/// half, with at least one flag.
pub open spec fn region_valid(r: MemoryRegion) -> bool {
    &&& r.start % 0x1000 == 0
    &&& r.size % 0x1000 == 0
    &&& region_in_half(r.start, r.size)
    &&& r.flags.bits != 0
}

/// Regions a memory set can be built from: each valid with its frames in
/// the physical range, no two overlapping.
pub open spec fn regions_buildable(rs: Seq<MemoryRegion>) -> bool {
    &&& forall|i: int|
        0 <= i < rs.len() ==> region_valid(#[trigger] rs[i]) && greedy_frames_ok(rs[i], rs[i].start, rs[i].size)
    &&& forall|i: int, j: int|
        0 <= i < rs.len() && 0 <= j < rs.len() && i != j ==> !regions_overlap(#[trigger] rs[i], #[trigger] rs[j])
}

/// The regions of a memory set and the page table that maps them.
pub struct MemorySet<PTE: GenericPTE, I: PagingInstr> {
    regions: Vec<MemoryRegion>,
    pt: Level4PageTable<PTE, I>,
}

impl<PTE: GenericPTE, I: PagingInstr> MemorySet<PTE, I> {
    /// The regions, in insertion order.
    pub closed spec fn spec_regions(&self) -> Seq<MemoryRegion> {
        self.regions@
    }

    /// The backing page table.
    pub closed spec fn spec_pt(&self) -> Level4PageTable<PTE, I> {
        self.pt
    }

    /// What `query(vaddr)` returns.
    pub open spec fn query_of(&self, vaddr: u64) -> PagingResult<(u64, MemFlags, PageSize)> {
        self.spec_pt().query_of(vaddr)
    }

    /// Every region is valid, no two overlap, and every byte of every region
    /// is mapped by its mapper with at least its permissions.
    pub open spec fn wf(&self) -> bool {
        &&& self.spec_pt().wf()
        &&& forall|i: int| 0 <= i < self.spec_regions().len() ==> region_valid(#[trigger] self.spec_regions()[i])
        &&& forall|i: int, j: int|
            0 <= i < self.spec_regions().len() && 0 <= j < self.spec_regions().len() && i != j
                ==> !regions_overlap(#[trigger] self.spec_regions()[i], #[trigger] self.spec_regions()[j])
        &&& forall|i: int, v: u64|
            0 <= i < self.spec_regions().len() && (#[trigger] self.spec_regions()[i]).contains_addr(v)
                ==> region_mapped::<PTE>(#[trigger] self.query_of(v), self.spec_regions()[i], v)
        &&& forall|i: int|
            0 <= i < self.spec_regions().len() ==> leaves_fit(
                self.spec_pt(),
                (#[trigger] self.spec_regions()[i]).start,
                self.spec_regions()[i].start + self.spec_regions()[i].size,
            )
    }

    /// No table of the set's page table is a free frame of `allocator`.
    pub open spec fn fresh_in(&self, allocator: &FrameAllocator) -> bool {
        self.spec_pt().fresh_in(allocator)
    }

    /// An empty memory set over a fresh page table.
    pub fn new(allocator: &mut FrameAllocator) -> (r: HvResult<Self>)
        requires
            old(allocator).wf(),
        ensures
            final(allocator).wf(),
            final(allocator).free_frames().subset_of(old(allocator).free_frames()),
            match r {
                Ok(ms) => {
                    &&& ms.wf()
                    &&& ms.fresh_in(&*final(allocator))
                    &&& ms.spec_regions().len() == 0
                    &&& forall|v: u64, l: nat| 2 <= l <= 4 ==> #[trigger] can_map::<PTE>(ms.spec_pt().spec_mem(), ms.spec_pt().spec_root(), 1, v, l)
                    &&& room_outside(ms)
                    &&& forall|v: u64| #[trigger] ms.query_of(v) == Err::<(u64, MemFlags, PageSize), PagingError>(PagingError::NotMapped)
                },
                Err(e) => e.spec_num() == HvErrorNum::ENOMEM && old(allocator).free_frames() == Set::<u64>::empty(),
            },
    {
        let pt = match Level4PageTable::new(allocator) {
            Ok(pt) => pt,
            Err(_) => return Err(HvError::from_num(HvErrorNum::ENOMEM)),
        };
        Ok(MemorySet { regions: Vec::new(), pt })
    }

    /// Whether `region` overlaps a region of the set.
    fn overlaps(&self, region: &MemoryRegion) -> (r: bool)
        ensures
            r == exists|i: int| 0 <= i < self.spec_regions().len() && regions_overlap(#[trigger] self.spec_regions()[i], *region),
    {
        let mut i: usize = 0;
        while i < self.regions.len()
            invariant
                i <= self.regions.len(),
                forall|k: int| 0 <= k < i ==> !regions_overlap(#[trigger] self.regions@[k], *region),
            decreases self.regions.len() - i,
        {
            let r = self.regions[i];
            if (r.start as u128) < region.start as u128 + region.size as u128 && (region.start as u128) < r.start as u128 + r.size as u128 {
                assert(regions_overlap(self.spec_regions()[i as int], *region));
                return true;
            }
            i = i + 1;
        }
        assert forall|k: int| 0 <= k < self.spec_regions().len() implies !regions_overlap(#[trigger] self.spec_regions()[k], *region) by {
            assert(self.spec_regions()[k] == self.regions@[k]);
        }
        false
    }

    /// Maps `region` and records it. Fails with `EINVAL` for a region the
    /// page table cannot map and with `EEXIST` for one that overlaps the
    /// set; in both cases nothing changes.
    pub fn insert(&mut self, region: MemoryRegion, allocator: &mut FrameAllocator) -> (r: HvResult)
        requires
            old(self).wf(),
            old(allocator).wf(),
            old(self).fresh_in(&*old(allocator)),
        ensures
            final(self).wf(),
            final(allocator).wf(),
            final(self).fresh_in(&*final(allocator)),
            final(allocator).free_frames().subset_of(old(allocator).free_frames()),
            r is Err && r->Err_0.spec_num() == HvErrorNum::ENOMEM ==> final(allocator).free_frames() == Set::<u64>::empty(),
            region_valid(region) && !(exists|i: int| 0 <= i < old(self).spec_regions().len() && regions_overlap(
                #[trigger] old(self).spec_regions()[i],
                region,
            )) && single_page_mappable::<PTE>(old(self).spec_pt().spec_mem(), old(self).spec_pt().spec_root(), region)
                ==> r is Ok || r->Err_0.spec_num() == HvErrorNum::ENOMEM,
            region_valid(region) && !(exists|i: int| 0 <= i < old(self).spec_regions().len() && regions_overlap(
                #[trigger] old(self).spec_regions()[i],
                region,
            )) && greedy_ok::<PTE>(old(self).spec_pt().spec_mem(), old(self).spec_pt().spec_root(), region, region.start, region.size)
                ==> r is Ok || r->Err_0.spec_num() == HvErrorNum::ENOMEM,
            (exists|v: u64| region.contains_addr(v) && (#[trigger] old(self).query_of(v)) is Ok) ==> r is Err,
            region_keeps_room::<PTE>(old(self).spec_pt().spec_mem(), final(self).spec_pt().spec_mem(), old(self).spec_pt().spec_root(), region),
            final(self).spec_pt().spec_root() == old(self).spec_pt().spec_root(),
            r is Err ==> r->Err_0.spec_num() == HvErrorNum::EINVAL || r->Err_0.spec_num() == HvErrorNum::EEXIST
                || r->Err_0.spec_num() == HvErrorNum::ENOMEM || r->Err_0.spec_num() == HvErrorNum::EFAULT
                || r->Err_0.spec_num() == HvErrorNum::ERANGE,
            !region_valid(region) ==> r is Err && r->Err_0.spec_num() == HvErrorNum::EINVAL,
            region_valid(region) && (exists|i: int| 0 <= i < old(self).spec_regions().len() && regions_overlap(
                #[trigger] old(self).spec_regions()[i],
                region,
            )) ==> r is Err && r->Err_0.spec_num() == HvErrorNum::EEXIST,
            r is Err && (r->Err_0.spec_num() == HvErrorNum::EINVAL || r->Err_0.spec_num() == HvErrorNum::EEXIST) ==> final(self).spec_regions() == old(self).spec_regions()
                && forall|v: u64| #[trigger] final(self).query_of(v) == old(self).query_of(v),
            r is Err ==> final(self).spec_regions() == old(self).spec_regions(),
            r is Ok ==> final(self).spec_regions() == old(self).spec_regions().push(region),
            forall|v: u64|
                #![trigger final(self).query_of(v)]
                is_canonical(v) && !region.contains_addr(v) ==> final(self).query_of(v) == old(self).query_of(v),
    {
        proof {
            lemma_region_room_same::<PTE>(self.pt.spec_mem(), self.pt.spec_root(), region);
        }
        if region.start % 0x1000 != 0 || region.size % 0x1000 != 0 || region.flags.is_empty() {
            return Err(HvError::from_num(HvErrorNum::EINVAL));
        }
        let in_low = region.size <= 0x8000_0000_0000 && region.start <= 0x8000_0000_0000 - region.size;
        let in_high = region.start >= 0xffff_8000_0000_0000 && region.size < 0xffff_ffff_ffff_ffff - region.start + 1;
        if !in_low && !in_high {
            return Err(HvError::from_num(HvErrorNum::EINVAL));
        }
        if self.overlaps(&region) {
            return Err(HvError::from_num(HvErrorNum::EEXIST));
        }
        let ghost before = self.pt;
        let res = self.pt.map(&region, allocator);
        proof {
            assert forall|i: int, v: u64|
                0 <= i < self.spec_regions().len() && (#[trigger] self.spec_regions()[i]).contains_addr(v)
                    implies region_mapped::<PTE>(#[trigger] self.query_of(v), self.spec_regions()[i], v) by {
                assert(old(self).spec_regions()[i] == self.spec_regions()[i]);
                assert(before.query_of(v) == old(self).query_of(v));
            }
            assert forall|i: int| 0 <= i < self.spec_regions().len() implies leaves_fit(
                self.spec_pt(),
                (#[trigger] self.spec_regions()[i]).start,
                self.spec_regions()[i].start + self.spec_regions()[i].size,
            ) by {
                let rk = self.spec_regions()[i];
                assert(rk == old(self).spec_regions()[i]);
                assert(leaves_fit(before, rk.start, rk.start + rk.size));
                assert forall|w: u64| rk.start <= w < rk.start + rk.size implies #[trigger] self.pt.query_of(w)
                    == before.query_of(w) by {
                    assert(rk.contains_addr(w));
                    assert(!regions_overlap(rk, region));
                    assert(region_valid(rk));
                }
                lemma_leaves_fit_same(before, self.pt, rk.start, rk.start + rk.size);
            }
        }
        match res {
            Ok(()) => {
                let ghost regs = self.regions@;
                let ghost pt1 = self.pt;
                proof {
                    assert forall|i: int, v: u64| 0 <= i < regs.len() && (#[trigger] regs[i]).contains_addr(v) implies region_mapped::<PTE>(
                        #[trigger] pt1.query_of(v),
                        regs[i],
                        v,
                    ) by {
                        assert(self.spec_regions()[i] == regs[i]);
                        assert(region_mapped::<PTE>(self.query_of(v), self.spec_regions()[i], v));
                    }
                }
                self.regions.push(region);
                proof {
                    assert forall|i: int| 0 <= i < self.spec_regions().len() implies region_valid(#[trigger] self.spec_regions()[i]) by {
                        if i < regs.len() {
                            assert(self.spec_regions()[i] == regs[i]);
                        }
                    }
                    assert forall|i: int, j: int|
                        0 <= i < self.spec_regions().len() && 0 <= j < self.spec_regions().len() && i != j
                            implies !regions_overlap(#[trigger] self.spec_regions()[i], #[trigger] self.spec_regions()[j]) by {
                        if i < regs.len() {
                            assert(self.spec_regions()[i] == regs[i]);
                        }
                        if j < regs.len() {
                            assert(self.spec_regions()[j] == regs[j]);
                        }
                    }
                    assert forall|i: int, v: u64|
                        0 <= i < self.spec_regions().len() && (#[trigger] self.spec_regions()[i]).contains_addr(v)
                            implies region_mapped::<PTE>(#[trigger] self.query_of(v), self.spec_regions()[i], v) by {
                        if i < regs.len() {
                            assert(self.spec_regions()[i] == regs[i]);
                            assert(region_mapped::<PTE>(pt1.query_of(v), regs[i], v));
                        } else {
                            assert(self.spec_regions()[i] == region);
                        }
                    }
                    assert forall|i: int| 0 <= i < self.spec_regions().len() implies leaves_fit(
                        self.spec_pt(),
                        (#[trigger] self.spec_regions()[i]).start,
                        self.spec_regions()[i].start + self.spec_regions()[i].size,
                    ) by {
                        if i < regs.len() {
                            let rk = regs[i];
                            assert(self.spec_regions()[i] == rk);
                            assert(rk == old(self).spec_regions()[i]);
                            assert(leaves_fit(before, rk.start, rk.start + rk.size));
                            assert forall|w: u64| rk.start <= w < rk.start + rk.size implies #[trigger] pt1.query_of(w)
                                == before.query_of(w) by {
                                assert(rk.contains_addr(w));
                                assert(!regions_overlap(rk, region));
                            }
                            lemma_leaves_fit_same(before, pt1, rk.start, rk.start + rk.size);
                        }
                    }
                }
                Ok(())
            },
            Err(e) => Err(e),
        }
    }

    /// Removes the region that starts at `start` and unmaps it.
    pub fn delete(&mut self, start: u64) -> (r: HvResult)
        requires
            old(self).wf(),
        ensures
            final(self).wf(),
            !(exists|i: int| 0 <= i < old(self).spec_regions().len() && (#[trigger] old(self).spec_regions()[i]).start == start)
                ==> r is Err && r->Err_0.spec_num() == HvErrorNum::ENOENT && final(self).spec_regions() == old(self).spec_regions()
                && forall|v: u64| #[trigger] final(self).query_of(v) == old(self).query_of(v),
            r is Ok ==> exists|i: int|
                0 <= i < old(self).spec_regions().len() && (#[trigger] old(self).spec_regions()[i]).start == start
                    && final(self).spec_regions() == old(self).spec_regions().remove(i)
                    && forall|v: u64|
                        #![trigger final(self).query_of(v)]
                        old(self).spec_regions()[i].contains_addr(v) ==> final(self).query_of(v) == Err::<(u64, MemFlags, PageSize), PagingError>(
                            PagingError::NotMapped,
                        ),
            (exists|i: int| 0 <= i < old(self).spec_regions().len() && (#[trigger] old(self).spec_regions()[i]).start == start)
                ==> r is Ok,
    {
        let mut i: usize = self.regions.len();
        let mut k0: usize = 0;
        while k0 < self.regions.len()
            invariant
                k0 <= self.regions.len(),
                i == self.regions.len() ==> forall|k: int| 0 <= k < k0 ==> (#[trigger] self.regions@[k]).start != start,
                i < self.regions.len() ==> self.regions@[i as int].start == start,
                i <= self.regions.len(),
            decreases self.regions.len() - k0,
        {
            if i == self.regions.len() && self.regions[k0].start == start {
                i = k0;
            }
            k0 = k0 + 1;
        }
        if i == self.regions.len() {
            proof {
                assert forall|k: int| 0 <= k < old(self).spec_regions().len() implies (#[trigger] old(self).spec_regions()[k]).start != start by {
                    assert(old(self).spec_regions()[k] == self.regions@[k]);
                }
            }
            return Err(HvError::from_num(HvErrorNum::ENOENT));
        }
        let ghost regs = self.regions@;
        let region = self.regions.remove(i);
        let ghost before = self.pt;
        proof {
            assert(regs[i as int] == region);
            assert(region_valid(old(self).spec_regions()[i as int]));
            assert forall|k: int| 0 <= k < regs.len() implies region_valid(#[trigger] regs[k]) by {
                assert(region_valid(old(self).spec_regions()[k]));
            }
            assert forall|a: int, b: int| 0 <= a < regs.len() && 0 <= b < regs.len() && a != b implies !regions_overlap(#[trigger] regs[a], #[trigger] regs[b]) by {
                assert(!regions_overlap(old(self).spec_regions()[a], old(self).spec_regions()[b]));
            }
            assert forall|k: int, v: u64| 0 <= k < regs.len() && (#[trigger] regs[k]).contains_addr(v) implies region_mapped::<PTE>(#[trigger] old(self).query_of(v), regs[k], v) by {
                assert(region_mapped::<PTE>(old(self).query_of(v), old(self).spec_regions()[k], v));
            }
        }
        proof {
            assert(old(self).spec_regions()[i as int].start == start);
            assert(leaves_fit(old(self).spec_pt(), region.start, region.start + region.size));
        }
        let res = self.pt.unmap(&region);
        proof {
            assert forall|k: int| 0 <= k < self.spec_regions().len() implies region_valid(#[trigger] self.spec_regions()[k]) by {
                if k < i {
                    assert(self.spec_regions()[k] == regs[k]);
                } else {
                    assert(self.spec_regions()[k] == regs[k + 1]);
                }
            }
            assert forall|a: int, b: int|
                0 <= a < self.spec_regions().len() && 0 <= b < self.spec_regions().len() && a != b
                    implies !regions_overlap(#[trigger] self.spec_regions()[a], #[trigger] self.spec_regions()[b]) by {
                let a2 = if a < i { a } else { a + 1 };
                let b2 = if b < i { b } else { b + 1 };
                assert(self.spec_regions()[a] == regs[a2]);
                assert(self.spec_regions()[b] == regs[b2]);
            }
            assert forall|k: int, v: u64|
                0 <= k < self.spec_regions().len() && (#[trigger] self.spec_regions()[k]).contains_addr(v)
                    implies region_mapped::<PTE>(#[trigger] self.query_of(v), self.spec_regions()[k], v) by {
                let k2 = if k < i { k } else { k + 1 };
                assert(self.spec_regions()[k] == regs[k2]);
                assert(!regions_overlap(regs[k2], regs[i as int]));
                assert(region_valid(regs[k2]));
                assert(before.query_of(v) == old(self).query_of(v));
            }
            assert forall|k: int| 0 <= k < self.spec_regions().len() implies leaves_fit(
                self.spec_pt(),
                (#[trigger] self.spec_regions()[k]).start,
                self.spec_regions()[k].start + self.spec_regions()[k].size,
            ) by {
                let k2 = if k < i { k } else { k + 1 };
                let rk = regs[k2];
                assert(self.spec_regions()[k] == rk);
                assert(rk == old(self).spec_regions()[k2]);
                assert(leaves_fit(before, rk.start, rk.start + rk.size));
                assert forall|w: u64| rk.start <= w < rk.start + rk.size implies #[trigger] self.pt.query_of(w)
                    == before.query_of(w) by {
                    assert(rk.contains_addr(w));
                    assert(!regions_overlap(rk, regs[i as int]));
                    assert(region_valid(rk));
                }
                lemma_leaves_fit_same(before, self.pt, rk.start, rk.start + rk.size);
            }
            assert(self.spec_regions() =~= regs.remove(i as int));
            assert(old(self).spec_regions()[i as int].start == start);
        }
        res
    }

    /// Looks up the mapping of `vaddr`.
    pub fn query(&self, vaddr: u64) -> (r: PagingResult<(u64, MemFlags, PageSize)>)
        requires
            self.wf(),
        ensures
            r == self.query_of(vaddr),
    {
        self.pt.query(vaddr)
    }

    /// A copy of the set whose page table shares the lower tables.
    pub fn clone_set(&self, allocator: &mut FrameAllocator) -> (r: HvResult<Self>)
        requires
            self.wf(),
            old(allocator).wf(),
            self.fresh_in(&*old(allocator)),
        ensures
            final(allocator).wf(),
            final(allocator).free_frames().subset_of(old(allocator).free_frames()),
            self.fresh_in(&*final(allocator)),
            match r {
                Ok(c) => {
                    &&& c.wf()
                    &&& c.fresh_in(&*final(allocator))
                    &&& c.spec_pt().spec_root() != self.spec_pt().spec_root()
                    &&& c.spec_regions() == self.spec_regions()
                    &&& forall|v: u64| #[trigger] c.query_of(v) == self.query_of(v)
                },
                Err(e) => e.spec_num() == HvErrorNum::ENOMEM && old(allocator).free_frames() == Set::<u64>::empty(),
            },
    {
        let pt = match self.pt.clone_table(allocator) {
            Ok(pt) => pt,
            Err(e) => return Err(e),
        };
        let mut regions: Vec<MemoryRegion> = Vec::new();
        let mut i: usize = 0;
        while i < self.regions.len()
            invariant
                i <= self.regions.len(),
                regions@ == self.regions@.subrange(0, i as int),
            decreases self.regions.len() - i,
        {
            regions.push(self.regions[i]);
            i = i + 1;
        }
        assert(regions@ =~= self.regions@);
        let c = MemorySet { regions, pt };
        proof {
            assert(c.spec_regions() == self.spec_regions());
            assert forall|i: int| 0 <= i < c.spec_regions().len() implies region_valid(#[trigger] c.spec_regions()[i]) by {
                assert(region_valid(self.spec_regions()[i]));
            }
            assert forall|i: int, j: int|
                0 <= i < c.spec_regions().len() && 0 <= j < c.spec_regions().len() && i != j
                    implies !regions_overlap(#[trigger] c.spec_regions()[i], #[trigger] c.spec_regions()[j]) by {
                assert(!regions_overlap(self.spec_regions()[i], self.spec_regions()[j]));
            }
            assert forall|i: int, v: u64|
                0 <= i < c.spec_regions().len() && (#[trigger] c.spec_regions()[i]).contains_addr(v)
                    implies region_mapped::<PTE>(#[trigger] c.query_of(v), c.spec_regions()[i], v) by {
                assert(c.spec_regions()[i] == self.spec_regions()[i]);
                assert(c.query_of(v) == self.query_of(v));
                assert(region_mapped::<PTE>(self.query_of(v), self.spec_regions()[i], v));
            }
            assert forall|i: int| 0 <= i < c.spec_regions().len() implies leaves_fit(
                c.spec_pt(),
                (#[trigger] c.spec_regions()[i]).start,
                c.spec_regions()[i].start + c.spec_regions()[i].size,
            ) by {
                let rk = self.spec_regions()[i];
                assert(c.spec_regions()[i] == rk);
                assert(leaves_fit(self.spec_pt(), rk.start, rk.start + rk.size));
                assert(region_valid(rk));
                assert forall|w: u64| rk.start <= w < rk.start + rk.size implies #[trigger] c.spec_pt().query_of(w)
                    == self.spec_pt().query_of(w) by {
                    assert(c.query_of(w) == self.query_of(w));
                }
                lemma_leaves_fit_same(self.spec_pt(), c.spec_pt(), rk.start, rk.start + rk.size);
            }
        }
        Ok(c)
    }

    /// The register value that installs this set's page table.
    pub fn activate(&self) -> (r: u64)
        requires
            self.wf(),
        ensures
            r == I::spec_activate(self.spec_pt().spec_root()),
    {
        self.pt.activate()
    }

    /// The backing page table.
    pub fn page_table(&self) -> (r: &Level4PageTable<PTE, I>)
        ensures
            *r == self.spec_pt(),
    {
        &self.pt
    }

    /// The number of regions.
    pub fn len(&self) -> (r: usize)
        ensures
            r == self.spec_regions().len(),
    {
        self.regions.len()
    }
}

/// Every byte of every region of a well-formed memory set is mapped by
/// the region's mapper, with at least the region's access permissions; a
/// huge page maps a frame aligned to its size, and a region marked
/// NO_HUGEPAGES uses 4 KiB pages only.
pub proof fn lemma_region_mapped<PTE: GenericPTE, I: PagingInstr>(ms: MemorySet<PTE, I>, i: int, vaddr: u64)
    requires
        ms.wf(),
        0 <= i < ms.spec_regions().len(),
        ms.spec_regions()[i].contains_addr(vaddr),
    ensures
        ms.query_of(vaddr) is Ok,
        ms.query_of(vaddr)->Ok_0.1.spec_contains(ms.spec_regions()[i].flags.bits & PTE::spec_kept_flags()),
        ms.query_of(vaddr)->Ok_0.0 == super::pagetable::page_target(
            ms.spec_regions()[i].mapper,
            vaddr,
            ms.query_of(vaddr)->Ok_0.2,
        ),
        ms.query_of(vaddr)->Ok_0.2 != PageSize::Size4K ==> ms.spec_regions()[i].mapper.spec_map(
            (vaddr - vaddr % ms.query_of(vaddr)->Ok_0.2.spec_bytes()) as u64,
        ) % ms.query_of(vaddr)->Ok_0.2.spec_bytes() == 0,
        ms.spec_regions()[i].flags.spec_contains(MemFlags::NO_HUGEPAGES) ==> ms.query_of(vaddr)->Ok_0.2
            == PageSize::Size4K,
{
    assert(region_mapped::<PTE>(ms.query_of(vaddr), ms.spec_regions()[i], vaddr));
}

/// The page table has room for a leaf of every level at every canonical
/// address whose block lies outside all the set's regions.
pub open spec fn room_outside<PTE: GenericPTE, I: PagingInstr>(ms: MemorySet<PTE, I>) -> bool {
    forall|w: u64, lw: nat|
        2 <= lw <= 4 && is_canonical(w) && (forall|k: int|
            0 <= k < ms.spec_regions().len() ==> block_outside(w, lw, #[trigger] ms.spec_regions()[k]))
            ==> #[trigger] can_map::<PTE>(ms.spec_pt().spec_mem(), ms.spec_pt().spec_root(), 1, w, lw)
}

/// Inserting a region keeps room outside the regions.
pub proof fn lemma_insert_room<PTE: GenericPTE, I: PagingInstr>(ms: MemorySet<PTE, I>, ms2: MemorySet<PTE, I>, region: MemoryRegion)
    requires
        room_outside(ms),
        region_keeps_room::<PTE>(ms.spec_pt().spec_mem(), ms2.spec_pt().spec_mem(), ms.spec_pt().spec_root(), region),
        ms2.spec_pt().spec_root() == ms.spec_pt().spec_root(),
        ms2.spec_regions() == ms.spec_regions().push(region),
    ensures
        room_outside(ms2),
{
    assert forall|w: u64, lw: nat|
        2 <= lw <= 4 && is_canonical(w) && (forall|k: int|
            0 <= k < ms2.spec_regions().len() ==> block_outside(w, lw, #[trigger] ms2.spec_regions()[k]))
            implies #[trigger] can_map::<PTE>(ms2.spec_pt().spec_mem(), ms2.spec_pt().spec_root(), 1, w, lw) by {
        assert forall|k: int| 0 <= k < ms.spec_regions().len() implies block_outside(w, lw, #[trigger] ms.spec_regions()[k]) by {
            assert(ms2.spec_regions()[k] == ms.spec_regions()[k]);
        }
        assert(block_outside(w, lw, ms2.spec_regions()[ms.spec_regions().len() as int]));
        assert(can_map::<PTE>(ms.spec_pt().spec_mem(), ms.spec_pt().spec_root(), 1, w, lw));
    }
}

/// A valid region that overlaps none of the set's regions and has its
/// frames in range has room for every page `map` would pick.
pub proof fn lemma_room_for_region<PTE: GenericPTE, I: PagingInstr>(ms: MemorySet<PTE, I>, region: MemoryRegion)
    requires
        room_outside(ms),
        region_valid(region),
        greedy_frames_ok(region, region.start, region.size),
        forall|k: int| 0 <= k < ms.spec_regions().len() ==> !regions_overlap(#[trigger] ms.spec_regions()[k], region),
    ensures
        greedy_ok::<PTE>(ms.spec_pt().spec_mem(), ms.spec_pt().spec_root(), region, region.start, region.size),
{
    assert forall|w: u64, lw: nat|
        2 <= lw <= 4 && is_canonical(w) && block_inside(w, lw, region) implies #[trigger] can_map::<PTE>(
            ms.spec_pt().spec_mem(),
            ms.spec_pt().spec_root(),
            1,
            w,
            lw,
        ) by {
        assert forall|k: int| 0 <= k < ms.spec_regions().len() implies block_outside(w, lw, #[trigger] ms.spec_regions()[k]) by {
            assert(!regions_overlap(ms.spec_regions()[k], region));
        }
    }
    lemma_greedy_from_room::<PTE>(ms.spec_pt().spec_mem(), ms.spec_pt().spec_root(), region, region.start, region.size);
}

} // verus!
