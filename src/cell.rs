//! The root cell: the one guest, with its configuration and its
//! guest-physical memory set.

use vstd::prelude::*;

use crate::config::{CellConfig, HvMemoryRegion, HvSystemConfig};
use crate::error::{HvErrorNum, HvResult};
use crate::memory::frame::FrameAllocator;
use crate::memory::init::offset_region;
use crate::memory::mapper::{Mapper, MemoryRegion};
use crate::memory::mm::{lemma_insert_room, lemma_room_for_region, regions_buildable, regions_overlap, room_outside, MemorySet};
use crate::memory::paging::{GenericPTE, MemFlags, PagingInstr};

verus! {

/// The regions of the root cell's memory set: the hypervisor's memory on
/// the empty page, then each configured region.
pub open spec fn root_cell_regions(sys_config: HvSystemConfig, mem_regions: Seq<HvMemoryRegion>, empty_page_paddr: u64) -> Seq<MemoryRegion> {
    Seq::new(
        (mem_regions.len() + 1) as nat,
        |i: int|
            if i == 0 {
                MemoryRegion {
                    start: sys_config.hypervisor_memory.phys_start,
                    size: sys_config.hypervisor_memory.size,
                    flags: MemFlags { bits: MemFlags::READ | MemFlags::NO_HUGEPAGES },
                    mapper: Mapper::Fixed(empty_page_paddr),
                }
            } else {
                offset_region(
                    mem_regions[i - 1].virt_start,
                    mem_regions[i - 1].phys_start,
                    mem_regions[i - 1].size,
                    mem_regions[i - 1].flags,
                )
            },
    )
}

/// The sole guest.
pub struct Cell<PTE: GenericPTE, I: PagingInstr> {
    /// Cell configuration.
    pub config: CellConfig,
    /// Guest physical memory set.
    pub gpm: MemorySet<PTE, I>,
}

impl<PTE: GenericPTE, I: PagingInstr> Cell<PTE, I> {
    /// The root cell: the hypervisor's own memory maps to the empty page at
    /// `empty_page_paddr` (read only, 4 KiB pages), and every memory region
    /// of the configuration maps as configured.
    pub fn new_root(
        sys_config: &HvSystemConfig,
        mem_regions: &Vec<HvMemoryRegion>,
        empty_page_paddr: u64,
        allocator: &mut FrameAllocator,
    ) -> (r: HvResult<Self>)
        requires
            old(allocator).wf(),
        ensures
            final(allocator).wf(),
            final(allocator).free_frames().subset_of(old(allocator).free_frames()),
            r is Ok ==> {
                let gpm = r->Ok_0.gpm;
                &&& gpm.wf()
                &&& gpm.fresh_in(&*final(allocator))
                &&& gpm.spec_regions().len() == mem_regions@.len() + 1
                &&& gpm.spec_regions()[0] == (MemoryRegion {
                    start: sys_config.hypervisor_memory.phys_start,
                    size: sys_config.hypervisor_memory.size,
                    flags: MemFlags { bits: MemFlags::READ | MemFlags::NO_HUGEPAGES },
                    mapper: Mapper::Fixed(empty_page_paddr),
                })
                &&& forall|i: int|
                    0 <= i < mem_regions@.len() ==> #[trigger] gpm.spec_regions()[i + 1] == offset_region(
                        mem_regions@[i].virt_start,
                        mem_regions@[i].phys_start,
                        mem_regions@[i].size,
                        mem_regions@[i].flags,
                    )
                &&& r->Ok_0.config.desc == sys_config.root_cell
            },
            regions_buildable(root_cell_regions(*sys_config, mem_regions@, empty_page_paddr)) ==> r is Ok || (
            r->Err_0.spec_num() == HvErrorNum::ENOMEM && final(allocator).free_frames() == Set::<u64>::empty()),
    {
        let ghost all = root_cell_regions(*sys_config, mem_regions@, empty_page_paddr);
        let ghost b = regions_buildable(all);
        let mut gpm = match MemorySet::new(allocator) {
            Ok(ms) => ms,
            Err(e) => return Err(e),
        };
        assert((MemFlags::READ | MemFlags::NO_HUGEPAGES) & MemFlags::ALL == MemFlags::READ | MemFlags::NO_HUGEPAGES) by (bit_vector);
        let empty = MemoryRegion::new_with_empty_mapper(
            sys_config.hypervisor_memory.phys_start,
            sys_config.hypervisor_memory.size,
            MemFlags::from_bits_truncate(MemFlags::READ | MemFlags::NO_HUGEPAGES),
            empty_page_paddr,
        );
        let ghost g0 = gpm;
        proof {
            assert(empty == all[0]);
            if b {
                lemma_room_for_region(gpm, empty);
            }
        }
        match gpm.insert(empty, allocator) {
            Ok(()) => {},
            Err(e) => return Err(e),
        }
        proof {
            assert(gpm.spec_regions() =~= g0.spec_regions().push(empty));
            lemma_insert_room(g0, gpm, empty);
        }
        let mut i: usize = 0;
        while i < mem_regions.len()
            invariant
                allocator.wf(),
                allocator.free_frames().subset_of(old(allocator).free_frames()),
                gpm.wf(),
                gpm.fresh_in(&*allocator),
                room_outside(gpm),
                all == root_cell_regions(*sys_config, mem_regions@, empty_page_paddr),
                b == regions_buildable(all),
                empty == all[0],
                i <= mem_regions@.len(),
                gpm.spec_regions().len() == i + 1,
                gpm.spec_regions()[0] == empty,
                forall|k: int|
                    0 <= k < i ==> #[trigger] gpm.spec_regions()[k + 1] == offset_region(
                        mem_regions@[k].virt_start,
                        mem_regions@[k].phys_start,
                        mem_regions@[k].size,
                        mem_regions@[k].flags,
                    ),
            decreases mem_regions.len() - i,
        {
            let region = mem_regions[i];
            let ghost before = gpm.spec_regions();
            let ghost g1 = gpm;
            let next = MemoryRegion::new_with_offset_mapper(region.virt_start, region.phys_start, region.size, region.flags);
            proof {
                assert(next == all[i + 1]);
                assert(gpm.spec_regions() =~= all.subrange(0, i + 1)) by {
                    assert forall|k: int| 0 <= k < i + 1 implies gpm.spec_regions()[k] == all[k] by {
                        if k > 0 {
                            assert(gpm.spec_regions()[(k - 1) + 1] == all[k]);
                        }
                    }
                }
                if b {
                    assert forall|k: int| 0 <= k < gpm.spec_regions().len() implies !regions_overlap(#[trigger] gpm.spec_regions()[k], next) by {
                        assert(gpm.spec_regions()[k] == all[k]);
                        assert(k != i + 1);
                    }
                    lemma_room_for_region(gpm, next);
                }
            }
            match gpm.insert(next, allocator) {
                Ok(()) => {},
                Err(e) => return Err(e),
            }
            proof {
                assert(gpm.spec_regions() =~= g1.spec_regions().push(next));
                lemma_insert_room(g1, gpm, next);
                assert forall|k: int| 0 <= k < i + 1 implies #[trigger] gpm.spec_regions()[k + 1] == offset_region(
                    mem_regions@[k].virt_start,
                    mem_regions@[k].phys_start,
                    mem_regions@[k].size,
                    mem_regions@[k].flags,
                ) by {
                    if k < i {
                        assert(gpm.spec_regions()[k + 1] == before[k + 1]);
                    }
                }
            }
            i = i + 1;
        }
        Ok(Cell { config: sys_config.root_cell.config(), gpm })
    }
}

/// Creates the root cell once the vendor's virtualisation support has
/// been checked (`hypervisor_feature`); fails with that check's error.
pub fn init<PTE: GenericPTE, I: PagingInstr>(
    hypervisor_feature: HvResult,
    sys_config: &HvSystemConfig,
    mem_regions: &Vec<HvMemoryRegion>,
    empty_page_paddr: u64,
    allocator: &mut FrameAllocator,
) -> (r: HvResult<Cell<PTE, I>>)
    requires
        old(allocator).wf(),
    ensures
        final(allocator).wf(),
        hypervisor_feature is Err ==> r is Err && r->Err_0.spec_num() == hypervisor_feature->Err_0.spec_num(),
        hypervisor_feature is Ok && regions_buildable(root_cell_regions(*sys_config, mem_regions@, empty_page_paddr))
            ==> r is Ok || (r->Err_0.spec_num() == HvErrorNum::ENOMEM && final(allocator).free_frames() == Set::<u64>::empty()),
        final(allocator).free_frames().subset_of(old(allocator).free_frames()),
        r is Ok ==> {
            let gpm = r->Ok_0.gpm;
            &&& gpm.wf()
            &&& gpm.fresh_in(&*final(allocator))
            &&& gpm.spec_regions().len() == mem_regions@.len() + 1
            &&& gpm.spec_regions()[0] == (MemoryRegion {
                start: sys_config.hypervisor_memory.phys_start,
                size: sys_config.hypervisor_memory.size,
                flags: MemFlags { bits: MemFlags::READ | MemFlags::NO_HUGEPAGES },
                mapper: Mapper::Fixed(empty_page_paddr),
            })
            &&& forall|i: int|
                0 <= i < mem_regions@.len() ==> #[trigger] gpm.spec_regions()[i + 1] == offset_region(
                    mem_regions@[i].virt_start,
                    mem_regions@[i].phys_start,
                    mem_regions@[i].size,
                    mem_regions@[i].flags,
                )
        },
{
    match hypervisor_feature {
        Ok(()) => {},
        Err(e) => return Err(e),
    }
    Cell::new_root(sys_config, mem_regions, empty_page_paddr, allocator)
}

} // verus!
