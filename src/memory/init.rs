//! Building the hypervisor's own memory: the frame pool and the host
//! page table.

use vstd::prelude::*;

use super::addr::{align_down, align_up, spec_align_down, spec_align_up, PAGE_SIZE};
use super::frame::{frame_paddr, FrameAllocator, FRAME_CAPACITY};
use super::mapper::{wrap_sub, Mapper, MemoryRegion};
use super::mm::{lemma_insert_room, lemma_room_for_region, regions_buildable, regions_overlap, room_outside, MemorySet};
use super::paging::{MemFlags, PHYS_LIMIT};
use crate::arch::page_table::{PTEntry, X86PagingInstr};
use crate::config::{spec_config_size, HvMemoryRegion, HvSystemConfig, SYSTEM_CONFIG_SIZE};
use crate::consts::HV_BASE;
use crate::error::{HvError, HvErrorNum, HvResult};
use crate::header::HvHeader;
use crate::percpu::PER_CPU_SIZE;

verus! {

/// A page-aligned page of zero bytes, the target of empty mappings.
pub struct AlignedPage {
    pub bytes: [u8; 4096],
}

impl AlignedPage {
    pub fn new() -> (r: Self)
        ensures
            forall|i: int| 0 <= i < 4096 ==> r.bytes[i] == 0,
    {
        AlignedPage { bytes: [0u8; 4096] }
    }
}

/// The bytes of hypervisor memory taken by the image, the per-CPU blocks
/// and the system configuration.
pub open spec fn hv_used_size(header: HvHeader, sys_config: HvSystemConfig) -> int {
    header.core_size + header.max_cpus * PER_CPU_SIZE + SYSTEM_CONFIG_SIZE + spec_config_size(sys_config.root_cell)
}

/// The pool after the used part fits the hypervisor memory, the physical
/// range and the bitmap.
pub open spec fn frame_pool_fits(header: HvHeader, sys_config: HvSystemConfig) -> bool {
    let used = hv_used_size(header, sys_config);
    let start = sys_config.hypervisor_memory.phys_start;
    &&& used <= sys_config.hypervisor_memory.size
    &&& start <= PHYS_LIMIT
    &&& used <= PHYS_LIMIT
    &&& start + used <= PHYS_LIMIT - FRAME_CAPACITY * PAGE_SIZE - PAGE_SIZE
    &&& spec_align_down(sys_config.hypervisor_memory.size - used) <= FRAME_CAPACITY * PAGE_SIZE
}

/// The frame pool: the hypervisor memory after the core image, the
/// per-CPU blocks and the system configuration, from its first page
/// boundary, whole pages only.
pub fn init_frame_allocator(header: &HvHeader, sys_config: &HvSystemConfig) -> (r: HvResult<FrameAllocator>)
    ensures
        frame_pool_fits(*header, *sys_config) <==> r is Ok,
        r is Err ==> r->Err_0.spec_num() == HvErrorNum::EINVAL,
        r is Ok ==> {
            let a = r->Ok_0;
            let used = hv_used_size(*header, *sys_config);
            &&& a.wf()
            &&& a.spec_base() == spec_align_up(sys_config.hypervisor_memory.phys_start + used)
            &&& forall|p: u64|
                #![trigger a.free_frames().contains(p)]
                a.free_frames().contains(p) <==> (exists|i: usize|
                    i * PAGE_SIZE < spec_align_down(sys_config.hypervisor_memory.size - used) && p == frame_paddr(
                        a.spec_base(),
                        i,
                    ))
        },
{
    let config_size = sys_config.size();
    let percpu = header.max_cpus as u64 * PER_CPU_SIZE;
    if header.core_size > u64::MAX - percpu || header.core_size + percpu > u64::MAX - config_size {
        return Err(HvError::from_num(HvErrorNum::EINVAL));
    }
    let used = header.core_size + percpu + config_size;
    let phys_start = sys_config.hypervisor_memory.phys_start;
    let hv_size = sys_config.hypervisor_memory.size;
    if used > hv_size || phys_start > PHYS_LIMIT || used > PHYS_LIMIT {
        return Err(HvError::from_num(HvErrorNum::EINVAL));
    }
    let pool_base = phys_start + used;
    let pool_size = align_down(hv_size - used);
    if pool_base > PHYS_LIMIT - FRAME_CAPACITY as u64 * PAGE_SIZE - PAGE_SIZE || pool_size > FRAME_CAPACITY as u64
        * PAGE_SIZE {
        return Err(HvError::from_num(HvErrorNum::EINVAL));
    }
    let a = FrameAllocator::init(pool_base, pool_size);
    proof {
        assert(spec_align_up(pool_size as int) == pool_size as int);
    }
    Ok(a)
}

/// The region that maps `phys_start` at `vaddr` for `size` bytes.
pub open spec fn offset_region(vaddr: u64, phys_start: u64, size: u64, flags: MemFlags) -> MemoryRegion {
    MemoryRegion {
        start: spec_align_down(vaddr as int) as u64,
        size,
        flags,
        mapper: Mapper::Offset(
            wrap_sub(spec_align_down(vaddr as int) as u64, spec_align_down(phys_start as int) as u64),
        ),
    }
}

/// The regions that make guest RAM marked for DMA visible to the
/// hypervisor: each at its guest-physical address plus
/// `phys_virt_offset`, read and write, in configuration order.
pub open spec fn dma_regions(regions: Seq<HvMemoryRegion>, phys_virt_offset: u64) -> Seq<MemoryRegion>
    decreases regions.len(),
{
    if regions.len() == 0 {
        Seq::empty()
    } else {
        let prev = dma_regions(regions.drop_last(), phys_virt_offset);
        let r = regions.last();
        if r.flags.bits & MemFlags::DMA == MemFlags::DMA {
            prev.push(
                offset_region(
                    ((r.virt_start + phys_virt_offset) % 0x1_0000_0000_0000_0000) as u64,
                    r.phys_start,
                    r.size,
                    MemFlags { bits: MemFlags::READ | MemFlags::WRITE },
                ),
            )
        } else {
            prev
        }
    }
}

/// A prefix of the configuration gives a prefix of the DMA regions.
pub proof fn lemma_dma_prefix(regions: Seq<HvMemoryRegion>, i: int, off: u64)
    requires
        0 <= i <= regions.len(),
    ensures
        dma_regions(regions.subrange(0, i), off).len() <= dma_regions(regions, off).len(),
        forall|j: int|
            0 <= j < dma_regions(regions.subrange(0, i), off).len() ==> #[trigger] dma_regions(regions.subrange(0, i), off)[j]
                == dma_regions(regions, off)[j],
    decreases regions.len(),
{
    if i == regions.len() {
        assert(regions.subrange(0, i) =~= regions);
    } else {
        let d = regions.drop_last();
        assert(d.subrange(0, i) =~= regions.subrange(0, i));
        lemma_dma_prefix(d, i, off);
    }
}

/// The regions of the hypervisor's memory set: its image, the rest of its
/// memory, then the DMA regions.
pub open spec fn hv_regions(header: HvHeader, sys_config: HvSystemConfig, mem_regions: Seq<HvMemoryRegion>) -> Seq<MemoryRegion> {
    seq![
        offset_region(
            HV_BASE,
            sys_config.hypervisor_memory.phys_start,
            header.core_size,
            MemFlags { bits: MemFlags::READ | MemFlags::WRITE | MemFlags::EXECUTE },
        ),
        offset_region(
            (HV_BASE + header.core_size) as u64,
            (sys_config.hypervisor_memory.phys_start + header.core_size) as u64,
            (sys_config.hypervisor_memory.size - header.core_size) as u64,
            MemFlags { bits: MemFlags::READ | MemFlags::WRITE },
        ),
    ] + dma_regions(mem_regions, (HV_BASE - sys_config.hypervisor_memory.phys_start) as u64)
}

/// Whether the hypervisor's view of a DMA region's address wraps around.
pub open spec fn dma_wraps(r: HvMemoryRegion, phys_virt_offset: u64) -> bool {
    r.flags.bits & MemFlags::DMA == MemFlags::DMA && r.virt_start + phys_virt_offset >= 0x1_0000_0000_0000_0000
}

/// The header and configuration leave no room for the hypervisor's image
/// or place it above its own virtual base.
pub open spec fn hv_layout_bad(header: HvHeader, sys_config: HvSystemConfig) -> bool {
    let start = sys_config.hypervisor_memory.phys_start;
    let size = sys_config.hypervisor_memory.size;
    header.core_size > size || header.core_size > u64::MAX - HV_BASE || start > u64::MAX - header.core_size
        || start > HV_BASE
}

/// The hypervisor's page table: its image with read, write and execute,
/// the rest of its memory with read and write, and every guest RAM region
/// marked for DMA at the hypervisor's view of its guest-physical address.
pub fn init_hv_page_table(
    header: &HvHeader,
    sys_config: &HvSystemConfig,
    mem_regions: &Vec<HvMemoryRegion>,
    allocator: &mut FrameAllocator,
) -> (r: HvResult<MemorySet<PTEntry, X86PagingInstr>>)
    requires
        old(allocator).wf(),
    ensures
        final(allocator).wf(),
        final(allocator).free_frames().subset_of(old(allocator).free_frames()),
        hv_layout_bad(*header, *sys_config) ==> r is Err && r->Err_0.spec_num() == HvErrorNum::EINVAL,
        !hv_layout_bad(*header, *sys_config) && (exists|i: int| 0 <= i < mem_regions@.len() && dma_wraps(
            #[trigger] mem_regions@[i],
            (HV_BASE - sys_config.hypervisor_memory.phys_start) as u64,
        )) ==> r is Err && r->Err_0.spec_num() == HvErrorNum::EINVAL,
        r is Err ==> r->Err_0.spec_num() == HvErrorNum::EINVAL || r->Err_0.spec_num() == HvErrorNum::EEXIST
            || r->Err_0.spec_num() == HvErrorNum::ENOMEM || r->Err_0.spec_num() == HvErrorNum::EFAULT
            || r->Err_0.spec_num() == HvErrorNum::ERANGE,
        r is Err && r->Err_0.spec_num() == HvErrorNum::ENOMEM ==> final(allocator).free_frames() == Set::<u64>::empty(),
        !hv_layout_bad(*header, *sys_config) && (forall|i: int| 0 <= i < mem_regions@.len() ==> !dma_wraps(
            #[trigger] mem_regions@[i],
            (HV_BASE - sys_config.hypervisor_memory.phys_start) as u64,
        )) && regions_buildable(hv_regions(*header, *sys_config, mem_regions@)) ==> r is Ok || (r->Err_0.spec_num()
            == HvErrorNum::ENOMEM && final(allocator).free_frames() == Set::<u64>::empty()),
        r is Ok ==> {
            let ms = r->Ok_0;
            &&& ms.wf()
            &&& ms.fresh_in(&*final(allocator))
            &&& ms.spec_regions().len() == 2 + dma_regions(
                mem_regions@,
                (HV_BASE - sys_config.hypervisor_memory.phys_start) as u64,
            ).len()
            &&& forall|k: int|
                0 <= k < dma_regions(mem_regions@, (HV_BASE - sys_config.hypervisor_memory.phys_start) as u64).len()
                    ==> #[trigger] ms.spec_regions()[k + 2] == dma_regions(
                    mem_regions@,
                    (HV_BASE - sys_config.hypervisor_memory.phys_start) as u64,
                )[k]
            &&& ms.spec_regions()[0] == offset_region(
                HV_BASE,
                sys_config.hypervisor_memory.phys_start,
                header.core_size,
                MemFlags { bits: MemFlags::READ | MemFlags::WRITE | MemFlags::EXECUTE },
            )
            &&& ms.spec_regions()[1] == offset_region(
                (HV_BASE + header.core_size) as u64,
                (sys_config.hypervisor_memory.phys_start + header.core_size) as u64,
                (sys_config.hypervisor_memory.size - header.core_size) as u64,
                MemFlags { bits: MemFlags::READ | MemFlags::WRITE },
            )
        },
{
    let hv_phys_start = sys_config.hypervisor_memory.phys_start;
    let hv_phys_size = sys_config.hypervisor_memory.size;
    let core_size = header.core_size;
    if core_size > hv_phys_size || core_size > u64::MAX - HV_BASE || hv_phys_start > u64::MAX - core_size
        || hv_phys_start > HV_BASE {
        return Err(HvError::from_num(HvErrorNum::EINVAL));
    }
    let phys_virt_offset = HV_BASE - hv_phys_start;
    let mut j: usize = 0;
    while j < mem_regions.len()
        invariant
            allocator.wf(),
            allocator.free_frames() == old(allocator).free_frames(),
            j <= mem_regions@.len(),
            phys_virt_offset == HV_BASE - hv_phys_start,
            hv_phys_start == sys_config.hypervisor_memory.phys_start,
            hv_phys_start <= HV_BASE,
            forall|k: int| 0 <= k < j ==> !dma_wraps(#[trigger] mem_regions@[k], phys_virt_offset),
        decreases mem_regions.len() - j,
    {
        let region = mem_regions[j];
        if region.flags.contains(MemFlags::DMA) && region.virt_start.wrapping_add(phys_virt_offset) < region.virt_start {
            assert(region.virt_start + phys_virt_offset >= 0x1_0000_0000_0000_0000);
            assert(dma_wraps(mem_regions@[j as int], phys_virt_offset));
            return Err(HvError::from_num(HvErrorNum::EINVAL));
        }
        j = j + 1;
    }
    assert(forall|k: int| 0 <= k < mem_regions@.len() ==> !dma_wraps(#[trigger] mem_regions@[k], phys_virt_offset));
    let mut hv_pt = match MemorySet::new(allocator) {
        Ok(ms) => ms,
        Err(e) => return Err(e),
    };
    let r0 = MemoryRegion::new_with_offset_mapper(
        HV_BASE,
        hv_phys_start,
        core_size,
        MemFlags::from_bits_truncate(MemFlags::READ | MemFlags::WRITE | MemFlags::EXECUTE),
    );
    assert((MemFlags::READ | MemFlags::WRITE | MemFlags::EXECUTE) & MemFlags::ALL == MemFlags::READ | MemFlags::WRITE | MemFlags::EXECUTE) by (bit_vector);
    assert((MemFlags::READ | MemFlags::WRITE) & MemFlags::ALL == MemFlags::READ | MemFlags::WRITE) by (bit_vector);
    let ghost all = hv_regions(*header, *sys_config, mem_regions@);
    let ghost b = regions_buildable(all);
    let ghost g0 = hv_pt;
    proof {
        assert(r0 == all[0]);
        if b {
            lemma_room_for_region(hv_pt, r0);
        }
    }
    match hv_pt.insert(r0, allocator) {
        Ok(()) => {},
        Err(e) => return Err(e),
    }
    proof {
        assert(hv_pt.spec_regions() =~= g0.spec_regions().push(r0));
        lemma_insert_room(g0, hv_pt, r0);
    }
    let r1 = MemoryRegion::new_with_offset_mapper(
        HV_BASE + core_size,
        hv_phys_start + core_size,
        hv_phys_size - core_size,
        MemFlags::from_bits_truncate(MemFlags::READ | MemFlags::WRITE),
    );
    let ghost g1 = hv_pt;
    proof {
        assert(r1 == all[1]);
        if b {
            assert forall|k: int| 0 <= k < hv_pt.spec_regions().len() implies !regions_overlap(#[trigger] hv_pt.spec_regions()[k], r1) by {
                assert(hv_pt.spec_regions()[k] == all[0]);
            }
            lemma_room_for_region(hv_pt, r1);
        }
    }
    match hv_pt.insert(r1, allocator) {
        Ok(()) => {},
        Err(e) => return Err(e),
    }
    proof {
        assert(hv_pt.spec_regions() =~= g1.spec_regions().push(r1));
        lemma_insert_room(g1, hv_pt, r1);
    }
    let ghost first_two = hv_pt.spec_regions();
    let mut i: usize = 0;
    while i < mem_regions.len()
        invariant
            allocator.wf(),
            allocator.free_frames().subset_of(old(allocator).free_frames()),
            hv_pt.wf(),
            hv_pt.fresh_in(&*allocator),
            i <= mem_regions@.len(),
            phys_virt_offset == HV_BASE - hv_phys_start,
            !hv_layout_bad(*header, *sys_config),
            hv_phys_start == sys_config.hypervisor_memory.phys_start,
            first_two.len() == 2,
            first_two == all.subrange(0, 2),
            all == hv_regions(*header, *sys_config, mem_regions@),
            b == regions_buildable(all),
            room_outside(hv_pt),
            hv_pt.spec_regions() =~= first_two + dma_regions(mem_regions@.subrange(0, i as int), phys_virt_offset),
            forall|k: int| 0 <= k < mem_regions@.len() ==> !dma_wraps(#[trigger] mem_regions@[k], phys_virt_offset),
        decreases mem_regions.len() - i,
    {
        let region = mem_regions[i];
        proof {
            assert(mem_regions@.subrange(0, i + 1).drop_last() =~= mem_regions@.subrange(0, i as int));
            assert(mem_regions@.subrange(0, i + 1).last() == region);
        }
        if region.flags.contains(MemFlags::DMA) {
            let hv_virt_start = region.virt_start.wrapping_add(phys_virt_offset);
            if hv_virt_start < region.virt_start {
                return Err(HvError::from_num(HvErrorNum::EINVAL));
            }
            assert(hv_virt_start == ((region.virt_start + phys_virt_offset) % 0x1_0000_0000_0000_0000) as u64);
            let ghost before = hv_pt.spec_regions();
            let ghost g2 = hv_pt;
            let next = MemoryRegion::new_with_offset_mapper(
                hv_virt_start,
                region.phys_start,
                region.size,
                MemFlags::from_bits_truncate(MemFlags::READ | MemFlags::WRITE),
            );
            proof {
                let off = phys_virt_offset;
                let dp = dma_regions(mem_regions@.subrange(0, i as int), off);
                let dn = dma_regions(mem_regions@.subrange(0, i + 1), off);
                assert((MemFlags::READ | MemFlags::WRITE) & MemFlags::ALL == MemFlags::READ | MemFlags::WRITE) by (bit_vector);
                assert(dn =~= dp.push(next));
                lemma_dma_prefix(mem_regions@, i + 1, off);
                let n = before.len() as int;
                assert(n == 2 + dp.len());
                assert(all[n] == next) by {
                    assert(dn[dp.len() as int] == next);
                    assert(dma_regions(mem_regions@, off)[dp.len() as int] == next);
                }
                if b {
                    lemma_dma_prefix(mem_regions@, i as int, off);
                    assert forall|k: int| 0 <= k < hv_pt.spec_regions().len() implies !regions_overlap(#[trigger] hv_pt.spec_regions()[k], next) by {
                        if k >= 2 {
                            assert(hv_pt.spec_regions()[k] == dp[k - 2]);
                            assert(dp[k - 2] == dma_regions(mem_regions@, off)[k - 2]);
                        }
                        assert(hv_pt.spec_regions()[k] == all[k]);
                    }
                    lemma_room_for_region(hv_pt, next);
                }
            }
            match hv_pt.insert(next, allocator) {
                Ok(()) => {},
                Err(e) => return Err(e),
            }
            proof {
                assert(hv_pt.spec_regions() =~= g2.spec_regions().push(next));
                lemma_insert_room(g2, hv_pt, next);
            }
            assert(hv_pt.spec_regions() =~= first_two + dma_regions(mem_regions@.subrange(0, i + 1), phys_virt_offset));
        } else {
            assert(hv_pt.spec_regions() =~= first_two + dma_regions(mem_regions@.subrange(0, i + 1), phys_virt_offset));
        }
        i = i + 1;
    }
    proof {
        assert(mem_regions@.subrange(0, i as int) =~= mem_regions@);
        assert forall|k: int| 0 <= k < mem_regions@.len() implies !dma_wraps(#[trigger] mem_regions@[k], phys_virt_offset) by {
        }
    }
    Ok(hv_pt)
}

} // verus!
