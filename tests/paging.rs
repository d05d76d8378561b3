use rvm::arch::ept::{EPTEntry, EPTInstr};
use rvm::arch::npt::{NPTEntry, NPTInstr};
use rvm::arch::page_table::{PTEntry, X86PagingInstr};
use rvm::error::HvErrorNum;
use rvm::memory::frame::FrameAllocator;
use rvm::memory::mapper::{Mapper, MemoryRegion};
use rvm::memory::mm::MemorySet;
use rvm::memory::pagetable::Level4PageTable;
use rvm::memory::paging::{MemFlags, PageSize, PagingError};

fn pool() -> FrameAllocator {
    FrameAllocator::init(0x100_0000, 0x40_0000)
}

fn rw() -> MemFlags {
    MemFlags::from_bits_truncate(MemFlags::READ | MemFlags::WRITE)
}

#[test]
fn map_unmap_round_trip_scenario() {
    let mut alloc = pool();
    let mut ms = MemorySet::<PTEntry, X86PagingInstr>::new(&mut alloc).unwrap();
    let region = MemoryRegion::new_with_offset_mapper(0x40_0000, 0x8000_0000, 0x20_0000, rw());
    ms.insert(region, &mut alloc).unwrap();
    let (paddr, flags, size) = ms.query(0x40_1234).unwrap();
    assert_eq!(paddr, 0x8000_1234);
    assert_eq!(flags.bits() & MemFlags::ACCESS, MemFlags::READ | MemFlags::WRITE);
    assert_eq!(size, PageSize::Size2M);
    ms.delete(0x40_0000).unwrap();
    assert_eq!(ms.query(0x40_1234).unwrap_err(), PagingError::NotMapped);
    assert_eq!(ms.len(), 0);
}

#[test]
fn region_bytes_follow_mapper() {
    let mut alloc = pool();
    let mut ms = MemorySet::<EPTEntry, EPTInstr>::new(&mut alloc).unwrap();
    let region = MemoryRegion::new_with_offset_mapper(0x1000, 0x20_3000, 0x5000, rw());
    ms.insert(region, &mut alloc).unwrap();
    for v in [0x1000u64, 0x1fff, 0x2abc, 0x5ff8] {
        let (paddr, flags, size) = ms.query(v).unwrap();
        assert_eq!(paddr, v - 0x1000 + 0x20_3000);
        assert_eq!(size, PageSize::Size4K);
        assert!(flags.contains(MemFlags::READ | MemFlags::WRITE));
    }
    assert_eq!(ms.query(0x6000).unwrap_err(), PagingError::NotMapped);
    assert_eq!(ms.query(0x0fff).unwrap_err(), PagingError::NotMapped);
}

#[test]
fn overlapping_insert_fails_and_keeps_set() {
    let mut alloc = pool();
    let mut ms = MemorySet::<PTEntry, X86PagingInstr>::new(&mut alloc).unwrap();
    ms.insert(MemoryRegion::new_with_offset_mapper(0x10_0000, 0x10_0000, 0x4000, rw()), &mut alloc).unwrap();
    let before = ms.query(0x10_2000).unwrap();
    let err = ms
        .insert(MemoryRegion::new_with_offset_mapper(0x10_3000, 0x90_0000, 0x4000, rw()), &mut alloc)
        .unwrap_err();
    assert_eq!(err.num(), HvErrorNum::EEXIST);
    assert_eq!(ms.len(), 1);
    assert_eq!(ms.query(0x10_2000).unwrap(), before);
    assert_eq!(ms.query(0x10_5000).unwrap_err(), PagingError::NotMapped);
}

#[test]
fn invalid_region_is_rejected() {
    let mut alloc = pool();
    let mut ms = MemorySet::<PTEntry, X86PagingInstr>::new(&mut alloc).unwrap();
    let unaligned = MemoryRegion::new(0x1234, 0x1000, rw(), Mapper::Offset(0));
    assert_eq!(ms.insert(unaligned, &mut alloc).unwrap_err().num(), HvErrorNum::EINVAL);
    let non_canonical = MemoryRegion::new(0x8000_0000_0000, 0x1000, rw(), Mapper::Offset(0));
    assert_eq!(ms.insert(non_canonical, &mut alloc).unwrap_err().num(), HvErrorNum::EINVAL);
    assert_eq!(ms.delete(0x5000).unwrap_err().num(), HvErrorNum::ENOENT);
}

#[test]
fn map_page_then_query_gives_offset_in_page() {
    for (size, vaddr, paddr) in [
        (PageSize::Size4K, 0x7000u64, 0x3000u64),
        (PageSize::Size2M, 0x60_0000, 0x4000_0000),
        (PageSize::Size1G, 0x8000_0000, 0xc000_0000),
    ] {
        let mut alloc = pool();
        let mut pt = Level4PageTable::<PTEntry, X86PagingInstr>::new(&mut alloc).unwrap();
        let flags = MemFlags::from_bits_truncate(MemFlags::READ | MemFlags::EXECUTE);
        pt.map_page(vaddr, size, paddr, flags, &mut alloc).unwrap();
        let off = size.bytes() - 8;
        let (pa, f, s) = pt.query(vaddr + off).unwrap();
        assert_eq!(pa, paddr + off);
        assert_eq!(s, size);
        assert!(f.contains(MemFlags::READ | MemFlags::EXECUTE));
        assert_eq!(pt.map_page(vaddr, size, paddr, flags, &mut alloc).unwrap_err(), PagingError::AlreadyMapped);
        let (frame, s2) = pt.unmap_page(vaddr).unwrap();
        assert_eq!(frame, paddr);
        assert_eq!(s2, size);
        assert_eq!(pt.query(vaddr).unwrap_err(), PagingError::NotMapped);
        assert_eq!(pt.query(vaddr + off).unwrap_err(), PagingError::NotMapped);
        assert_eq!(pt.unmap_page(vaddr).unwrap_err(), PagingError::NotMapped);
    }
}

#[test]
fn nested_entries_carry_user_and_ept_keeps_access() {
    let mut alloc = pool();
    let mut npt = Level4PageTable::<NPTEntry, NPTInstr>::new(&mut alloc).unwrap();
    npt.map_page(0x1000, PageSize::Size4K, 0x5000, rw(), &mut alloc).unwrap();
    let (_, f, _) = npt.query(0x1000).unwrap();
    assert!(f.contains(MemFlags::USER));
    assert!(f.contains(MemFlags::READ | MemFlags::WRITE));
    assert!(!f.contains(MemFlags::EXECUTE));

    let mut ept = Level4PageTable::<EPTEntry, EPTInstr>::new(&mut alloc).unwrap();
    let rx = MemFlags::from_bits_truncate(MemFlags::READ | MemFlags::EXECUTE | MemFlags::USER);
    ept.map_page(0x20_0000, PageSize::Size2M, 0x40_0000, rx, &mut alloc).unwrap();
    let (pa, f, s) = ept.query(0x20_0010).unwrap();
    assert_eq!((pa, f.bits(), s), (0x40_0010, MemFlags::READ | MemFlags::EXECUTE, PageSize::Size2M));
}

#[test]
fn huge_mapping_blocks_smaller_pages() {
    let mut alloc = pool();
    let mut pt = Level4PageTable::<PTEntry, X86PagingInstr>::new(&mut alloc).unwrap();
    pt.map_page(0x20_0000, PageSize::Size2M, 0x20_0000, rw(), &mut alloc).unwrap();
    assert_eq!(
        pt.map_page(0x20_1000, PageSize::Size4K, 0x1000, rw(), &mut alloc).unwrap_err(),
        PagingError::MappedToHugePage
    );
}

#[test]
fn update_changes_frame_and_flags() {
    let mut alloc = pool();
    let mut pt = Level4PageTable::<PTEntry, X86PagingInstr>::new(&mut alloc).unwrap();
    pt.map_page(0x3000, PageSize::Size4K, 0x9000, rw(), &mut alloc).unwrap();
    let ro = MemFlags::from_bits_truncate(MemFlags::READ);
    assert_eq!(pt.update(0x3000, 0xa000, ro).unwrap(), PageSize::Size4K);
    let (pa, f, _) = pt.query(0x3008).unwrap();
    assert_eq!(pa, 0xa008);
    assert!(!f.contains(MemFlags::WRITE));
    assert_eq!(pt.update(0x40_0000_0000, 0xa000, ro).unwrap_err(), PagingError::NotMapped);
}

#[test]
fn clone_answers_like_source() {
    let mut alloc = pool();
    let mut ms = MemorySet::<PTEntry, X86PagingInstr>::new(&mut alloc).unwrap();
    ms.insert(MemoryRegion::new_with_offset_mapper(0x40_0000, 0x8000_0000, 0x20_0000, rw()), &mut alloc).unwrap();
    ms.insert(MemoryRegion::new_with_offset_mapper(0x1000, 0x7000, 0x2000, rw()), &mut alloc).unwrap();
    let clone = ms.clone_set(&mut alloc).unwrap();
    for v in [0x40_0000u64, 0x41_2345, 0x1000, 0x2fff, 0x5000, 0xdead_0000] {
        assert_eq!(clone.query(v), ms.query(v));
    }
    assert_ne!(clone.page_table().root_paddr(), ms.page_table().root_paddr());
    ms.insert(MemoryRegion::new_with_offset_mapper(0x8000_0000, 0x1000_0000, 0x1000, rw()), &mut alloc).unwrap();
    assert!(ms.query(0x8000_0000).is_ok());
    assert_eq!(clone.query(0x8000_0000).unwrap_err(), PagingError::NotMapped);
}

#[test]
fn region_unmap_clears_every_page() {
    let mut alloc = pool();
    let mut pt = Level4PageTable::<PTEntry, X86PagingInstr>::new(&mut alloc).unwrap();
    let region = MemoryRegion::new_with_offset_mapper(0x20_0000, 0x20_0000, 0x20_3000, rw());
    pt.map(&region, &mut alloc).unwrap();
    assert_eq!(pt.query(0x20_0000).unwrap().2, PageSize::Size2M);
    assert_eq!(pt.query(0x40_2000).unwrap().2, PageSize::Size4K);
    pt.unmap(&region).unwrap();
    for v in [0x20_0000u64, 0x30_0000, 0x40_0000, 0x40_2fff] {
        assert_eq!(pt.query(v).unwrap_err(), PagingError::NotMapped);
    }
}

#[test]
fn no_hugepages_flag_forces_small_pages() {
    let mut alloc = pool();
    let mut pt = Level4PageTable::<PTEntry, X86PagingInstr>::new(&mut alloc).unwrap();
    let flags = MemFlags::from_bits_truncate(MemFlags::READ | MemFlags::NO_HUGEPAGES);
    let region = MemoryRegion::new_with_empty_mapper(0x20_0000, 0x20_0000, flags, 0x5000);
    pt.map(&region, &mut alloc).unwrap();
    let (pa, _, s) = pt.query(0x30_0123).unwrap();
    assert_eq!((pa, s), (0x5123, PageSize::Size4K));
}

#[test]
fn activation_values() {
    let mut alloc = pool();
    let host = Level4PageTable::<PTEntry, X86PagingInstr>::new(&mut alloc).unwrap();
    assert_eq!(host.activate(), host.root_paddr());
    let ept = Level4PageTable::<EPTEntry, EPTInstr>::new(&mut alloc).unwrap();
    assert_eq!(ept.activate(), ept.root_paddr() | 0x1e);
}

#[test]
fn exhausted_pool_reports_no_memory() {
    let mut empty = FrameAllocator::empty();
    assert!(Level4PageTable::<PTEntry, X86PagingInstr>::new(&mut empty).is_err());
    let mut one = FrameAllocator::init(0x100_0000, 0x1000);
    let mut pt = Level4PageTable::<PTEntry, X86PagingInstr>::new(&mut one).unwrap();
    assert_eq!(
        pt.map_page(0x1000, PageSize::Size4K, 0x1000, rw(), &mut one).unwrap_err(),
        PagingError::NoMemory
    );
    assert_eq!(pt.query(0x1000).unwrap_err(), PagingError::NotMapped);
}

#[test]
fn unmap_of_unmapped_reports_why() {
    let mut alloc = pool();
    let mut pt = Level4PageTable::<PTEntry, X86PagingInstr>::new(&mut alloc).unwrap();
    pt.map_page(0x4000_0000, PageSize::Size1G, 0x8000_0000, rw(), &mut alloc).unwrap();
    assert_eq!(pt.query(0x4000_0000 + 0x1234_5678).unwrap().0, 0x8000_0000 + 0x1234_5678);
    let region = MemoryRegion::new_with_offset_mapper(0x4000_1000, 0, 0x1000, rw());
    assert_eq!(pt.unmap(&region).unwrap_err().num(), HvErrorNum::EFAULT);
    assert!(pt.query(0x4000_0000).is_ok());
}

#[test]
fn mapping_into_existing_tables_needs_no_frames() {
    let mut alloc = FrameAllocator::init(0x100_0000, 0x4000);
    let mut pt = Level4PageTable::<PTEntry, X86PagingInstr>::new(&mut alloc).unwrap();
    pt.map_page(0x1000, PageSize::Size4K, 0x5000, rw(), &mut alloc).unwrap();
    assert_eq!(alloc.alloc_frame(), None);
    pt.map_page(0x2000, PageSize::Size4K, 0x6000, rw(), &mut alloc).unwrap();
    assert_eq!(pt.query(0x2010).unwrap().0, 0x6010);
    assert_eq!(pt.query(0x1010).unwrap().0, 0x5010);
}

#[test]
fn frame_beyond_physical_range_is_refused() {
    let mut alloc = pool();
    let mut ms = MemorySet::<PTEntry, X86PagingInstr>::new(&mut alloc).unwrap();
    let off = 0u64.wrapping_sub(0x10_0000_0000_0000).wrapping_add(0x1000);
    let region = MemoryRegion::new(0x1000, 0x1000, rw(), Mapper::Offset(off));
    assert_eq!(region.mapper.map_fn(0x1000), 0x10_0000_0000_0000);
    assert_eq!(ms.insert(region, &mut alloc).unwrap_err().num(), HvErrorNum::ERANGE);
    assert_eq!(ms.len(), 0);
}

#[test]
fn map_prefers_the_largest_aligned_page() {
    let mut alloc = pool();
    let mut pt = Level4PageTable::<EPTEntry, EPTInstr>::new(&mut alloc).unwrap();
    let region = MemoryRegion::new_with_offset_mapper(0x4000_0000, 0x8000_0000, 0x4020_1000, rw());
    pt.map(&region, &mut alloc).unwrap();
    assert_eq!(pt.query(0x4000_0000).unwrap().2, PageSize::Size1G);
    assert_eq!(pt.query(0x8000_0000).unwrap().2, PageSize::Size2M);
    assert_eq!(pt.query(0x8020_0000).unwrap().2, PageSize::Size4K);
    assert_eq!(pt.query(0x8020_0abc).unwrap().0, 0xc020_0abc);
    let skewed = MemoryRegion::new_with_offset_mapper(0x1_0000_0000, 0x1000, 0x20_0000, rw());
    pt.map(&skewed, &mut alloc).unwrap();
    assert_eq!(pt.query(0x1_0000_0000).unwrap().2, PageSize::Size4K);
}

#[test]
fn leftover_table_blocks_a_huge_page() {
    let mut alloc = pool();
    let mut pt = Level4PageTable::<PTEntry, X86PagingInstr>::new(&mut alloc).unwrap();
    pt.map_page(0x20_1000, PageSize::Size4K, 0x5000, rw(), &mut alloc).unwrap();
    pt.unmap_page(0x20_1000).unwrap();
    assert_eq!(pt.query(0x20_1000).unwrap_err(), PagingError::NotMapped);
    assert_eq!(
        pt.map_page(0x20_0000, PageSize::Size2M, 0x40_0000, rw(), &mut alloc).unwrap_err(),
        PagingError::AlreadyMapped
    );
    let fresh = MemoryRegion::new_with_offset_mapper(0x40_0000, 0x8000_0000, 0x20_0000, rw());
    pt.map(&fresh, &mut alloc).unwrap();
    pt.unmap(&fresh).unwrap();
    assert_eq!(pt.query(0x40_1234).unwrap_err(), PagingError::NotMapped);
}

#[test]
fn map_fails_when_a_later_page_is_mapped() {
    let mut alloc = pool();
    let mut pt = Level4PageTable::<PTEntry, X86PagingInstr>::new(&mut alloc).unwrap();
    pt.map_page(0x3000, PageSize::Size4K, 0x9000, rw(), &mut alloc).unwrap();
    let region = MemoryRegion::new_with_offset_mapper(0x1000, 0x11_000, 0x4000, rw());
    assert_eq!(pt.map(&region, &mut alloc).unwrap_err().num(), HvErrorNum::EFAULT);
    assert_eq!(pt.query(0x3000).unwrap().0, 0x9000);
}

#[test]
fn host_entries_keep_user_and_no_execute() {
    let mut alloc = pool();
    let mut pt = Level4PageTable::<PTEntry, X86PagingInstr>::new(&mut alloc).unwrap();
    let f = MemFlags::from_bits_truncate(MemFlags::READ | MemFlags::USER);
    pt.map_page(0x1000, PageSize::Size4K, 0x2000, f, &mut alloc).unwrap();
    let (_, flags, _) = pt.query(0x1000).unwrap();
    assert!(flags.contains(MemFlags::USER));
    assert!(!flags.contains(MemFlags::EXECUTE));
    assert!(!flags.contains(MemFlags::WRITE));
}

#[test]
fn region_round_trip_at_each_size() {
    for (v, p, s) in [(0x1000u64, 0x5000u64, 0x1000u64), (0x20_0000, 0x60_0000, 0x20_0000), (0x4000_0000, 0x8000_0000, 0x4000_0000)] {
        let mut alloc = pool();
        let mut pt = Level4PageTable::<PTEntry, X86PagingInstr>::new(&mut alloc).unwrap();
        let region = MemoryRegion::new_with_offset_mapper(v, p, s, rw());
        pt.map(&region, &mut alloc).unwrap();
        assert_eq!(pt.query(v + s - 1).unwrap().2.bytes(), s);
        pt.unmap(&region).unwrap();
        assert_eq!(pt.query(v).unwrap_err(), PagingError::NotMapped);
        assert_eq!(pt.query(v + s - 1).unwrap_err(), PagingError::NotMapped);
    }
}
