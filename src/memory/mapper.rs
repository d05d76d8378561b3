//! Memory regions and how they map virtual to physical addresses.

use vstd::prelude::*;

use super::addr::{align_down, spec_align_down, PhysAddr};
use super::paging::MemFlags;

verus! {

/// How a region turns a virtual address into a physical one.
#[derive(Clone, Copy, Debug, PartialEq, Eq, Structural)]
pub enum Mapper {
    /// `paddr = vaddr - offset`, modulo 2^64.
    Offset(u64),
    /// Every address maps to the same physical page.
    Fixed(u64),
}

/// `a - b` modulo 2^64.
pub open spec fn wrap_sub(a: u64, b: u64) -> u64 {
    if a >= b {
        (a - b) as u64
    } else {
        (a - b + 0x1_0000_0000_0000_0000) as u64
    }
}

impl Mapper {
    /// The physical address of `vaddr`.
    pub open spec fn spec_map(self, vaddr: u64) -> u64 {
        match self {
            Mapper::Offset(off) => wrap_sub(vaddr, off),
            Mapper::Fixed(paddr) => paddr,
        }
    }

    pub fn map_fn(&self, vaddr: u64) -> (r: PhysAddr)
        ensures
            r == self.spec_map(vaddr),
    {
        match self {
            Mapper::Offset(off) => vaddr.wrapping_sub(*off),
            Mapper::Fixed(paddr) => *paddr,
        }
    }
}

/// A region of virtual memory: its start, size, flags and mapper.
#[derive(Clone, Copy, Debug)]
pub struct MemoryRegion {
    pub start: u64,
    pub size: u64,
    pub flags: MemFlags,
    pub mapper: Mapper,
}

impl MemoryRegion {
    /// Whether `vaddr` lies inside the region.
    pub open spec fn contains_addr(self, vaddr: u64) -> bool {
        self.start <= vaddr && vaddr - self.start < self.size
    }

    pub fn new(start: u64, size: u64, flags: MemFlags, mapper: Mapper) -> (r: Self)
        ensures
            r.start == start,
            r.size == size,
            r.flags == flags,
            r.mapper == mapper,
    {
        MemoryRegion { start, size, flags, mapper }
    }

    /// A region that maps every page to the page at `empty_page_paddr`.
    pub fn new_with_empty_mapper(start: u64, size: u64, flags: MemFlags, empty_page_paddr: PhysAddr) -> (r: Self)
        ensures
            r.start == start,
            r.size == size,
            r.flags == flags,
            r.mapper == Mapper::Fixed(empty_page_paddr),
    {
        Self::new(start, size, flags, Mapper::Fixed(empty_page_paddr))
    }

    /// A region from `start_vaddr` to `start_paddr` with a constant offset,
    /// both rounded down to a page.
    pub fn new_with_offset_mapper(start_vaddr: u64, start_paddr: PhysAddr, size: u64, flags: MemFlags) -> (r: Self)
        ensures
            r.start == spec_align_down(start_vaddr as int),
            r.size == size,
            r.flags == flags,
            r.mapper == Mapper::Offset(
                wrap_sub(
                    spec_align_down(start_vaddr as int) as u64,
                    spec_align_down(start_paddr as int) as u64,
                ),
            ),
            r.mapper.spec_map(r.start) == spec_align_down(start_paddr as int),
    {
        let start_vaddr = align_down(start_vaddr);
        let start_paddr = align_down(start_paddr);
        let phys_virt_offset = start_vaddr.wrapping_sub(start_paddr);
        Self::new(start_vaddr, size, flags, Mapper::Offset(phys_virt_offset))
    }
}

} // verus!
