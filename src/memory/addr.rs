//! Physical and virtual addresses and 4 KiB page arithmetic.

use vstd::prelude::*;

verus! {

/// Addresses are 64-bit on the one architecture this hypervisor targets.
pub type VirtAddr = u64;
pub type PhysAddr = u64;
pub type GuestVirtAddr = u64;
pub type GuestPhysAddr = u64;
pub type HostVirtAddr = u64;
pub type HostPhysAddr = u64;

/// Size of a base page.
pub const PAGE_SIZE: u64 = 0x1000;

/// `addr` rounded down to a page boundary.
pub open spec fn spec_align_down(addr: int) -> int {
    addr - addr % (PAGE_SIZE as int)
}

/// `addr` rounded up to a page boundary.
pub open spec fn spec_align_up(addr: int) -> int {
    if addr % (PAGE_SIZE as int) == 0 {
        addr
    } else {
        addr - addr % (PAGE_SIZE as int) + PAGE_SIZE as int
    }
}

proof fn lemma_page_masks(addr: u64)
    by (bit_vector)
    ensures
        addr & !0xfffu64 == addr - addr % 0x1000,
        addr & 0xfffu64 == addr % 0x1000,
{
}

/// Rounds `addr` down to a page boundary.
pub fn align_down(addr: u64) -> (r: u64)
    ensures
        r == spec_align_down(addr as int),
        r % PAGE_SIZE == 0,
        r <= addr,
{
    proof {
        lemma_page_masks(addr);
    }
    addr & !(PAGE_SIZE - 1)
}

/// Rounds `addr` up to a page boundary.
pub fn align_up(addr: u64) -> (r: u64)
    requires
        addr <= u64::MAX - (PAGE_SIZE - 1),
    ensures
        r == spec_align_up(addr as int),
        r % PAGE_SIZE == 0,
        r >= addr,
{
    let x = addr + (PAGE_SIZE - 1);
    proof {
        lemma_page_masks(x);
    }
    x & !(PAGE_SIZE - 1)
}

/// Whether `addr` lies on a page boundary.
pub fn is_aligned(addr: u64) -> (r: bool)
    ensures
        r == (addr % PAGE_SIZE == 0),
{
    page_offset(addr) == 0
}

/// The number of pages needed to hold `size` bytes.
pub fn page_count(size: u64) -> (r: u64)
    requires
        size <= u64::MAX - (PAGE_SIZE - 1),
    ensures
        r == spec_align_up(size as int) / PAGE_SIZE as int,
        r * PAGE_SIZE >= size,
{
    align_up(size) / PAGE_SIZE
}

/// The offset of `addr` inside its page.
pub fn page_offset(addr: u64) -> (r: u64)
    ensures
        r == addr % PAGE_SIZE,
{
    proof {
        lemma_page_masks(addr);
    }
    addr & (PAGE_SIZE - 1)
}

} // verus!
