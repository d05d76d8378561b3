//! The standard x86_64 page-table entry, used for the hypervisor's own
//! address space and for guest page tables.

use vstd::prelude::*;

use crate::memory::addr::PhysAddr;
use crate::memory::paging::{GenericPTE, MemFlags, PagingInstr, PHYS_ADDR_MASK, PHYS_LIMIT};

verus! {

/// Architectural entry bits.
pub const PTF_PRESENT: u64 = 0x1;
pub const PTF_WRITABLE: u64 = 0x2;
pub const PTF_USER_ACCESSIBLE: u64 = 0x4;
pub const PTF_HUGE_PAGE: u64 = 0x80;
pub const PTF_NO_EXECUTE: u64 = 0x8000_0000_0000_0000;
/// Every bit that carries a flag: bits 0 to 11 and 52 to 63.
pub const PTF_ALL: u64 = 0xfff0_0000_0000_0fff;

/// The architectural bits that express the abstract flags `fb`.
pub open spec fn ptf_of_mem_flags(fb: u64) -> u64 {
    if fb == 0 {
        0
    } else {
        1u64 | (if fb & 2 != 0 {
            2u64
        } else {
            0u64
        }) | (if fb & 4 == 0 {
            0x8000_0000_0000_0000u64
        } else {
            0u64
        }) | (if fb & 0x200 != 0 {
            4u64
        } else {
            0u64
        })
    }
}

/// The abstract flags that the architectural bits of `raw` express.
pub open spec fn mem_flags_of_ptf(raw: u64) -> u64 {
    let f = raw & 0xfff0_0000_0000_0fffu64;
    if f == 0 {
        0
    } else {
        1u64 | (if f & 2 != 0 {
            2u64
        } else {
            0u64
        }) | (if f & 0x8000_0000_0000_0000u64 == 0 {
            4u64
        } else {
            0u64
        }) | (if f & 4 != 0 {
            0x200u64
        } else {
            0u64
        })
    }
}

/// Converts abstract flags to architectural entry bits.
pub fn ptf_from_mem_flags(f: MemFlags) -> (r: u64)
    ensures
        r == ptf_of_mem_flags(f.bits),
{
    let fb = f.bits;
    if fb == 0 {
        return 0;
    }
    let w: u64 = if fb & 2 != 0 {
        2
    } else {
        0
    };
    let nx: u64 = if fb & 4 == 0 {
        0x8000_0000_0000_0000
    } else {
        0
    };
    let u: u64 = if fb & 0x200 != 0 {
        4
    } else {
        0
    };
    1u64 | w | nx | u
}

/// Converts architectural entry bits to abstract flags.
pub fn mem_flags_from_ptf(raw: u64) -> (r: MemFlags)
    ensures
        r.bits == mem_flags_of_ptf(raw),
{
    let f = raw & PTF_ALL;
    if f == 0 {
        return MemFlags { bits: 0 };
    }
    let w: u64 = if f & 2 != 0 {
        2
    } else {
        0
    };
    let x: u64 = if f & 0x8000_0000_0000_0000 == 0 {
        4
    } else {
        0
    };
    let u: u64 = if f & 4 != 0 {
        0x200
    } else {
        0
    };
    MemFlags { bits: 1u64 | w | x | u }
}

proof fn lemma_host_entry(a: u64, fb: u64, huge: bool, p: u64)
    by (bit_vector)
    requires
        a < 0x10_0000_0000_0000u64,
        a % 0x1000 == 0,
    ensures
        (0u64 & 1u64 != 0) == false,
        0x207u64 & 7u64 == 7u64,
        (0u64 & 0x80u64 != 0) == false,
        (p & 0x000f_ffff_ffff_f000u64) & 0x000f_ffff_ffff_f000u64 == p & 0x000f_ffff_ffff_f000u64,
        (p & 0x000f_ffff_ffff_f000u64) < 0x10_0000_0000_0000u64,
        (p & 0x000f_ffff_ffff_f000u64) % 0x1000 == 0,
        ({
            let q = ptf_of_mem_flags(fb) | (if huge {
                0x80u64
            } else {
                0u64
            });
            let r = (p & 0x000f_ffff_ffff_f000u64) | q;
            &&& r & 0x000f_ffff_ffff_f000u64 == p & 0x000f_ffff_ffff_f000u64
            &&& (r & 0x80u64 != 0) == huge
            &&& mem_flags_of_ptf(r) & (fb & 0x207) == fb & 0x207
            &&& (fb != 0 && fb & 4 == 0) ==> mem_flags_of_ptf(r) & 4 == 0
            &&& (fb != 0 || huge) ==> r != 0
        }),
        ({
            let r = (p & !0x000f_ffff_ffff_f000u64) | (a & 0x000f_ffff_ffff_f000u64);
            &&& r & 0x000f_ffff_ffff_f000u64 == a
            &&& mem_flags_of_ptf(r) == mem_flags_of_ptf(p)
            &&& (r & 0x80u64 != 0) == (p & 0x80u64 != 0)
        }),
        ({
            let r = (a & 0x000f_ffff_ffff_f000u64) | 7u64;
            &&& r & 0x000f_ffff_ffff_f000u64 == a
            &&& r & 1u64 != 0
            &&& r & 0x80u64 == 0
            &&& r != 0
        }),
{
}

/// A standard x86_64 page-table entry.
#[derive(Clone, Copy, Debug)]
pub struct PTEntry(pub u64);

impl GenericPTE for PTEntry {
    open spec fn spec_raw(&self) -> u64 {
        self.0
    }

    /// Read, write, execute and user.
    open spec fn spec_kept_flags() -> u64 {
        0x207
    }

    open spec fn addr_of(raw: u64) -> u64 {
        raw & 0x000f_ffff_ffff_f000u64
    }

    open spec fn flags_of(raw: u64) -> MemFlags {
        MemFlags { bits: mem_flags_of_ptf(raw) }
    }

    open spec fn present_of(raw: u64) -> bool {
        raw & 1u64 != 0
    }

    open spec fn huge_of(raw: u64) -> bool {
        raw & 0x80u64 != 0
    }

    proof fn lemma_zero_entry() {
        lemma_host_entry(0, 0, false, 0);
    }

    proof fn lemma_addr_bound(raw: u64) {
        lemma_host_entry(0, 0, false, raw);
    }

    fn from_raw(raw: u64) -> (r: Self) {
        PTEntry(raw)
    }

    fn raw(&self) -> (r: u64) {
        self.0
    }

    fn addr(&self) -> (r: PhysAddr) {
        self.0 & PHYS_ADDR_MASK
    }

    fn flags(&self) -> (r: MemFlags) {
        mem_flags_from_ptf(self.0)
    }

    fn is_unused(&self) -> (r: bool) {
        self.0 == 0
    }

    fn is_present(&self) -> (r: bool) {
        self.0 & PTF_PRESENT != 0
    }

    fn is_huge(&self) -> (r: bool) {
        self.0 & PTF_HUGE_PAGE != 0
    }

    fn set_addr(&mut self, paddr: PhysAddr) {
        proof {
            lemma_host_entry(paddr, 0, false, self.0);
        }
        self.0 = (self.0 & !PHYS_ADDR_MASK) | (paddr & PHYS_ADDR_MASK);
    }

    fn set_flags(&mut self, flags: MemFlags, is_huge: bool) {
        proof {
            lemma_host_entry(0, flags.bits, is_huge, self.0);
        }
        let huge_bit: u64 = if is_huge {
            PTF_HUGE_PAGE
        } else {
            0
        };
        self.0 = self.addr() | (ptf_from_mem_flags(flags) | huge_bit);
    }

    fn set_table(&mut self, paddr: PhysAddr) {
        proof {
            lemma_host_entry(paddr, 0, false, 0);
        }
        self.0 = (paddr & PHYS_ADDR_MASK) | 7u64;
    }

    fn clear(&mut self) {
        self.0 = 0;
    }
}

/// Installs host page tables through CR3.
pub struct X86PagingInstr;

impl PagingInstr for X86PagingInstr {
    open spec fn spec_activate(root_paddr: PhysAddr) -> u64 {
        root_paddr
    }

    /// The CR3 value: the root frame with no PCID and no cache flags.
    fn activate(root_paddr: PhysAddr) -> (r: u64) {
        root_paddr
    }
}

} // verus!
