//! Intel extended page-table entries.

use vstd::prelude::*;

use crate::memory::addr::HostPhysAddr;
use crate::memory::paging::{GenericPTE, MemFlags, PagingInstr, PHYS_ADDR_MASK};

verus! {

/// EPT entry bits.
pub const EPT_READ: u64 = 0x1;
pub const EPT_WRITE: u64 = 0x2;
pub const EPT_EXECUTE: u64 = 0x4;
pub const EPT_IGNORE_PAT: u64 = 0x40;
pub const EPT_HUGE_PAGE: u64 = 0x80;
pub const EPT_ACCESSED: u64 = 0x100;
pub const EPT_DIRTY: u64 = 0x200;
pub const EPT_EXECUTE_FOR_USER: u64 = 0x400;

/// EPT memory types, stored in bits 3 to 5 of a leaf.
#[derive(Debug, PartialEq, Eq, Clone, Copy, Structural)]
pub enum EPTMemType {
    Uncached,
    WriteCombining,
    WriteThrough,
    WriteProtected,
    WriteBack,
}

impl EPTMemType {
    /// The encoding of each memory type.
    pub open spec fn spec_value(self) -> u8 {
        match self {
            EPTMemType::Uncached => 0,
            EPTMemType::WriteCombining => 1,
            EPTMemType::WriteThrough => 4,
            EPTMemType::WriteProtected => 5,
            EPTMemType::WriteBack => 6,
        }
    }

    pub fn value(self) -> (r: u8)
        ensures
            r == self.spec_value(),
    {
        match self {
            EPTMemType::Uncached => 0,
            EPTMemType::WriteCombining => 1,
            EPTMemType::WriteThrough => 4,
            EPTMemType::WriteProtected => 5,
            EPTMemType::WriteBack => 6,
        }
    }

    /// The memory type encoded by `v`, or `v` itself if none is.
    pub fn try_from(v: u8) -> (r: Result<Self, u8>)
        ensures
            match r {
                Ok(t) => t.spec_value() == v,
                Err(e) => e == v && v != 0 && v != 1 && v != 4 && v != 5 && v != 6,
            },
    {
        match v {
            0 => Ok(EPTMemType::Uncached),
            1 => Ok(EPTMemType::WriteCombining),
            4 => Ok(EPTMemType::WriteThrough),
            5 => Ok(EPTMemType::WriteProtected),
            6 => Ok(EPTMemType::WriteBack),
            _ => Err(v),
        }
    }

    /// The memory type of intermediate entries.
    pub fn empty() -> (r: Self)
        ensures
            r.spec_value() == 0,
    {
        EPTMemType::Uncached
    }
}

/// The word after writing `flags` to bits 0 to 11 and `mem_type` to bits 3
/// to 5 of `raw`.
pub open spec fn ept_with_flags(raw: u64, flags: u64, mem_type: u64) -> u64 {
    (((raw & !0xfffu64) | (flags & 0xfffu64)) & !0x38u64) | ((mem_type & 7u64) << 3u64)
}

proof fn lemma_ept_entry(a: u64, fb: u64, huge: bool, p: u64)
    by (bit_vector)
    requires
        a < 0x10_0000_0000_0000u64,
        a % 0x1000 == 0,
    ensures
        0u64 & 7u64 == 0,
        7u64 & 7u64 == 7u64,
        0u64 & 0x80u64 == 0,
        (p & 0x000f_ffff_ffff_f000u64) & 0x000f_ffff_ffff_f000u64 == p & 0x000f_ffff_ffff_f000u64,
        (p & 0x000f_ffff_ffff_f000u64) < 0x10_0000_0000_0000u64,
        (p & 0x000f_ffff_ffff_f000u64) % 0x1000 == 0,
        ({
            let q = (fb & 7u64) | (if huge {
                0x80u64
            } else {
                0u64
            });
            let r = ept_with_flags(p, q, 6);
            &&& r & 0x000f_ffff_ffff_f000u64 == p & 0x000f_ffff_ffff_f000u64
            &&& (r & 0x80u64 != 0) == huge
            &&& (r & 7u64) & (fb & 7u64) == fb & 7u64
            &&& (fb & 4u64 == 0) ==> (r & 7u64) & 4u64 == 0
            &&& r != 0
        }),
        ({
            let r = (p & !0x000f_ffff_ffff_f000u64) | (a & 0x000f_ffff_ffff_f000u64);
            &&& r & 0x000f_ffff_ffff_f000u64 == a
            &&& r & 7u64 == p & 7u64
            &&& r & 0x80u64 == p & 0x80u64
        }),
        ({
            let r = ept_with_flags((p & !0x000f_ffff_ffff_f000u64) | (a & 0x000f_ffff_ffff_f000u64), 7, 0);
            &&& r & 0x000f_ffff_ffff_f000u64 == a
            &&& r & 7u64 != 0
            &&& r & 0x80u64 == 0
            &&& r != 0
        }),
{
}

/// An extended page-table entry.
#[derive(Clone, Copy, Debug)]
pub struct EPTEntry(pub u64);

impl EPTEntry {
    /// The EPT flag bits of this entry.
    pub fn ept_flags(&self) -> (r: u64)
        ensures
            r == self.0 & 0x7c7u64,
    {
        self.0 & 0x7c7
    }

    /// The memory type in bits 3 to 5.
    pub fn memory_type(&self) -> (r: Result<EPTMemType, u8>)
        ensures
            match r {
                Ok(t) => t.spec_value() == ((self.0 >> 3u64) & 7u64) as u8,
                Err(e) => e == ((self.0 >> 3u64) & 7u64) as u8,
            },
    {
        EPTMemType::try_from(((self.0 >> 3) & 7) as u8)
    }

    /// Writes `flags` to bits 0 to 11 and `mem_type` to bits 3 to 5.
    pub fn set_flags_and_mem_type(&mut self, flags: u64, mem_type: EPTMemType)
        ensures
            final(self).0 == ept_with_flags(old(self).0, flags, mem_type.spec_value() as u64),
    {
        let t = mem_type.value() as u64;
        self.0 = (((self.0 & !0xfff) | (flags & 0xfff)) & !0x38) | ((t & 7) << 3);
    }
}

impl GenericPTE for EPTEntry {
    open spec fn spec_raw(&self) -> u64 {
        self.0
    }

    /// Read, write and execute.
    open spec fn spec_kept_flags() -> u64 {
        7
    }

    open spec fn addr_of(raw: u64) -> u64 {
        raw & 0x000f_ffff_ffff_f000u64
    }

    /// Read, write and execute map one to one; other abstract flags have
    /// no EPT counterpart.
    open spec fn flags_of(raw: u64) -> MemFlags {
        MemFlags { bits: raw & 7u64 }
    }

    open spec fn present_of(raw: u64) -> bool {
        raw & 7u64 != 0
    }

    open spec fn huge_of(raw: u64) -> bool {
        raw & 0x80u64 != 0
    }

    proof fn lemma_zero_entry() {
        lemma_ept_entry(0, 0, false, 0);
    }

    proof fn lemma_addr_bound(raw: u64) {
        lemma_ept_entry(0, 0, false, raw);
    }

    fn from_raw(raw: u64) -> (r: Self) {
        EPTEntry(raw)
    }

    fn raw(&self) -> (r: u64) {
        self.0
    }

    fn addr(&self) -> (r: HostPhysAddr) {
        self.0 & PHYS_ADDR_MASK
    }

    fn flags(&self) -> (r: MemFlags) {
        MemFlags { bits: self.0 & 7 }
    }

    fn is_unused(&self) -> (r: bool) {
        self.0 == 0
    }

    fn is_present(&self) -> (r: bool) {
        self.0 & 7 != 0
    }

    fn is_huge(&self) -> (r: bool) {
        self.0 & EPT_HUGE_PAGE != 0
    }

    fn set_addr(&mut self, paddr: HostPhysAddr) {
        proof {
            lemma_ept_entry(paddr, 0, false, self.0);
        }
        self.0 = (self.0 & !PHYS_ADDR_MASK) | (paddr & PHYS_ADDR_MASK);
    }

    fn set_flags(&mut self, flags: MemFlags, is_huge: bool) {
        proof {
            lemma_ept_entry(0, flags.bits, is_huge, self.0);
        }
        let huge_bit: u64 = if is_huge {
            EPT_HUGE_PAGE
        } else {
            0
        };
        self.set_flags_and_mem_type((flags.bits & 7) | huge_bit, EPTMemType::WriteBack);
    }

    fn set_table(&mut self, paddr: HostPhysAddr) {
        proof {
            lemma_ept_entry(paddr, 0, false, self.0);
        }
        self.0 = (self.0 & !PHYS_ADDR_MASK) | (paddr & PHYS_ADDR_MASK);
        self.set_flags_and_mem_type(7, EPTMemType::empty());
    }

    fn clear(&mut self) {
        self.0 = 0;
    }
}

/// Installs extended page tables through the EPT pointer.
pub struct EPTInstr;

impl PagingInstr for EPTInstr {
    /// Write-back memory type (6) and a four-level walk (3 in bits 3 to 5).
    open spec fn spec_activate(root_paddr: HostPhysAddr) -> u64 {
        root_paddr | 0x1eu64
    }

    fn activate(root_paddr: HostPhysAddr) -> (r: u64) {
        root_paddr | 0x1e
    }
}

} // verus!
