//! AMD nested page-table entries: the host layout, with every mapping
//! marked as a user access.

use vstd::prelude::*;

use super::page_table::PTEntry;
use crate::memory::addr::HostPhysAddr;
use crate::memory::paging::{GenericPTE, MemFlags, PagingInstr};

verus! {

/// A nested page-table entry.
#[derive(Clone, Copy, Debug)]
pub struct NPTEntry(pub PTEntry);

proof fn lemma_user_keeps_access(fb: u64, b: u64)
    by (bit_vector)
    ensures
        (fb | 0x200u64) & 0x207u64 == (fb & 0x207u64) | 0x200u64,
        ((fb | 0x200u64) & 0x207u64) & (fb & 0x207u64) == fb & 0x207u64,
        (fb | 0x200u64) & 4u64 == fb & 4u64,
        0x207u64 & 7u64 == 7u64,
        b & ((fb | 0x200u64) & 0x207u64) == (fb | 0x200u64) & 0x207u64 ==> b & (fb & 0x207u64) == fb & 0x207u64,
        (fb | 0x200u64) != 0,
{
}

impl GenericPTE for NPTEntry {
    open spec fn spec_raw(&self) -> u64 {
        self.0.0
    }

    /// Read, write, execute and user; every entry also carries user.
    open spec fn spec_kept_flags() -> u64 {
        0x207
    }

    open spec fn addr_of(raw: u64) -> u64 {
        PTEntry::addr_of(raw)
    }

    open spec fn flags_of(raw: u64) -> MemFlags {
        PTEntry::flags_of(raw)
    }

    open spec fn present_of(raw: u64) -> bool {
        PTEntry::present_of(raw)
    }

    open spec fn huge_of(raw: u64) -> bool {
        PTEntry::huge_of(raw)
    }

    proof fn lemma_zero_entry() {
        PTEntry::lemma_zero_entry();
    }

    proof fn lemma_addr_bound(raw: u64) {
        PTEntry::lemma_addr_bound(raw);
    }

    fn from_raw(raw: u64) -> (r: Self) {
        NPTEntry(PTEntry(raw))
    }

    fn raw(&self) -> (r: u64) {
        self.0.0
    }

    fn addr(&self) -> (r: HostPhysAddr) {
        self.0.addr()
    }

    fn flags(&self) -> (r: MemFlags) {
        self.0.flags()
    }

    fn is_unused(&self) -> (r: bool) {
        self.0.is_unused()
    }

    fn is_present(&self) -> (r: bool) {
        self.0.is_present()
    }

    fn is_huge(&self) -> (r: bool) {
        self.0.is_huge()
    }

    fn set_addr(&mut self, paddr: HostPhysAddr) {
        self.0.set_addr(paddr);
    }

    /// A table walk for the guest page itself is always treated as a user
    /// access at the nested level, so every mapping carries USER.
    fn set_flags(&mut self, flags: MemFlags, is_huge: bool) {
        self.0.set_flags(flags.union(MemFlags::USER), is_huge);
        proof {
            lemma_user_keeps_access(flags.bits, PTEntry::flags_of(self.0.0).bits);
        }
    }

    fn set_table(&mut self, paddr: HostPhysAddr) {
        self.0.set_table(paddr);
    }

    fn clear(&mut self) {
        self.0.clear();
    }
}

/// Nested tables are installed through the VMCB, not a register write.
pub struct NPTInstr;

impl PagingInstr for NPTInstr {
    open spec fn spec_activate(root_paddr: HostPhysAddr) -> u64 {
        root_paddr
    }

    /// The nested CR3 value: the root frame itself.
    fn activate(root_paddr: HostPhysAddr) -> (r: u64) {
        root_paddr
    }
}

} // verus!
