//! The generic four-level page-table engine: page sizes, abstract memory
//! flags, the capability set of an entry, and the page walk.

use vstd::prelude::*;

use super::addr::PhysAddr;
use super::physmem::{word_at, PhysMemory};

verus! {

/// Errors of the page-table engine.
#[derive(Debug, Clone, Copy, PartialEq, Eq, Structural)]
pub enum PagingError {
    NoMemory,
    NotMapped,
    AlreadyMapped,
    MappedToHugePage,
}

pub type PagingResult<T = ()> = Result<T, PagingError>;

/// The three page sizes of x86_64 paging.
#[derive(Debug, Copy, Clone, PartialEq, Eq, Structural)]
pub enum PageSize {
    Size4K,
    Size2M,
    Size1G,
}

/// The number of entries of one table.
pub const ENTRY_COUNT: u64 = 512;

/// Highest physical address (exclusive) an entry can hold.
pub const PHYS_LIMIT: u64 = 0x10_0000_0000_0000;

/// The address bits of an entry: bits 12 to 51.
pub const PHYS_ADDR_MASK: u64 = 0x000f_ffff_ffff_f000;

proof fn lemma_size_masks(addr: u64)
    by (bit_vector)
    ensures
        addr & 0xfffu64 == addr % 0x1000,
        addr & !0xfffu64 == addr - addr % 0x1000,
        addr & 0x1f_ffffu64 == addr % 0x20_0000,
        addr & !0x1f_ffffu64 == addr - addr % 0x20_0000,
        addr & 0x3fff_ffffu64 == addr % 0x4000_0000,
        addr & !0x3fff_ffffu64 == addr - addr % 0x4000_0000,
{
}

impl PageSize {
    /// The size in bytes.
    pub open spec fn spec_bytes(self) -> u64 {
        match self {
            PageSize::Size4K => 0x1000,
            PageSize::Size2M => 0x20_0000,
            PageSize::Size1G => 0x4000_0000,
        }
    }

    /// The size in bytes.
    pub fn bytes(self) -> (r: u64)
        ensures
            r == self.spec_bytes(),
    {
        match self {
            PageSize::Size4K => 0x1000,
            PageSize::Size2M => 0x20_0000,
            PageSize::Size1G => 0x4000_0000,
        }
    }

    /// Whether `addr` is a multiple of this size.
    pub fn is_aligned(self, addr: u64) -> (r: bool)
        ensures
            r == (addr % self.spec_bytes() == 0),
    {
        self.page_offset(addr) == 0
    }

    /// `addr` rounded down to a multiple of this size.
    pub fn align_down(self, addr: u64) -> (r: u64)
        ensures
            r == addr - addr % self.spec_bytes(),
    {
        proof {
            lemma_size_masks(addr);
        }
        addr & !(self.bytes() - 1)
    }

    /// The offset of `addr` inside a page of this size.
    pub fn page_offset(self, addr: u64) -> (r: u64)
        ensures
            r == addr % self.spec_bytes(),
    {
        proof {
            lemma_size_masks(addr);
        }
        addr & (self.bytes() - 1)
    }

    /// Whether this is a 2 MiB or 1 GiB page.
    pub fn is_huge(self) -> (r: bool)
        ensures
            r == (self != PageSize::Size4K),
    {
        match self {
            PageSize::Size4K => false,
            _ => true,
        }
    }
}

/// A virtual page: its start address and size.
#[derive(Debug, Copy, Clone)]
pub struct Page {
    pub vaddr: u64,
    pub size: PageSize,
}

impl Page {
    pub fn new_aligned(vaddr: u64, size: PageSize) -> (r: Self)
        requires
            vaddr % size.spec_bytes() == 0,
        ensures
            r.vaddr == vaddr,
            r.size == size,
    {
        Page { vaddr, size }
    }
}

/// The hypervisor's abstract permission model, a set of bits.
#[derive(Debug, Clone, Copy, PartialEq, Eq, Structural)]
pub struct MemFlags {
    pub bits: u64,
}

impl MemFlags {
    pub const READ: u64 = 0x1;
    pub const WRITE: u64 = 0x2;
    pub const EXECUTE: u64 = 0x4;
    pub const DMA: u64 = 0x8;
    pub const IO: u64 = 0x10;
    pub const COMM_REGION: u64 = 0x20;
    pub const NO_HUGEPAGES: u64 = 0x100;
    pub const USER: u64 = 0x200;
    /// Every defined flag.
    pub const ALL: u64 = 0x33f;
    /// The access permissions that every entry format keeps.
    pub const ACCESS: u64 = 0x7;

    /// Whether every bit of `other` is set in `self`.
    pub open spec fn spec_contains(self, other: u64) -> bool {
        self.bits & other == other
    }

    /// The flags with no bit set.
    pub fn empty() -> (r: Self)
        ensures
            r.bits == 0,
    {
        MemFlags { bits: 0 }
    }

    /// The flags of `bits`, dropping undefined bits.
    pub fn from_bits_truncate(bits: u64) -> (r: Self)
        ensures
            r.bits == bits & Self::ALL,
    {
        MemFlags { bits: bits & Self::ALL }
    }

    /// The raw bits.
    pub fn bits(&self) -> (r: u64)
        ensures
            r == self.bits,
    {
        self.bits
    }

    /// Whether no flag is set.
    pub fn is_empty(&self) -> (r: bool)
        ensures
            r == (self.bits == 0),
    {
        self.bits == 0
    }

    /// Whether every bit of `other` is set.
    pub fn contains(&self, other: u64) -> (r: bool)
        ensures
            r == self.spec_contains(other),
    {
        self.bits & other == other
    }

    /// The flags of both.
    pub fn union(self, other: u64) -> (r: Self)
        ensures
            r.bits == self.bits | other,
    {
        MemFlags { bits: self.bits | other }
    }
}

/// The capability set of one page-table entry: a 64-bit word with a layout
/// of its own. `addr_of`, `flags_of`, `present_of` and `huge_of` read a raw
/// word the way the walk does.
pub trait GenericPTE: Sized {
    /// The raw word.
    spec fn spec_raw(&self) -> u64;

    /// The physical address held by a raw word.
    spec fn addr_of(raw: u64) -> u64;

    /// The abstract flags of a raw word.
    spec fn flags_of(raw: u64) -> MemFlags;

    /// Whether a raw word is marked present.
    spec fn present_of(raw: u64) -> bool;

    /// Whether a raw word maps a huge page.
    spec fn huge_of(raw: u64) -> bool;

    /// The abstract flags this entry format keeps when it stores them.
    spec fn spec_kept_flags() -> u64;

    /// A zero word is neither present nor huge.
    proof fn lemma_zero_entry()
        ensures
            !Self::present_of(0),
            !Self::huge_of(0),
    ;

    /// Addresses are masked to bits 12 to 51.
    proof fn lemma_addr_bound(raw: u64)
        ensures
            Self::addr_of(raw) < PHYS_LIMIT,
            Self::addr_of(raw) % 0x1000 == 0,
    ;

    fn from_raw(raw: u64) -> (r: Self)
        ensures
            r.spec_raw() == raw,
    ;

    fn raw(&self) -> (r: u64)
        ensures
            r == self.spec_raw(),
    ;

    /// Returns the physical address mapped by this entry.
    fn addr(&self) -> (r: PhysAddr)
        ensures
            r == Self::addr_of(self.spec_raw()),
    ;

    /// Returns the flags of this entry.
    fn flags(&self) -> (r: MemFlags)
        ensures
            r == Self::flags_of(self.spec_raw()),
    ;

    /// Returns whether this entry is zero.
    fn is_unused(&self) -> (r: bool)
        ensures
            r == (self.spec_raw() == 0),
    ;

    /// Returns whether this entry flag indicates present.
    fn is_present(&self) -> (r: bool)
        ensures
            r == Self::present_of(self.spec_raw()),
    ;

    /// Returns whether this entry maps to a huge frame.
    fn is_huge(&self) -> (r: bool)
        ensures
            r == Self::huge_of(self.spec_raw()),
    ;

    /// Set physical address for terminal entries.
    fn set_addr(&mut self, paddr: PhysAddr)
        requires
            paddr % 0x1000 == 0,
            paddr < PHYS_LIMIT,
        ensures
            Self::addr_of(final(self).spec_raw()) == paddr,
            Self::flags_of(final(self).spec_raw()) == Self::flags_of(old(self).spec_raw()),
            Self::huge_of(final(self).spec_raw()) == Self::huge_of(old(self).spec_raw()),
    ;

    /// Set flags for terminal entries.
    fn set_flags(&mut self, flags: MemFlags, is_huge: bool)
        ensures
            Self::addr_of(final(self).spec_raw()) == Self::addr_of(old(self).spec_raw()),
            Self::huge_of(final(self).spec_raw()) == is_huge,
            Self::flags_of(final(self).spec_raw()).spec_contains(flags.bits & Self::spec_kept_flags()),
            Self::spec_kept_flags() & MemFlags::ACCESS == MemFlags::ACCESS,
            flags.bits != 0 && flags.bits & MemFlags::EXECUTE == 0 ==> Self::flags_of(final(self).spec_raw()).bits
                & MemFlags::EXECUTE == 0,
            flags.bits != 0 || is_huge ==> final(self).spec_raw() != 0,
    ;

    /// Set physical address and flags for intermediate table entries.
    fn set_table(&mut self, paddr: PhysAddr)
        requires
            paddr % 0x1000 == 0,
            paddr < PHYS_LIMIT,
        ensures
            Self::addr_of(final(self).spec_raw()) == paddr,
            Self::present_of(final(self).spec_raw()),
            !Self::huge_of(final(self).spec_raw()),
            final(self).spec_raw() != 0,
    ;

    /// Set this entry to zero.
    fn clear(&mut self)
        ensures
            final(self).spec_raw() == 0,
    ;
}

/// The instructions that make a table the active page table.
pub trait PagingInstr {
    /// The register value that makes the table rooted at `root_paddr` active.
    spec fn spec_activate(root_paddr: PhysAddr) -> u64;

    /// Computes the register value that makes the table rooted at
    /// `root_paddr` active.
    fn activate(root_paddr: PhysAddr) -> (r: u64)
        requires
            root_paddr % 0x1000 == 0,
            root_paddr < PHYS_LIMIT,
        ensures
            r == Self::spec_activate(root_paddr),
    ;
}

/// The bit position of the table index of each level; level 1 is the root.
pub open spec fn shift_of(level: nat) -> u64 {
    if level <= 1 {
        39
    } else if level == 2 {
        30
    } else if level == 3 {
        21
    } else {
        12
    }
}

/// The index that `vaddr` selects in a table of `level`.
pub open spec fn idx_of(vaddr: u64, level: nat) -> u64 {
    (vaddr >> shift_of(level)) & 0x1ff
}

/// The address of the entry that `vaddr` selects in the table at `table`.
pub open spec fn entry_addr(table: u64, vaddr: u64, level: nat) -> u64 {
    (table + 8 * idx_of(vaddr, level)) as u64
}

/// The size of a leaf found in a table of `level`.
pub open spec fn leaf_size(level: nat) -> PageSize {
    if level <= 2 {
        PageSize::Size1G
    } else if level == 3 {
        PageSize::Size2M
    } else {
        PageSize::Size4K
    }
}

/// The entry that maps `vaddr`, found by walking from the table at
/// `table` of `level`: the entry's address and the size of the page it maps,
/// or why the walk stopped.
pub open spec fn locate<PTE: GenericPTE>(
    mem: Map<u64, u64>,
    table: u64,
    level: nat,
    vaddr: u64,
) -> PagingResult<(u64, PageSize)>
    decreases 4 - level,
{
    let ea = entry_addr(table, vaddr, level);
    let e = word_at(mem, ea);
    if level >= 4 {
        Ok((ea, PageSize::Size4K))
    } else if level >= 2 && PTE::huge_of(e) {
        Ok((ea, leaf_size(level)))
    } else if !PTE::present_of(e) {
        Err(PagingError::NotMapped)
    } else if PTE::huge_of(e) {
        Err(PagingError::MappedToHugePage)
    } else {
        locate::<PTE>(mem, PTE::addr_of(e), level + 1, vaddr)
    }
}

/// Whether a leaf for `vaddr` can go into a table of level `target` when
/// walking from the table at `table` of `level`: the walk meets only
/// table pointers until an empty entry (below which new tables will be
/// empty) or until the target level, whose entry must be empty.
pub open spec fn can_map<PTE: GenericPTE>(
    mem: Map<u64, u64>,
    table: u64,
    level: nat,
    vaddr: u64,
    target: nat,
) -> bool
    decreases target - level,
{
    let e = word_at(mem, entry_addr(table, vaddr, level));
    if level >= target {
        e == 0
    } else if e == 0 {
        true
    } else {
        PTE::present_of(e) && !PTE::huge_of(e) && can_map::<PTE>(mem, PTE::addr_of(e), level + 1, vaddr, target)
    }
}

/// What a query of `vaddr` in the table rooted at `root` returns: the
/// physical address, the flags and the page size of the mapping.
pub open spec fn spec_query<PTE: GenericPTE>(
    mem: Map<u64, u64>,
    root: u64,
    vaddr: u64,
) -> PagingResult<(u64, MemFlags, PageSize)> {
    match locate::<PTE>(mem, root, 1, vaddr) {
        Ok((ea, size)) => {
            let e = word_at(mem, ea);
            if e == 0 {
                Err(PagingError::NotMapped)
            } else {
                Ok(
                    (
                        (PTE::addr_of(e) + vaddr % size.spec_bytes()) as u64,
                        PTE::flags_of(e),
                        size,
                    ),
                )
            }
        },
        Err(err) => Err(err),
    }
}

/// The bits of `vaddr` that select the table of `level` (1 to 4); at
/// level 5 they select the 4 KiB page.
pub open spec fn key_of(vaddr: u64, level: nat) -> u64 {
    if level <= 1 {
        0
    } else if level == 2 {
        (vaddr >> 39u64) & 0x1ffu64
    } else if level == 3 {
        (vaddr >> 30u64) & 0x3_ffffu64
    } else if level == 4 {
        (vaddr >> 21u64) & 0x7ff_ffffu64
    } else {
        (vaddr >> 12u64) & 0xf_ffff_ffffu64
    }
}

/// The level of the table that holds leaves of `size`.
pub open spec fn level_of(size: PageSize) -> nat {
    match size {
        PageSize::Size1G => 2,
        PageSize::Size2M => 3,
        PageSize::Size4K => 4,
    }
}

/// An address the four-level walk reaches without aliasing: the lower
/// or the upper canonical half.
pub open spec fn is_canonical(vaddr: u64) -> bool {
    vaddr < 0x8000_0000_0000u64 || vaddr >= 0xffff_8000_0000_0000u64
}

proof fn lemma_key_bits(v: u64)
    by (bit_vector)
    ensures
        (v >> 39u64) & 0x1ffu64 == 0u64 * 512 + ((v >> 39u64) & 0x1ffu64),
        (v >> 30u64) & 0x3_ffffu64 == ((v >> 39u64) & 0x1ffu64) * 512 + ((v >> 30u64) & 0x1ffu64),
        (v >> 21u64) & 0x7ff_ffffu64 == ((v >> 30u64) & 0x3_ffffu64) * 512 + ((v >> 21u64)
            & 0x1ffu64),
        (v >> 12u64) & 0xf_ffff_ffffu64 == ((v >> 21u64) & 0x7ff_ffffu64) * 512 + ((v >> 12u64)
            & 0x1ffu64),
        (v >> 39u64) & 0x1ffu64 < 512,
        (v >> 30u64) & 0x3_ffffu64 < 0x4_0000,
        (v >> 21u64) & 0x7ff_ffffu64 < 0x800_0000,
{
}

/// The key of the next level extends the key of a table by the index.
pub proof fn lemma_key_step(v: u64, level: nat)
    requires
        1 <= level <= 4,
    ensures
        key_of(v, level + 1) == key_of(v, level) * 512 + idx_of(v, level),
        idx_of(v, level) < 512,
{
    lemma_key_bits(v);
    lemma_index_bound(v);
}

/// Equal keys at one level mean equal keys and indices above it.
pub proof fn lemma_key_prefix(v: u64, w: u64, level: nat)
    requires
        1 <= level <= 4,
        key_of(v, level + 1) == key_of(w, level + 1),
    ensures
        key_of(v, level) == key_of(w, level),
        idx_of(v, level) == idx_of(w, level),
{
    lemma_key_step(v, level);
    lemma_key_step(w, level);
    let a = key_of(v, level) as int;
    let b = idx_of(v, level) as int;
    let c = key_of(w, level) as int;
    let d = idx_of(w, level) as int;
    assert(a == c && b == d) by (nonlinear_arith)
        requires
            a * 512 + b == c * 512 + d,
            0 <= b < 512,
            0 <= d < 512,
            a >= 0,
            c >= 0,
    ;
}

proof fn lemma_page_key_bits(v: u64, base: u64)
    by (bit_vector)
    ensures
        (base & 0xfffu64 == 0 && v >= base && v - base < 0x1000) ==> (v >> 12u64) & 0xf_ffff_ffffu64
            == (base >> 12u64) & 0xf_ffff_ffffu64,
        (base & 0x1f_ffffu64 == 0 && v >= base && v - base < 0x20_0000) ==> (v >> 21u64)
            & 0x7ff_ffffu64 == (base >> 21u64) & 0x7ff_ffffu64,
        (base & 0x3fff_ffffu64 == 0 && v >= base && v - base < 0x4000_0000) ==> (v >> 30u64)
            & 0x3_ffffu64 == (base >> 30u64) & 0x3_ffffu64,
        ((v < 0x8000_0000_0000u64 || v >= 0xffff_8000_0000_0000u64) && (base < 0x8000_0000_0000u64
            || base >= 0xffff_8000_0000_0000u64) && base & 0xfffu64 == 0 && (v >> 12u64)
            & 0xf_ffff_ffffu64 == (base >> 12u64) & 0xf_ffff_ffffu64) ==> (v >= base && v - base
            < 0x1000),
        ((v < 0x8000_0000_0000u64 || v >= 0xffff_8000_0000_0000u64) && (base < 0x8000_0000_0000u64
            || base >= 0xffff_8000_0000_0000u64) && base & 0x1f_ffffu64 == 0 && (v >> 21u64)
            & 0x7ff_ffffu64 == (base >> 21u64) & 0x7ff_ffffu64) ==> (v >= base && v - base
            < 0x20_0000),
        ((v < 0x8000_0000_0000u64 || v >= 0xffff_8000_0000_0000u64) && (base < 0x8000_0000_0000u64
            || base >= 0xffff_8000_0000_0000u64) && base & 0x3fff_ffffu64 == 0 && (v >> 30u64)
            & 0x3_ffffu64 == (base >> 30u64) & 0x3_ffffu64) ==> (v >= base && v - base
            < 0x4000_0000),
{
}

/// The addresses inside a page share the key of the level below the page's
/// table; among canonical addresses, only they do.
pub proof fn lemma_page_key(v: u64, base: u64, size: PageSize)
    requires
        base % size.spec_bytes() == 0,
    ensures
        (v >= base && v - base < size.spec_bytes()) ==> key_of(v, level_of(size) + 1) == key_of(
            base,
            level_of(size) + 1,
        ),
        (is_canonical(v) && is_canonical(base) && key_of(v, level_of(size) + 1) == key_of(
            base,
            level_of(size) + 1,
        )) ==> (v >= base && v - base < size.spec_bytes()),
{
    lemma_size_masks(base);
    lemma_page_key_bits(v, base);
}

/// Table index of `vaddr` in the root table.
pub fn p4_index(vaddr: u64) -> (r: u64)
    ensures
        r == idx_of(vaddr, 1),
        r < 512,
{
    proof {
        lemma_index_bound(vaddr);
    }
    (vaddr >> 39u64) & (ENTRY_COUNT - 1)
}

/// Table index of `vaddr` in a level-3 table.
pub fn p3_index(vaddr: u64) -> (r: u64)
    ensures
        r == idx_of(vaddr, 2),
        r < 512,
{
    proof {
        lemma_index_bound(vaddr);
    }
    (vaddr >> 30u64) & (ENTRY_COUNT - 1)
}

/// Table index of `vaddr` in a level-2 table.
pub fn p2_index(vaddr: u64) -> (r: u64)
    ensures
        r == idx_of(vaddr, 3),
        r < 512,
{
    proof {
        lemma_index_bound(vaddr);
    }
    (vaddr >> 21u64) & (ENTRY_COUNT - 1)
}

/// Table index of `vaddr` in a level-1 table.
pub fn p1_index(vaddr: u64) -> (r: u64)
    ensures
        r == idx_of(vaddr, 4),
        r < 512,
{
    proof {
        lemma_index_bound(vaddr);
    }
    (vaddr >> 12u64) & (ENTRY_COUNT - 1)
}

proof fn lemma_index_bound(vaddr: u64)
    by (bit_vector)
    ensures
        (vaddr >> 39u64) & 0x1ff < 512,
        (vaddr >> 30u64) & 0x1ff < 512,
        (vaddr >> 21u64) & 0x1ff < 512,
        (vaddr >> 12u64) & 0x1ff < 512,
{
}

/// The table index of `vaddr` at `level` (1 to 4).
pub fn table_index(vaddr: u64, level: u64) -> (r: u64)
    requires
        1 <= level <= 4,
    ensures
        r == idx_of(vaddr, level as nat),
        r < 512,
{
    if level == 1 {
        p4_index(vaddr)
    } else if level == 2 {
        p3_index(vaddr)
    } else if level == 3 {
        p2_index(vaddr)
    } else {
        p1_index(vaddr)
    }
}

} // verus!
