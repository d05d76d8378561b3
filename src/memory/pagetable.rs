//! Four-level page tables over physical memory. The mutable table records,
//! as ghost state, the level and the virtual-address key of every table it
//! owns; that record is what makes each change local to the page it maps.

use core::marker::PhantomData;
use vstd::prelude::*;

use super::addr::PhysAddr;
use super::frame::{Frame, FrameAllocator};
use super::mapper::{Mapper, MemoryRegion};
use crate::error::{HvError, HvErrorNum, HvResult};
use super::paging::{
    can_map, entry_addr, idx_of, key_of, lemma_key_prefix, lemma_key_step, leaf_size, level_of, locate,
    lemma_page_key, spec_query, table_index, GenericPTE, is_canonical, MemFlags, PageSize, PagingError, PagingInstr,
    PagingResult, PHYS_LIMIT,
};
use super::physmem::{word_at, PhysMemory};

verus! {

/// Ghost record of a table's level and key, by physical address.
pub type Labels = Map<u64, (nat, u64)>;

/// A page-aligned frame inside the physical address range.
pub open spec fn table_frame(t: u64) -> bool {
    t % 0x1000 == 0 && t + 0x1000 <= PHYS_LIMIT
}

/// Entry `i` of the table at `t`, when the walk follows it, points to a
/// recorded table one level further down whose key extends `t`'s by `i`.
pub open spec fn entry_ok<PTE: GenericPTE>(mem: Map<u64, u64>, tables: Labels, t: u64, i: u64) -> bool {
    let e = word_at(mem, (t + 8 * i) as u64);
    (tables[t].0 < 4 && PTE::present_of(e) && !PTE::huge_of(e)) ==> {
        &&& tables.contains_key(PTE::addr_of(e))
        &&& tables[PTE::addr_of(e)] == (tables[t].0 + 1, (tables[t].1 * 512 + i) as u64)
    }
}

/// Every recorded table is a frame of levels 1 to 4 whose entries are
/// consistent with the record.
pub open spec fn labels_wf<PTE: GenericPTE>(mem: Map<u64, u64>, tables: Labels) -> bool {
    &&& forall|t: u64| #[trigger] tables.contains_key(t) ==> table_frame(t) && 1 <= tables[t].0 <= 4
    &&& forall|t: u64, i: u64|
        tables.contains_key(t) && i < 512 ==> #[trigger] entry_ok::<PTE>(mem, tables, t, i)
}

/// The tables that the walk of `vaddr` passes through, from the root:
/// each is recorded with its level and `vaddr`'s key, and each entry on the
/// way points to the next.
pub open spec fn path_ok<PTE: GenericPTE>(mem: Map<u64, u64>, tables: Labels, path: Seq<u64>, vaddr: u64) -> bool {
    &&& 1 <= path.len() <= 4
    &&& forall|j: int|
        0 <= j < path.len() ==> tables.contains_key(#[trigger] path[j]) && tables[path[j]] == (
            (j + 1) as nat,
            key_of(vaddr, (j + 1) as nat),
        )
    &&& forall|j: int|
        0 <= j < path.len() - 1 ==> {
            let e = word_at(mem, entry_addr(#[trigger] path[j], vaddr, (j + 1) as nat));
            &&& PTE::present_of(e)
            &&& !PTE::huge_of(e)
            &&& PTE::addr_of(e) == path[j + 1]
        }
}

/// Entries of different tables, or different entries of one table, lie at
/// different addresses, and an entry lies inside its table's frame.
pub proof fn lemma_entry_addrs(t1: u64, i1: u64, t2: u64, i2: u64)
    requires
        table_frame(t1),
        table_frame(t2),
        i1 < 512,
        i2 < 512,
    ensures
        (t1 != t2 || i1 != i2) ==> (t1 + 8 * i1) as u64 != (t2 + 8 * i2) as u64,
        t1 != t2 ==> ((t1 + 8 * i1) as u64) < t2 || ((t1 + 8 * i1) as u64) >= t2 + 0x1000,
        t1 <= ((t1 + 8 * i1) as u64) && ((t1 + 8 * i1) as u64) < t1 + 0x1000,
        ((t1 + 8 * i1) as u64) % 8 == 0,
{
    assert((t1 + 8 * i1) as u64 == t1 + 8 * i1);
    assert((t2 + 8 * i2) as u64 == t2 + 8 * i2);
    if t1 != t2 {
        assert(t1 + 8 * i1 < t2 || t1 + 8 * i1 >= t2 + 0x1000) by (nonlinear_arith)
            requires
                t1 % 0x1000 == 0,
                t2 % 0x1000 == 0,
                t1 != t2,
                i1 < 512,
        ;
        assert(t2 + 8 * i2 < t1 || t2 + 8 * i2 >= t1 + 0x1000) by (nonlinear_arith)
            requires
                t1 % 0x1000 == 0,
                t2 % 0x1000 == 0,
                t1 != t2,
                i2 < 512,
        ;
    }
    assert((t1 + 8 * i1) % 8 == 0) by (nonlinear_arith)
        requires
            t1 % 0x1000 == 0,
    ;
}

/// The walk of `vaddr` from a recorded table gives the same result in two
/// memories that agree on every entry the walk could read.
pub proof fn lemma_locate_frame<PTE: GenericPTE>(
    m1: Map<u64, u64>,
    m2: Map<u64, u64>,
    tables: Labels,
    t: u64,
    l: nat,
    vaddr: u64,
)
    requires
        labels_wf::<PTE>(m1, tables),
        1 <= l <= 4,
        tables.contains_key(t),
        tables[t] == (l, key_of(vaddr, l)),
        forall|t2: u64, l2: nat|
            #![trigger entry_addr(t2, vaddr, l2)]
            tables.contains_key(t2) && tables[t2] == (l2, key_of(vaddr, l2)) && l <= l2 <= 4
                ==> word_at(m2, entry_addr(t2, vaddr, l2)) == word_at(m1, entry_addr(t2, vaddr, l2)),
    ensures
        locate::<PTE>(m2, t, l, vaddr) == locate::<PTE>(m1, t, l, vaddr),
        match locate::<PTE>(m1, t, l, vaddr) {
            Ok((ea, _)) => word_at(m2, ea) == word_at(m1, ea),
            Err(_) => true,
        },
    decreases 4 - l,
{
    let ea = entry_addr(t, vaddr, l);
    assert(word_at(m2, ea) == word_at(m1, ea));
    let e = word_at(m1, ea);
    lemma_key_step(vaddr, l);
    if l < 4 && !(l >= 2 && PTE::huge_of(e)) && PTE::present_of(e) && !PTE::huge_of(e) {
        assert(entry_ok::<PTE>(m1, tables, t, idx_of(vaddr, l)));
        lemma_locate_frame::<PTE>(m1, m2, tables, PTE::addr_of(e), l + 1, vaddr);
    }
}

/// Queries from the root agree in two memories that agree on every entry
/// a walk from the root could read.
pub proof fn lemma_query_frame<PTE: GenericPTE>(
    m1: Map<u64, u64>,
    m2: Map<u64, u64>,
    tables: Labels,
    root: u64,
    vaddr: u64,
)
    requires
        labels_wf::<PTE>(m1, tables),
        tables.contains_key(root),
        tables[root] == (1nat, 0u64),
        forall|t2: u64, l2: nat|
            #![trigger entry_addr(t2, vaddr, l2)]
            tables.contains_key(t2) && tables[t2] == (l2, key_of(vaddr, l2)) && 1 <= l2 <= 4
                ==> word_at(m2, entry_addr(t2, vaddr, l2)) == word_at(m1, entry_addr(t2, vaddr, l2)),
    ensures
        spec_query::<PTE>(m2, root, vaddr) == spec_query::<PTE>(m1, root, vaddr),
{
    lemma_locate_frame::<PTE>(m1, m2, tables, root, 1, vaddr);
}

/// Equal keys at `hi` mean equal keys and indices at every level below.
pub proof fn lemma_key_below(v: u64, w: u64, hi: nat, lo: nat)
    requires
        1 <= lo < hi <= 5,
        key_of(v, hi) == key_of(w, hi),
    ensures
        key_of(v, lo) == key_of(w, lo),
        idx_of(v, lo) == idx_of(w, lo),
    decreases hi - lo,
{
    lemma_key_prefix(v, w, (hi - 1) as nat);
    if lo < hi - 1 {
        lemma_key_below(v, w, (hi - 1) as nat, lo);
    }
}

/// An address with the same key as `vaddr` at the end of `vaddr`'s path
/// walks through the same tables.
pub proof fn lemma_path_locate<PTE: GenericPTE>(
    mem: Map<u64, u64>,
    tables: Labels,
    path: Seq<u64>,
    vaddr: u64,
    w: u64,
    j: nat,
)
    requires
        path_ok::<PTE>(mem, tables, path, vaddr),
        1 <= j <= path.len(),
        key_of(w, path.len() as nat) == key_of(vaddr, path.len() as nat),
    ensures
        locate::<PTE>(mem, path[j - 1], j, w) == locate::<PTE>(
            mem,
            path[path.len() - 1],
            path.len() as nat,
            w,
        ),
    decreases path.len() - j,
{
    if j < path.len() {
        lemma_key_below(vaddr, w, path.len() as nat, j);
        let ea = entry_addr(path[j - 1], vaddr, j);
        assert(entry_addr(path[j - 1], w, j) == ea);
        lemma_path_locate::<PTE>(mem, tables, path, vaddr, w, j + 1);
    }
}

/// Memory `m2` agrees with `m1` outside the frame at `f`.
pub open spec fn same_outside(m1: Map<u64, u64>, m2: Map<u64, u64>, f: u64) -> bool {
    forall|a: u64| (a < f || a >= f + 0x1000) ==> #[trigger] word_at(m2, a) == word_at(m1, a)
}

/// Memory `m2` agrees with `m1` except at `ea`.
pub open spec fn same_except(m1: Map<u64, u64>, m2: Map<u64, u64>, ea: u64) -> bool {
    forall|a: u64| a != ea ==> #[trigger] word_at(m2, a) == word_at(m1, a)
}

/// Rounding down to a page size keeps 4 KiB alignment.
pub proof fn lemma_aligned_4k(paddr: u64, size: PageSize)
    ensures
        ((paddr - paddr % size.spec_bytes()) as u64) % 0x1000 == 0,
        paddr - paddr % size.spec_bytes() <= paddr,
{
    let s = size.spec_bytes() as int;
    let p = paddr as int;
    assert((p - p % s) % 0x1000 == 0) by (nonlinear_arith)
        requires
            s == 0x1000 || s == 0x20_0000 || s == 0x4000_0000,
    {
        assert((p - p % s) % s == 0);
    }
}

/// Writing a frame that is not a recorded table changes no query and keeps
/// the record and a path consistent.
pub proof fn lemma_fresh_frame<PTE: GenericPTE>(
    m1: Map<u64, u64>,
    m2: Map<u64, u64>,
    tables: Labels,
    root: u64,
    path: Seq<u64>,
    vaddr: u64,
    f: u64,
)
    requires
        labels_wf::<PTE>(m1, tables),
        tables.contains_key(root),
        tables[root] == (1nat, 0u64),
        path_ok::<PTE>(m1, tables, path, vaddr),
        table_frame(f),
        !tables.contains_key(f),
        same_outside(m1, m2, f),
    ensures
        labels_wf::<PTE>(m2, tables),
        path_ok::<PTE>(m2, tables, path, vaddr),
        forall|w: u64| spec_query::<PTE>(m2, root, w) == spec_query::<PTE>(m1, root, w),
{
    assert forall|t: u64, i: u64| tables.contains_key(t) && i < 512 implies #[trigger] entry_ok::<PTE>(m2, tables, t, i) by {
        lemma_entry_addrs(t, i, f, 0);
        assert(entry_ok::<PTE>(m1, tables, t, i));
    }
    assert forall|j: int| 0 <= j < path.len() - 1 implies {
        let e = word_at(m2, entry_addr(#[trigger] path[j], vaddr, (j + 1) as nat));
        &&& PTE::present_of(e)
        &&& !PTE::huge_of(e)
        &&& PTE::addr_of(e) == path[j + 1]
    } by {
        lemma_key_step(vaddr, (j + 1) as nat);
        lemma_entry_addrs(path[j], idx_of(vaddr, (j + 1) as nat), f, 0);
    }
    assert forall|w: u64| spec_query::<PTE>(m2, root, w) == spec_query::<PTE>(m1, root, w) by {
        assert forall|t2: u64, l2: nat|
            #![trigger entry_addr(t2, w, l2)]
            tables.contains_key(t2) && tables[t2] == (l2, key_of(w, l2)) && 1 <= l2 <= 4 implies word_at(
                m2,
                entry_addr(t2, w, l2),
            ) == word_at(m1, entry_addr(t2, w, l2)) by {
            lemma_key_step(w, l2);
            lemma_entry_addrs(t2, idx_of(w, l2), f, 0);
        }
        lemma_query_frame::<PTE>(m1, m2, tables, root, w);
    }
}

/// Writing entry `ea` of the last table on `vaddr`'s path changes only the
/// queries whose key at the next level is `vaddr`'s.
pub proof fn lemma_entry_write_frame<PTE: GenericPTE>(
    m1: Map<u64, u64>,
    m2: Map<u64, u64>,
    tables: Labels,
    root: u64,
    path: Seq<u64>,
    vaddr: u64,
    w: u64,
)
    requires
        labels_wf::<PTE>(m1, tables),
        tables.contains_key(root),
        tables[root] == (1nat, 0u64),
        path_ok::<PTE>(m1, tables, path, vaddr),
        same_except(m1, m2, entry_addr(path.last(), vaddr, path.len() as nat)),
        key_of(w, path.len() + 1) != key_of(vaddr, path.len() + 1),
    ensures
        spec_query::<PTE>(m2, root, w) == spec_query::<PTE>(m1, root, w),
{
    let level = path.len() as nat;
    let table = path.last();
    assert(tables.contains_key(table) && tables[table] == (level, key_of(vaddr, level)));
    lemma_key_step(vaddr, level);
    lemma_key_step(w, level);
    assert forall|t2: u64, l2: nat|
        #![trigger entry_addr(t2, w, l2)]
        tables.contains_key(t2) && tables[t2] == (l2, key_of(w, l2)) && 1 <= l2 <= 4 implies word_at(
            m2,
            entry_addr(t2, w, l2),
        ) == word_at(m1, entry_addr(t2, w, l2)) by {
        lemma_key_step(w, l2);
        lemma_entry_addrs(t2, idx_of(w, l2), table, idx_of(vaddr, level));
        if t2 == table {
            assert(l2 == level);
            assert(key_of(w, level) == key_of(vaddr, level));
            assert(idx_of(w, level) != idx_of(vaddr, level));
        }
    }
    lemma_query_frame::<PTE>(m1, m2, tables, root, w);
}

/// After writing `raw` into entry `ea` at the end of `vaddr`'s path, every
/// address with `vaddr`'s key at the next level is mapped by `raw`.
pub proof fn lemma_leaf_write<PTE: GenericPTE>(
    m1: Map<u64, u64>,
    m2: Map<u64, u64>,
    tables: Labels,
    root: u64,
    path: Seq<u64>,
    vaddr: u64,
    raw: u64,
)
    requires
        labels_wf::<PTE>(m1, tables),
        tables.contains_key(root),
        tables[root] == (1nat, 0u64),
        path_ok::<PTE>(m1, tables, path, vaddr),
        path[0] == root,
        2 <= path.len() <= 4,
        same_except(m1, m2, entry_addr(path.last(), vaddr, path.len() as nat)),
        word_at(m2, entry_addr(path.last(), vaddr, path.len() as nat)) == raw,
        path.len() == 4 || PTE::huge_of(raw) || raw == 0,
    ensures
        labels_wf::<PTE>(m2, tables),
        path_ok::<PTE>(m2, tables, path, vaddr),
        forall|w: u64|
            #![trigger spec_query::<PTE>(m2, root, w)]
            key_of(w, path.len() + 1) == key_of(vaddr, path.len() + 1) ==> spec_query::<PTE>(
                m2,
                root,
                w,
            ) == if raw == 0 {
                Err::<(u64, MemFlags, PageSize), PagingError>(PagingError::NotMapped)
            } else {
                Ok(
                    (
                        (PTE::addr_of(raw) + w % leaf_size(path.len() as nat).spec_bytes()) as u64,
                        PTE::flags_of(raw),
                        leaf_size(path.len() as nat),
                    ),
                )
            },
{
    let level = path.len() as nat;
    let table = path.last();
    let ea = entry_addr(table, vaddr, level);
    lemma_key_step(vaddr, level);
    PTE::lemma_zero_entry();
    assert forall|t: u64, i: u64| tables.contains_key(t) && i < 512 implies #[trigger] entry_ok::<PTE>(m2, tables, t, i) by {
        lemma_entry_addrs(t, i, table, idx_of(vaddr, level));
        assert(entry_ok::<PTE>(m1, tables, t, i));
    }
    assert forall|j: int| 0 <= j < path.len() - 1 implies {
        let e = word_at(m2, entry_addr(#[trigger] path[j], vaddr, (j + 1) as nat));
        &&& PTE::present_of(e)
        &&& !PTE::huge_of(e)
        &&& PTE::addr_of(e) == path[j + 1]
    } by {
        lemma_key_step(vaddr, (j + 1) as nat);
        lemma_entry_addrs(path[j], idx_of(vaddr, (j + 1) as nat), table, idx_of(vaddr, level));
        assert(path[j] != table);
    }
    assert forall|w: u64|
        #![trigger spec_query::<PTE>(m2, root, w)]
        key_of(w, level + 1) == key_of(vaddr, level + 1) implies spec_query::<PTE>(m2, root, w) == if raw == 0 {
            Err::<(u64, MemFlags, PageSize), PagingError>(PagingError::NotMapped)
        } else {
            Ok(
                (
                    (PTE::addr_of(raw) + w % leaf_size(level).spec_bytes()) as u64,
                    PTE::flags_of(raw),
                    leaf_size(level),
                ),
            )
        } by {
        lemma_key_prefix(w, vaddr, level);
        lemma_path_locate::<PTE>(m2, tables, path, vaddr, w, 1);
        assert(entry_addr(table, w, level) == ea);
    }
}

/// Linking a fresh zeroed table into the empty entry at the end of
/// `vaddr`'s path changes no query, keeps the record consistent, and
/// extends the path.
pub proof fn lemma_link_table<PTE: GenericPTE>(
    m1: Map<u64, u64>,
    m2: Map<u64, u64>,
    tables: Labels,
    root: u64,
    path: Seq<u64>,
    vaddr: u64,
    f: u64,
)
    requires
        labels_wf::<PTE>(m1, tables),
        tables.contains_key(root),
        tables[root] == (1nat, 0u64),
        path_ok::<PTE>(m1, tables, path, vaddr),
        path[0] == root,
        1 <= path.len() < 4,
        word_at(m1, entry_addr(path.last(), vaddr, path.len() as nat)) == 0,
        tables.contains_key(f),
        tables[f] == (path.len() + 1, key_of(vaddr, path.len() + 1)),
        forall|a: u64| f <= a < f + 0x1000 && a % 8 == 0 ==> #[trigger] word_at(m1, a) == 0,
        same_except(m1, m2, entry_addr(path.last(), vaddr, path.len() as nat)),
        PTE::present_of(word_at(m2, entry_addr(path.last(), vaddr, path.len() as nat))),
        !PTE::huge_of(word_at(m2, entry_addr(path.last(), vaddr, path.len() as nat))),
        PTE::addr_of(word_at(m2, entry_addr(path.last(), vaddr, path.len() as nat))) == f,
    ensures
        labels_wf::<PTE>(m2, tables),
        path_ok::<PTE>(m2, tables, path.push(f), vaddr),
        forall|w: u64| spec_query::<PTE>(m2, root, w) == spec_query::<PTE>(m1, root, w),
{
    let level = path.len() as nat;
    let table = path.last();
    let ea = entry_addr(table, vaddr, level);
    lemma_key_step(vaddr, level);
    PTE::lemma_zero_entry();
    assert(f != table);
    assert forall|t: u64, i: u64| tables.contains_key(t) && i < 512 implies #[trigger] entry_ok::<PTE>(m2, tables, t, i) by {
        lemma_entry_addrs(t, i, table, idx_of(vaddr, level));
        assert(entry_ok::<PTE>(m1, tables, t, i));
    }
    let next_path = path.push(f);
    assert forall|j: int| 0 <= j < next_path.len() implies tables.contains_key(#[trigger] next_path[j]) && tables[next_path[j]] == (
        (j + 1) as nat,
        key_of(vaddr, (j + 1) as nat),
    ) by {
        if j < path.len() {
            assert(next_path[j] == path[j]);
        }
    }
    assert forall|j: int| 0 <= j < next_path.len() - 1 implies {
        let e = word_at(m2, entry_addr(#[trigger] next_path[j], vaddr, (j + 1) as nat));
        &&& PTE::present_of(e)
        &&& !PTE::huge_of(e)
        &&& PTE::addr_of(e) == next_path[j + 1]
    } by {
        assert(next_path[j] == path[j]);
        if j < path.len() - 1 {
            lemma_key_step(vaddr, (j + 1) as nat);
            lemma_entry_addrs(path[j], idx_of(vaddr, (j + 1) as nat), table, idx_of(vaddr, level));
            assert(path[j] != table);
        }
    }
    assert forall|w: u64| spec_query::<PTE>(m2, root, w) == spec_query::<PTE>(m1, root, w) by {
        if key_of(w, level + 1) != key_of(vaddr, level + 1) {
            lemma_entry_write_frame::<PTE>(m1, m2, tables, root, path, vaddr, w);
        } else {
            lemma_key_prefix(w, vaddr, level);
            lemma_key_step(w, level);
            lemma_path_locate::<PTE>(m1, tables, path, vaddr, w, 1);
            assert(entry_addr(table, w, level) == ea);
            lemma_path_locate::<PTE>(m2, tables, next_path, vaddr, w, 1);
            lemma_key_step(w, level + 1);
            lemma_entry_addrs(f, idx_of(w, level + 1), table, idx_of(vaddr, level));
            assert(word_at(m2, entry_addr(f, w, level + 1)) == 0);
        }
    }
}

/// A region that lies inside one canonical half and ends below the top
/// page of the address space.
pub open spec fn region_in_half(start: u64, size: u64) -> bool {
    start + size <= 0x8000_0000_0000 || (start >= 0xffff_8000_0000_0000 && start + size
        < 0x1_0000_0000_0000_0000)
}

/// Where a region's mapping of `vaddr` lands when it uses pages of `size`:
/// the mapper's address for the page, rounded down to the page, plus the
/// offset of `vaddr` in it.
pub open spec fn page_target(mapper: Mapper, vaddr: u64, size: PageSize) -> int {
    let page_paddr = mapper.spec_map((vaddr - vaddr % size.spec_bytes()) as u64);
    page_paddr - page_paddr % size.spec_bytes() + vaddr % size.spec_bytes()
}

/// The query of `vaddr` shows `region`'s mapping: the mapper's address,
/// every flag of the region that the entry format keeps (and no execute
/// permission the region lacks), and a leaf inside the region of the size
/// `map` picks at the leaf's start, which needs the mapper's address of the
/// page aligned to a huge size.
pub open spec fn region_mapped<PTE: GenericPTE>(
    q: PagingResult<(u64, MemFlags, PageSize)>,
    region: MemoryRegion,
    vaddr: u64,
) -> bool {
    let s = q->Ok_0.2.spec_bytes();
    let base = vaddr - vaddr % s;
    &&& q is Ok
    &&& q->Ok_0.1.spec_contains(region.flags.bits & PTE::spec_kept_flags())
    &&& (region.flags.bits != 0 && region.flags.bits & MemFlags::EXECUTE == 0) ==> q->Ok_0.1.bits
        & MemFlags::EXECUTE == 0
    &&& q->Ok_0.0 == page_target(region.mapper, vaddr, q->Ok_0.2)
    &&& q->Ok_0.2 != PageSize::Size4K ==> region.mapper.spec_map(base as u64) % s == 0
    &&& region.flags.spec_contains(MemFlags::NO_HUGEPAGES) ==> q->Ok_0.2 == PageSize::Size4K
    &&& region.start <= base && base + s <= region.start + region.size
    &&& q->Ok_0.2 == greedy_size(region, base as u64, (region.start + region.size - base) as u64)
}

/// Inside an aligned page, the offset is the distance to the page start.
pub proof fn lemma_in_page(v: u64, base: u64, size: PageSize)
    requires
        base % size.spec_bytes() == 0,
        base <= v,
        v - base < size.spec_bytes(),
    ensures
        v % size.spec_bytes() == v - base,
        v - v % size.spec_bytes() == base,
{
    let s = size.spec_bytes() as int;
    assert((v as int) % s == v - base) by (nonlinear_arith)
        requires
            (base as int) % s == 0,
            base <= v,
            v - base < s,
            s > 0,
    ;
}

/// A root frame whose entries copy those of `root` answers every query as
/// `root` does, as long as no recorded table lies in its frame.
pub proof fn lemma_copied_root<PTE: GenericPTE>(
    m1: Map<u64, u64>,
    m2: Map<u64, u64>,
    tables: Labels,
    root: u64,
    f: u64,
    vaddr: u64,
)
    requires
        labels_wf::<PTE>(m1, tables),
        tables.contains_key(root),
        tables[root] == (1nat, 0u64),
        table_frame(f),
        !tables.contains_key(f),
        same_outside(m1, m2, f),
        forall|i: u64| i < 512 ==> #[trigger] word_at(m2, (f + 8 * i) as u64) == word_at(m1, (root + 8 * i) as u64),
    ensures
        spec_query::<PTE>(m2, f, vaddr) == spec_query::<PTE>(m1, root, vaddr),
{
    lemma_key_step(vaddr, 1);
    let i = idx_of(vaddr, 1);
    assert(word_at(m2, entry_addr(f, vaddr, 1)) == word_at(m1, entry_addr(root, vaddr, 1)));
    let e = word_at(m1, entry_addr(root, vaddr, 1));
    if PTE::present_of(e) && !PTE::huge_of(e) {
        assert(entry_ok::<PTE>(m1, tables, root, i));
        lemma_key_step(vaddr, 2);
        assert forall|t2: u64, l2: nat|
            #![trigger entry_addr(t2, vaddr, l2)]
            tables.contains_key(t2) && tables[t2] == (l2, key_of(vaddr, l2)) && 2 <= l2 <= 4 implies word_at(
                m2,
                entry_addr(t2, vaddr, l2),
            ) == word_at(m1, entry_addr(t2, vaddr, l2)) by {
            lemma_key_step(vaddr, l2);
            lemma_entry_addrs(t2, idx_of(vaddr, l2), f, 0);
        }
        lemma_locate_frame::<PTE>(m1, m2, tables, PTE::addr_of(e), 2, vaddr);
    }
}

/// A walk that finds a leaf of `size` finds it at a level no higher than
/// the one it started from.
pub proof fn lemma_locate_level<PTE: GenericPTE>(mem: Map<u64, u64>, t: u64, l: nat, v: u64)
    requires
        1 <= l <= 4,
    ensures
        locate::<PTE>(mem, t, l, v) is Ok ==> level_of(locate::<PTE>(mem, t, l, v)->Ok_0.1) >= l,
    decreases 4 - l,
{
    if l < 4 {
        let e = word_at(mem, entry_addr(t, v, l));
        lemma_locate_level::<PTE>(mem, PTE::addr_of(e), l + 1, v);
    }
}

/// Two addresses in the same page of the size the walk found share the
/// walk: the same entry and size.
pub proof fn lemma_locate_same_page<PTE: GenericPTE>(mem: Map<u64, u64>, t: u64, l: nat, v: u64, w: u64)
    requires
        1 <= l <= 4,
        locate::<PTE>(mem, t, l, v) is Ok,
        key_of(v, level_of(locate::<PTE>(mem, t, l, v)->Ok_0.1) + 1) == key_of(
            w,
            level_of(locate::<PTE>(mem, t, l, v)->Ok_0.1) + 1,
        ),
    ensures
        locate::<PTE>(mem, t, l, w) == locate::<PTE>(mem, t, l, v),
    decreases 4 - l,
{
    let s = locate::<PTE>(mem, t, l, v)->Ok_0.1;
    lemma_locate_level::<PTE>(mem, t, l, v);
    lemma_key_below(v, w, level_of(s) + 1, l);
    assert(entry_addr(t, w, l) == entry_addr(t, v, l));
    if l < 4 {
        let e = word_at(mem, entry_addr(t, v, l));
        if !(l >= 2 && PTE::huge_of(e)) && PTE::present_of(e) && !PTE::huge_of(e) {
            lemma_locate_same_page::<PTE>(mem, PTE::addr_of(e), l + 1, v, w);
        }
    }
}

/// The page size `map` picks at `vaddr` with `left` bytes of `region` to
/// go: the largest whose alignment holds on `vaddr` and on the mapper's
/// address and that fits, and 4 KiB for a region marked NO_HUGEPAGES.
pub open spec fn greedy_size(region: MemoryRegion, vaddr: u64, left: u64) -> PageSize {
    let paddr = region.mapper.spec_map(vaddr);
    let huge_ok = !region.flags.spec_contains(MemFlags::NO_HUGEPAGES);
    if vaddr % 0x4000_0000 == 0 && paddr % 0x4000_0000 == 0 && left >= 0x4000_0000 && huge_ok {
        PageSize::Size1G
    } else if vaddr % 0x20_0000 == 0 && paddr % 0x20_0000 == 0 && left >= 0x20_0000 && huge_ok {
        PageSize::Size2M
    } else {
        PageSize::Size4K
    }
}

/// `region` is one page of the size `map` picks for it, its frame lies in
/// the physical range, and the table at `root` in `mem` has room for it.
pub open spec fn single_page_mappable<PTE: GenericPTE>(mem: Map<u64, u64>, root: u64, region: MemoryRegion) -> bool {
    let size = greedy_size(region, region.start, region.size);
    &&& region.size == size.spec_bytes()
    &&& region.mapper.spec_map(region.start) < PHYS_LIMIT
    &&& can_map::<PTE>(mem, root, 1, region.start, level_of(size))
}

/// The region is not empty, its first page's frame lies in the physical
/// range, and the table at `root` in `mem` has no room for that page.
pub open spec fn first_page_blocked<PTE: GenericPTE>(mem: Map<u64, u64>, root: u64, region: MemoryRegion) -> bool {
    &&& region.size > 0
    &&& region.mapper.spec_map(region.start) < PHYS_LIMIT
    &&& !can_map::<PTE>(mem, root, 1, region.start, level_of(greedy_size(region, region.start, region.size)))
}

/// `can_map` from a recorded table reads only entries of recorded tables
/// on the walk of `vaddr`; memories that agree there agree on it.
pub proof fn lemma_can_map_frame<PTE: GenericPTE>(
    m1: Map<u64, u64>,
    m2: Map<u64, u64>,
    tables: Labels,
    t: u64,
    l: nat,
    vaddr: u64,
    target: nat,
)
    requires
        labels_wf::<PTE>(m1, tables),
        1 <= l <= target <= 4,
        tables.contains_key(t),
        tables[t] == (l, key_of(vaddr, l)),
        forall|t2: u64, l2: nat|
            #![trigger entry_addr(t2, vaddr, l2)]
            tables.contains_key(t2) && tables[t2] == (l2, key_of(vaddr, l2)) && l <= l2 <= target
                ==> word_at(m2, entry_addr(t2, vaddr, l2)) == word_at(m1, entry_addr(t2, vaddr, l2)),
    ensures
        can_map::<PTE>(m2, t, l, vaddr, target) == can_map::<PTE>(m1, t, l, vaddr, target),
    decreases target - l,
{
    let ea = entry_addr(t, vaddr, l);
    assert(word_at(m2, ea) == word_at(m1, ea));
    let e = word_at(m1, ea);
    lemma_key_step(vaddr, l);
    if l < target && e != 0 && PTE::present_of(e) && !PTE::huge_of(e) {
        assert(entry_ok::<PTE>(m1, tables, t, idx_of(vaddr, l)));
        lemma_can_map_frame::<PTE>(m1, m2, tables, PTE::addr_of(e), l + 1, vaddr, target);
    }
}

/// An address with the same key as `vaddr` at the end of `vaddr`'s path
/// has room for a leaf exactly when it has room from the path's last table.
pub proof fn lemma_path_can_map<PTE: GenericPTE>(
    mem: Map<u64, u64>,
    tables: Labels,
    path: Seq<u64>,
    vaddr: u64,
    w: u64,
    j: nat,
    target: nat,
)
    requires
        path_ok::<PTE>(mem, tables, path, vaddr),
        1 <= j <= path.len() <= target <= 4,
        key_of(w, path.len() as nat) == key_of(vaddr, path.len() as nat),
    ensures
        can_map::<PTE>(mem, path[j - 1], j, w, target) == can_map::<PTE>(
            mem,
            path[path.len() - 1],
            path.len() as nat,
            w,
            target,
        ),
    decreases path.len() - j,
{
    if j < path.len() {
        lemma_key_below(vaddr, w, path.len() as nat, j);
        assert(entry_addr(path[j - 1], w, j) == entry_addr(path[j - 1], vaddr, j));
        PTE::lemma_zero_entry();
        lemma_path_can_map::<PTE>(mem, tables, path, vaddr, w, j + 1, target);
    }
}

/// Writing entry `ea` at the end of `vaddr`'s path keeps room for every
/// address whose walk to its target level does not read that entry.
pub proof fn lemma_entry_write_can_map<PTE: GenericPTE>(
    m1: Map<u64, u64>,
    m2: Map<u64, u64>,
    tables: Labels,
    root: u64,
    path: Seq<u64>,
    vaddr: u64,
    w: u64,
    target: nat,
)
    requires
        labels_wf::<PTE>(m1, tables),
        tables.contains_key(root),
        tables[root] == (1nat, 0u64),
        path_ok::<PTE>(m1, tables, path, vaddr),
        same_except(m1, m2, entry_addr(path.last(), vaddr, path.len() as nat)),
        2 <= target <= 4,
        target < path.len() || key_of(w, path.len() + 1) != key_of(vaddr, path.len() + 1),
    ensures
        can_map::<PTE>(m2, root, 1, w, target) == can_map::<PTE>(m1, root, 1, w, target),
{
    let level = path.len() as nat;
    let table = path.last();
    assert(tables.contains_key(table) && tables[table] == (level, key_of(vaddr, level)));
    lemma_key_step(vaddr, level);
    lemma_key_step(w, level);
    assert forall|t2: u64, l2: nat|
        #![trigger entry_addr(t2, w, l2)]
        tables.contains_key(t2) && tables[t2] == (l2, key_of(w, l2)) && 1 <= l2 <= target implies word_at(
            m2,
            entry_addr(t2, w, l2),
        ) == word_at(m1, entry_addr(t2, w, l2)) by {
        lemma_key_step(w, l2);
        lemma_entry_addrs(t2, idx_of(w, l2), table, idx_of(vaddr, level));
        if t2 == table {
            assert(l2 == level);
            assert(key_of(w, level) == key_of(vaddr, level));
            assert(idx_of(w, level) != idx_of(vaddr, level));
        }
    }
    lemma_can_map_frame::<PTE>(m1, m2, tables, root, 1, w, target);
}

/// The smaller of two levels.
pub open spec fn min_level(a: nat, b: nat) -> nat {
    if a < b {
        a
    } else {
        b
    }
}

/// Going from `m1` to `m2` kept room for a leaf of every level for every
/// address outside the block, at the larger of the two page sizes, that
/// holds `vaddr`'s page of level `target`.
pub open spec fn keeps_room<PTE: GenericPTE>(m1: Map<u64, u64>, m2: Map<u64, u64>, root: u64, vaddr: u64, target: nat) -> bool {
    forall|w: u64, lw: nat|
        2 <= lw <= 4 && can_map::<PTE>(m1, root, 1, w, lw) && key_of(w, min_level(lw, target) + 1) != key_of(
            vaddr,
            min_level(lw, target) + 1,
        ) ==> #[trigger] can_map::<PTE>(m2, root, 1, w, lw)
}

/// Keeping room composes.
pub proof fn lemma_keeps_room_trans<PTE: GenericPTE>(
    m1: Map<u64, u64>,
    m2: Map<u64, u64>,
    m3: Map<u64, u64>,
    root: u64,
    vaddr: u64,
    target: nat,
)
    requires
        keeps_room::<PTE>(m1, m2, root, vaddr, target),
        keeps_room::<PTE>(m2, m3, root, vaddr, target),
    ensures
        keeps_room::<PTE>(m1, m3, root, vaddr, target),
{
    assert forall|w: u64, lw: nat|
        2 <= lw <= 4 && can_map::<PTE>(m1, root, 1, w, lw) && key_of(w, min_level(lw, target) + 1) != key_of(
            vaddr,
            min_level(lw, target) + 1,
        ) implies #[trigger] can_map::<PTE>(m3, root, 1, w, lw) by {
        assert(can_map::<PTE>(m2, root, 1, w, lw));
    }
}

/// Writing a frame that is not a recorded table keeps every room.
pub proof fn lemma_fresh_frame_room<PTE: GenericPTE>(
    m1: Map<u64, u64>,
    m2: Map<u64, u64>,
    tables: Labels,
    root: u64,
    vaddr: u64,
    target: nat,
    f: u64,
)
    requires
        labels_wf::<PTE>(m1, tables),
        tables.contains_key(root),
        tables[root] == (1nat, 0u64),
        table_frame(f),
        !tables.contains_key(f),
        same_outside(m1, m2, f),
    ensures
        keeps_room::<PTE>(m1, m2, root, vaddr, target),
{
    assert forall|w: u64, lw: nat|
        2 <= lw <= 4 && can_map::<PTE>(m1, root, 1, w, lw) && key_of(w, min_level(lw, target) + 1) != key_of(
            vaddr,
            min_level(lw, target) + 1,
        ) implies #[trigger] can_map::<PTE>(m2, root, 1, w, lw) by {
        assert forall|t2: u64, l2: nat|
            #![trigger entry_addr(t2, w, l2)]
            tables.contains_key(t2) && tables[t2] == (l2, key_of(w, l2)) && 1 <= l2 <= lw implies word_at(
                m2,
                entry_addr(t2, w, l2),
            ) == word_at(m1, entry_addr(t2, w, l2)) by {
            lemma_key_step(w, l2);
            lemma_entry_addrs(t2, idx_of(w, l2), f, 0);
        }
        lemma_can_map_frame::<PTE>(m1, m2, tables, root, 1, w, lw);
    }
}

/// Linking a fresh zeroed table into the empty entry at the end of
/// `vaddr`'s path, below the target level, keeps every room.
pub proof fn lemma_link_room<PTE: GenericPTE>(
    m1: Map<u64, u64>,
    m2: Map<u64, u64>,
    tables: Labels,
    root: u64,
    path: Seq<u64>,
    vaddr: u64,
    f: u64,
    target: nat,
)
    requires
        labels_wf::<PTE>(m1, tables),
        tables.contains_key(root),
        tables[root] == (1nat, 0u64),
        path_ok::<PTE>(m1, tables, path, vaddr),
        path[0] == root,
        1 <= path.len() < target <= 4,
        word_at(m1, entry_addr(path.last(), vaddr, path.len() as nat)) == 0,
        tables.contains_key(f),
        tables[f] == (path.len() + 1, key_of(vaddr, path.len() + 1)),
        forall|a: u64| f <= a < f + 0x1000 && a % 8 == 0 ==> #[trigger] word_at(m1, a) == 0,
        same_except(m1, m2, entry_addr(path.last(), vaddr, path.len() as nat)),
        PTE::present_of(word_at(m2, entry_addr(path.last(), vaddr, path.len() as nat))),
        !PTE::huge_of(word_at(m2, entry_addr(path.last(), vaddr, path.len() as nat))),
        PTE::addr_of(word_at(m2, entry_addr(path.last(), vaddr, path.len() as nat))) == f,
    ensures
        keeps_room::<PTE>(m1, m2, root, vaddr, target),
{
    let level = path.len() as nat;
    let table = path.last();
    lemma_link_table::<PTE>(m1, m2, tables, root, path, vaddr, f);
    let p2 = path.push(f);
    PTE::lemma_zero_entry();
    assert forall|w: u64, lw: nat|
        2 <= lw <= 4 && can_map::<PTE>(m1, root, 1, w, lw) && key_of(w, min_level(lw, target) + 1) != key_of(
            vaddr,
            min_level(lw, target) + 1,
        ) implies #[trigger] can_map::<PTE>(m2, root, 1, w, lw) by {
        if lw < level || key_of(w, level + 1) != key_of(vaddr, level + 1) {
            lemma_entry_write_can_map::<PTE>(m1, m2, tables, root, path, vaddr, w, lw);
        } else {
            assert(lw > level);
            lemma_path_can_map::<PTE>(m2, tables, p2, vaddr, w, 1, lw);
            lemma_key_step(w, level + 1);
            lemma_key_step(vaddr, level);
            lemma_entry_addrs(f, idx_of(w, level + 1), table, idx_of(vaddr, level));
            assert(word_at(m2, entry_addr(f, w, level + 1)) == 0);
            assert(p2[p2.len() - 1] == f);
            assert(can_map::<PTE>(m2, f, level + 1, w, lw));
        }
    }
}

/// Every page `map` would pick from `vaddr`, with `left` bytes to go, has
/// its frame in the physical range and room in the table at `root`.
pub open spec fn greedy_ok<PTE: GenericPTE>(
    mem: Map<u64, u64>,
    root: u64,
    region: MemoryRegion,
    vaddr: u64,
    left: u64,
) -> bool
    decreases left,
{
    if left == 0 {
        true
    } else {
        let g = greedy_size(region, vaddr, left);
        if g.spec_bytes() <= left && vaddr + g.spec_bytes() <= u64::MAX {
            &&& region.mapper.spec_map(vaddr) < PHYS_LIMIT
            &&& can_map::<PTE>(mem, root, 1, vaddr, level_of(g))
            &&& greedy_ok::<PTE>(mem, root, region, (vaddr + g.spec_bytes()) as u64, (left - g.spec_bytes()) as u64)
        } else {
            false
        }
    }
}

/// Mapping a page that ends before `vaddr` keeps every later page's room.
pub proof fn lemma_greedy_ok_transfer<PTE: GenericPTE>(
    m1: Map<u64, u64>,
    m2: Map<u64, u64>,
    root: u64,
    region: MemoryRegion,
    vaddr: u64,
    left: u64,
    q: u64,
    qsize: PageSize,
)
    requires
        greedy_ok::<PTE>(m1, root, region, vaddr, left),
        keeps_room::<PTE>(m1, m2, root, q, level_of(qsize)),
        q % qsize.spec_bytes() == 0,
        region.start <= q,
        q + qsize.spec_bytes() <= vaddr,
        vaddr % 0x1000 == 0,
        vaddr + left <= region.start + region.size,
        region_in_half(region.start, region.size),
    ensures
        greedy_ok::<PTE>(m2, root, region, vaddr, left),
    decreases left,
{
    if left > 0 {
        let g = greedy_size(region, vaddr, left);
        if g.spec_bytes() <= left && vaddr + g.spec_bytes() <= u64::MAX {
            let lp = level_of(g);
            let lq = level_of(qsize);
            assert(vaddr % g.spec_bytes() == 0);
            lemma_page_key(vaddr, q, qsize);
            lemma_page_key(q, vaddr, g);
            assert(key_of(vaddr, min_level(lp, lq) + 1) != key_of(q, min_level(lp, lq) + 1));
            assert(can_map::<PTE>(m2, root, 1, vaddr, lp));
            assert((vaddr + g.spec_bytes()) % 0x1000 == 0);
            lemma_greedy_ok_transfer::<PTE>(
                m1,
                m2,
                root,
                region,
                (vaddr + g.spec_bytes()) as u64,
                (left - g.spec_bytes()) as u64,
                q,
                qsize,
            );
        }
    }
}

/// The block of `w` for a leaf of level `lw` (the aligned page of that
/// size that holds `w`) shares no address with `region`.
pub open spec fn block_outside(w: u64, lw: nat, region: MemoryRegion) -> bool {
    let s = leaf_size(lw).spec_bytes();
    let b = w - w % s;
    b + s <= region.start || b >= region.start + region.size
}

/// Going from `m1` to `m2` kept room for every canonical address whose
/// block lies outside `region`.
pub open spec fn region_keeps_room<PTE: GenericPTE>(m1: Map<u64, u64>, m2: Map<u64, u64>, root: u64, region: MemoryRegion) -> bool {
    forall|w: u64, lw: nat|
        2 <= lw <= 4 && is_canonical(w) && block_outside(w, lw, region) && can_map::<PTE>(m1, root, 1, w, lw)
            ==> #[trigger] can_map::<PTE>(m2, root, 1, w, lw)
}

/// A memory that did not change kept every room.
pub proof fn lemma_region_room_same<PTE: GenericPTE>(m: Map<u64, u64>, root: u64, region: MemoryRegion)
    ensures
        region_keeps_room::<PTE>(m, m, root, region),
{
}

/// The start of a canonical address's block is canonical.
pub proof fn lemma_block_canonical(w: u64, lw: nat)
    requires
        is_canonical(w),
        2 <= lw <= 4,
    ensures
        is_canonical((w - w % leaf_size(lw).spec_bytes()) as u64),
        ((w - w % leaf_size(lw).spec_bytes()) as u64) % leaf_size(lw).spec_bytes() == 0,
        w - w % leaf_size(lw).spec_bytes() <= w,
        w < w - w % leaf_size(lw).spec_bytes() + leaf_size(lw).spec_bytes(),
        ((w - w % leaf_size(lw).spec_bytes()) as u64) as int == w - w % leaf_size(lw).spec_bytes(),
        level_of(leaf_size(lw)) == lw,
{
    let s = leaf_size(lw).spec_bytes() as int;
    let x = w as int;
    assert((x - x % s) % s == 0 && x - x % s <= x && x - x % s >= 0 && x < x - x % s + s) by (nonlinear_arith)
        requires
            s > 0,
            x >= 0,
    ;
    if x >= 0xffff_8000_0000_0000 {
        assert(x - x % s >= 0xffff_8000_0000_0000) by (nonlinear_arith)
            requires
                s == 0x1000 || s == 0x20_0000 || s == 0x4000_0000,
                x >= 0xffff_8000_0000_0000,
        {
            assert(0xffff_8000_0000_0000int % s == 0);
            assert(x - x % s == (x / s) * s);
            assert(x / s >= 0xffff_8000_0000_0000int / s);
        }
    }
}

/// Mapping a page of `region` keeps the room of every address whose block
/// lies outside the region.
pub proof fn lemma_region_room_step<PTE: GenericPTE>(
    m0: Map<u64, u64>,
    m1: Map<u64, u64>,
    m2: Map<u64, u64>,
    root: u64,
    region: MemoryRegion,
    q: u64,
    qsize: PageSize,
)
    requires
        region_keeps_room::<PTE>(m0, m1, root, region),
        keeps_room::<PTE>(m1, m2, root, q, level_of(qsize)),
        q % qsize.spec_bytes() == 0,
        region.start <= q,
        q + qsize.spec_bytes() <= region.start + region.size,
        region_in_half(region.start, region.size),
    ensures
        region_keeps_room::<PTE>(m0, m2, root, region),
{
    assert forall|w: u64, lw: nat|
        2 <= lw <= 4 && is_canonical(w) && block_outside(w, lw, region) && can_map::<PTE>(m0, root, 1, w, lw)
            implies #[trigger] can_map::<PTE>(m2, root, 1, w, lw) by {
        assert(can_map::<PTE>(m1, root, 1, w, lw));
        lemma_block_canonical(w, lw);
        let sz = leaf_size(lw);
        let b = (w - w % sz.spec_bytes()) as u64;
        assert(is_canonical(q));
        assert(b <= w && w < b + sz.spec_bytes());
        lemma_page_key(w, q, qsize);
        lemma_page_key(q, b, sz);
        lemma_page_key(w, b, sz);
        let lq = level_of(qsize);
        if lw >= lq {
            assert(min_level(lw, lq) == lq);
            if key_of(w, lq + 1) == key_of(q, lq + 1) {
                assert(q <= w && w - q < qsize.spec_bytes());
                assert(false);
            }
        } else {
            assert(min_level(lw, lq) == lw);
            if key_of(w, lw + 1) == key_of(q, lw + 1) {
                assert(key_of(q, lw + 1) == key_of(b, lw + 1));
                assert(key_of(q, level_of(sz) + 1) == key_of(b, level_of(sz) + 1));
                assert(b % sz.spec_bytes() == 0);
                assert(is_canonical(b));
                assert(b <= q && q - b < sz.spec_bytes());
                assert(false);
            }
        }
    }
}

/// Every page `map` would pick from `vaddr`, with `left` bytes to go, has
/// its frame in the physical range.
pub open spec fn greedy_frames_ok(region: MemoryRegion, vaddr: u64, left: u64) -> bool
    decreases left,
{
    if left == 0 {
        true
    } else {
        let g = greedy_size(region, vaddr, left);
        if g.spec_bytes() <= left && vaddr + g.spec_bytes() <= u64::MAX {
            &&& region.mapper.spec_map(vaddr) < PHYS_LIMIT
            &&& greedy_frames_ok(region, (vaddr + g.spec_bytes()) as u64, (left - g.spec_bytes()) as u64)
        } else {
            false
        }
    }
}

/// The block of `w` for a leaf of level `lw` lies inside `region`.
pub open spec fn block_inside(w: u64, lw: nat, region: MemoryRegion) -> bool {
    let s = leaf_size(lw).spec_bytes();
    let b = w - w % s;
    region.start <= b && b + s <= region.start + region.size
}

/// If every block inside the region has room, every page `map` would pick
/// has room.
pub proof fn lemma_greedy_from_room<PTE: GenericPTE>(
    mem: Map<u64, u64>,
    root: u64,
    region: MemoryRegion,
    vaddr: u64,
    left: u64,
)
    requires
        greedy_frames_ok(region, vaddr, left),
        region.start <= vaddr,
        vaddr + left <= region.start + region.size,
        vaddr % 0x1000 == 0,
        region_in_half(region.start, region.size),
        forall|w: u64, lw: nat|
            2 <= lw <= 4 && is_canonical(w) && block_inside(w, lw, region) ==> #[trigger] can_map::<PTE>(
                mem,
                root,
                1,
                w,
                lw,
            ),
    ensures
        greedy_ok::<PTE>(mem, root, region, vaddr, left),
    decreases left,
{
    if left > 0 {
        let g = greedy_size(region, vaddr, left);
        if g.spec_bytes() <= left && vaddr + g.spec_bytes() <= u64::MAX {
            assert(vaddr % g.spec_bytes() == 0);
            assert(leaf_size(level_of(g)) == g);
            assert(is_canonical(vaddr));
            assert(block_inside(vaddr, level_of(g), region));
            assert(can_map::<PTE>(mem, root, 1, vaddr, level_of(g)));
            assert((vaddr + g.spec_bytes()) % 0x1000 == 0);
            lemma_greedy_from_room::<PTE>(mem, root, region, (vaddr + g.spec_bytes()) as u64, (left - g.spec_bytes()) as u64);
        }
    }
}

/// A read-only level-4 page table, for address queries only.
pub struct Level4PageTableImmut<PTE: GenericPTE> {
    root: PhysAddr,
    _phantom: PhantomData<PTE>,
}

/// Finds the entry that maps `vaddr` in the table rooted at `root`.
pub fn find_entry<PTE: GenericPTE>(mem: &PhysMemory, root: PhysAddr, vaddr: u64) -> (r: PagingResult<(u64, PageSize)>)
    requires
        root < PHYS_LIMIT,
    ensures
        r == locate::<PTE>(mem@, root, 1, vaddr),
{
    let mut table = root;
    let mut level: u64 = 1;
    while level < 4
        invariant
            1 <= level <= 4,
            table < PHYS_LIMIT,
            locate::<PTE>(mem@, root, 1, vaddr) == locate::<PTE>(mem@, table, level as nat, vaddr),
        decreases 4 - level,
    {
        let ea = table + 8 * table_index(vaddr, level);
        let e = PTE::from_raw(mem.read(ea));
        if level >= 2 && e.is_huge() {
            let size = if level == 2 {
                PageSize::Size1G
            } else {
                PageSize::Size2M
            };
            return Ok((ea, size));
        }
        if !e.is_present() {
            return Err(PagingError::NotMapped);
        }
        if e.is_huge() {
            return Err(PagingError::MappedToHugePage);
        }
        proof {
            PTE::lemma_addr_bound(e.spec_raw());
        }
        table = e.addr();
        level = level + 1;
    }
    Ok((table + 8 * table_index(vaddr, 4), PageSize::Size4K))
}

/// Queries `vaddr` in the table rooted at `root`.
pub fn query_in<PTE: GenericPTE>(mem: &PhysMemory, root: PhysAddr, vaddr: u64) -> (r: PagingResult<(PhysAddr, MemFlags, PageSize)>)
    requires
        root < PHYS_LIMIT,
    ensures
        r == spec_query::<PTE>(mem@, root, vaddr),
{
    let (ea, size) = find_entry::<PTE>(mem, root, vaddr)?;
    let e = PTE::from_raw(mem.read(ea));
    if e.is_unused() {
        return Err(PagingError::NotMapped);
    }
    proof {
        PTE::lemma_addr_bound(e.spec_raw());
    }
    let off = size.page_offset(vaddr);
    Ok((e.addr() + off, e.flags(), size))
}

impl<PTE: GenericPTE> Level4PageTableImmut<PTE> {
    /// The root table's address.
    pub closed spec fn spec_root(&self) -> u64 {
        self.root
    }

    /// A table rooted at an existing frame.
    pub fn from_root(root_paddr: PhysAddr) -> (r: Self)
        requires
            root_paddr < PHYS_LIMIT,
        ensures
            r.spec_root() == root_paddr,
    {
        Level4PageTableImmut { root: root_paddr, _phantom: PhantomData }
    }

    pub fn root_paddr(&self) -> (r: PhysAddr)
        ensures
            r == self.spec_root(),
    {
        self.root
    }

    /// Looks up `vaddr` in the tables held in `mem`.
    pub fn query(&self, mem: &PhysMemory, vaddr: u64) -> (r: PagingResult<(PhysAddr, MemFlags, PageSize)>)
        requires
            self.spec_root() < PHYS_LIMIT,
        ensures
            r == spec_query::<PTE>(mem@, self.spec_root(), vaddr),
    {
        query_in::<PTE>(mem, self.root, vaddr)
    }
}

/// A mutable level-4 page table. It owns its root frame and the frames of
/// the intermediate tables it created, and holds the memory those tables
/// live in. A clone remembers, without owning them, the tables it shares
/// with its source.
pub struct Level4PageTable<PTE: GenericPTE, I: PagingInstr> {
    root: Frame,
    intrm_tables: Vec<Frame>,
    shared_tables: Vec<PhysAddr>,
    mem: PhysMemory,
    tables: Ghost<Labels>,
    _phantom: PhantomData<(PTE, I)>,
}

/// What mapping the page of `size` at `vaddr` to `paddr` with `flags` did,
/// going from `pt` to `pt2` with result `r`: no address outside the page
/// changed; on failure nothing changed; on success the page was unmapped
/// before and, unless it is a 4 KiB page with no flags, now maps to the
/// frame with at least the access permissions asked for.
pub open spec fn mapped_page<PTE: GenericPTE, I: PagingInstr>(
    pt: Level4PageTable<PTE, I>,
    pt2: Level4PageTable<PTE, I>,
    vaddr: u64,
    size: PageSize,
    paddr: u64,
    flags: MemFlags,
    r: PagingResult,
) -> bool {
    &&& forall|w: u64|
        key_of(w, level_of(size) + 1) != key_of(vaddr, level_of(size) + 1) ==> #[trigger] pt2.query_of(w)
            == pt.query_of(w)
    &&& r is Err ==> forall|w: u64| #[trigger] pt2.query_of(w) == pt.query_of(w)
    &&& r is Ok ==> forall|w: u64|
        #![trigger pt2.query_of(w)]
        key_of(w, level_of(size) + 1) == key_of(vaddr, level_of(size) + 1) ==> {
            &&& pt.query_of(w) == Err::<(u64, MemFlags, PageSize), PagingError>(PagingError::NotMapped)
            &&& (flags.bits != 0 || size != PageSize::Size4K) ==> {
                &&& pt2.query_of(w) is Ok
                &&& pt2.query_of(w)->Ok_0.0 == (paddr - paddr % size.spec_bytes()) + w % size.spec_bytes()
                &&& pt2.query_of(w)->Ok_0.1.spec_contains(flags.bits & PTE::spec_kept_flags())
                &&& (flags.bits != 0 && flags.bits & MemFlags::EXECUTE == 0) ==> pt2.query_of(w)->Ok_0.1.bits
                    & MemFlags::EXECUTE == 0
                &&& pt2.query_of(w)->Ok_0.2 == size
            }
        }
}

/// What unmapping `vaddr` did, going from `pt` to `pt2` with result `r`:
/// on success `vaddr` was mapped and its whole page is now unmapped, and
/// nothing else changed; on failure `vaddr` was not mapped, for the
/// reason returned, and nothing changed.
pub open spec fn unmapped_page<PTE: GenericPTE, I: PagingInstr>(
    pt: Level4PageTable<PTE, I>,
    pt2: Level4PageTable<PTE, I>,
    vaddr: u64,
    r: PagingResult<(u64, PageSize)>,
) -> bool {
    match r {
        Ok((paddr, size)) => {
            &&& pt.query_of(vaddr) is Ok
            &&& pt.query_of(vaddr)->Ok_0.0 == paddr + vaddr % size.spec_bytes()
            &&& pt.query_of(vaddr)->Ok_0.2 == size
            &&& forall|w: u64|
                #![trigger pt2.query_of(w)]
                key_of(w, level_of(size) + 1) == key_of(vaddr, level_of(size) + 1) ==> pt2.query_of(w)
                    == Err::<(u64, MemFlags, PageSize), PagingError>(PagingError::NotMapped)
            &&& forall|w: u64|
                #![trigger pt2.query_of(w)]
                key_of(w, level_of(size) + 1) != key_of(vaddr, level_of(size) + 1) ==> pt2.query_of(w)
                    == pt.query_of(w)
        },
        Err(e) => {
            &&& pt.query_of(vaddr) == Err::<(u64, MemFlags, PageSize), PagingError>(e)
            &&& forall|w: u64| #[trigger] pt2.query_of(w) == pt.query_of(w)
        },
    }
}

/// From `vaddr` to `end`, the table maps a run of leaves, each starting at
/// the cursor, aligned to its size and ending by `end`.
pub open spec fn leaves_fit<PTE: GenericPTE, I: PagingInstr>(pt: Level4PageTable<PTE, I>, vaddr: u64, end: int) -> bool
    decreases end - vaddr,
{
    if vaddr >= end {
        true
    } else {
        let q = pt.query_of(vaddr);
        if q is Ok && vaddr % q->Ok_0.2.spec_bytes() == 0 && vaddr + q->Ok_0.2.spec_bytes() <= end && vaddr
            + q->Ok_0.2.spec_bytes() <= u64::MAX {
            leaves_fit(pt, (vaddr + q->Ok_0.2.spec_bytes()) as u64, end)
        } else {
            false
        }
    }
}

/// Two adjacent runs of leaves make one run.
pub proof fn lemma_leaves_fit_concat<PTE: GenericPTE, I: PagingInstr>(
    pt: Level4PageTable<PTE, I>,
    a: u64,
    m: u64,
    e: int,
)
    requires
        a <= m,
        m <= e,
        e <= u64::MAX,
        leaves_fit(pt, a, m as int),
        leaves_fit(pt, m, e),
    ensures
        leaves_fit(pt, a, e),
    decreases m - a,
{
    if a < m {
        let q = pt.query_of(a);
        let n = (a + q->Ok_0.2.spec_bytes()) as u64;
        lemma_leaves_fit_concat(pt, n, m, e);
    }
}

/// Tables that answer alike from `vaddr` to `end` have the same run of
/// leaves there.
pub proof fn lemma_leaves_fit_same<PTE: GenericPTE, I: PagingInstr>(
    p1: Level4PageTable<PTE, I>,
    p2: Level4PageTable<PTE, I>,
    vaddr: u64,
    end: int,
)
    requires
        end <= u64::MAX,
        forall|w: u64| vaddr <= w < end ==> #[trigger] p2.query_of(w) == p1.query_of(w),
    ensures
        leaves_fit(p1, vaddr, end) == leaves_fit(p2, vaddr, end),
    decreases end - vaddr,
{
    if vaddr < end {
        let q = p1.query_of(vaddr);
        assert(p2.query_of(vaddr) == q);
        if q is Ok && vaddr + q->Ok_0.2.spec_bytes() <= end {
            lemma_leaves_fit_same(p1, p2, (vaddr + q->Ok_0.2.spec_bytes()) as u64, end);
        }
    }
}

/// Mapping a page and then unmapping its address leaves the address
/// unmapped: the unmapping succeeds, with the page's size.
pub proof fn lemma_map_unmap_round_trip<PTE: GenericPTE, I: PagingInstr>(
    pt0: Level4PageTable<PTE, I>,
    pt1: Level4PageTable<PTE, I>,
    pt2: Level4PageTable<PTE, I>,
    vaddr: u64,
    size: PageSize,
    paddr: u64,
    flags: MemFlags,
    r1: PagingResult,
    r2: PagingResult<(u64, PageSize)>,
)
    requires
        mapped_page(pt0, pt1, vaddr, size, paddr, flags, r1),
        r1 is Ok,
        flags.bits != 0 || size != PageSize::Size4K,
        unmapped_page(pt1, pt2, vaddr, r2),
    ensures
        r2 is Ok,
        r2->Ok_0.1 == size,
        pt2.query_of(vaddr) == Err::<(u64, MemFlags, PageSize), PagingError>(PagingError::NotMapped),
{
    assert(pt1.query_of(vaddr) is Ok);
}

impl<PTE: GenericPTE, I: PagingInstr> Level4PageTable<PTE, I> {
    /// The root table's address.
    pub closed spec fn spec_root(&self) -> u64 {
        self.root.spec_start()
    }

    /// The memory that holds the tables.
    pub closed spec fn spec_mem(&self) -> Map<u64, u64> {
        self.mem@
    }

    /// The recorded tables.
    pub closed spec fn spec_tables(&self) -> Labels {
        self.tables@
    }

    /// What `query(vaddr)` returns.
    pub open spec fn query_of(&self, vaddr: u64) -> PagingResult<(u64, MemFlags, PageSize)> {
        spec_query::<PTE>(self.spec_mem(), self.spec_root(), vaddr)
    }

    /// Whether `t` is one of the frames this table knows as a table.
    pub closed spec fn known_table(&self, t: u64) -> bool {
        t == self.root.spec_start() || (exists|j: int|
            0 <= j < self.intrm_tables.len() && (#[trigger] self.intrm_tables[j]).spec_start() == t)
            || self.shared_tables@.contains(t)
    }

    /// The root is recorded at level 1 with key 0, the record is consistent
    /// with memory, and every recorded table is known.
    pub closed spec fn wf(&self) -> bool {
        &&& self.root.wf()
        &&& table_frame(self.root.spec_start())
        &&& self.tables@.contains_key(self.root.spec_start())
        &&& self.tables@[self.root.spec_start()] == (1nat, 0u64)
        &&& labels_wf::<PTE>(self.mem@, self.tables@)
        &&& forall|t: u64| #[trigger] self.tables@.contains_key(t) ==> self.known_table(t)
    }

    /// No table of this page table is a free frame of `allocator`.
    pub open spec fn fresh_in(&self, allocator: &FrameAllocator) -> bool {
        forall|t: u64| #[trigger] self.spec_tables().contains_key(t) ==> !allocator.free_frames().contains(t)
    }

    /// Two tables with the same frames know the same tables.
    proof fn lemma_known_same(a: &Self, b: &Self)
        requires
            a.root.spec_start() == b.root.spec_start(),
            a.intrm_tables@ == b.intrm_tables@,
            a.shared_tables@ == b.shared_tables@,
        ensures
            forall|t: u64| #[trigger] a.known_table(t) == b.known_table(t),
    {
        assert forall|t: u64| #[trigger] a.known_table(t) implies b.known_table(t) by {
            if exists|j: int| 0 <= j < a.intrm_tables.len() && (#[trigger] a.intrm_tables[j]).spec_start() == t {
                let j = choose|j: int| 0 <= j < a.intrm_tables.len() && (#[trigger] a.intrm_tables[j]).spec_start() == t;
                assert(b.intrm_tables@[j] == a.intrm_tables@[j]);
            }
        }
        assert forall|t: u64| #[trigger] b.known_table(t) implies a.known_table(t) by {
            if exists|j: int| 0 <= j < b.intrm_tables.len() && (#[trigger] b.intrm_tables[j]).spec_start() == t {
                let j = choose|j: int| 0 <= j < b.intrm_tables.len() && (#[trigger] b.intrm_tables[j]).spec_start() == t;
                assert(b.intrm_tables@[j] == a.intrm_tables@[j]);
            }
        }
    }

    /// An empty page table with a zeroed root frame.
    pub fn new(allocator: &mut FrameAllocator) -> (r: Result<Self, PagingError>)
        requires
            old(allocator).wf(),
        ensures
            final(allocator).wf(),
            final(allocator).free_frames().subset_of(old(allocator).free_frames()),
            match r {
                Ok(pt) => pt.wf() && pt.fresh_in(&*final(allocator)) && (forall|v: u64| pt.query_of(v) == Err::<(u64, MemFlags, PageSize), PagingError>(PagingError::NotMapped))
                    && forall|v: u64, l: nat| 2 <= l <= 4 ==> #[trigger] can_map::<PTE>(pt.spec_mem(), pt.spec_root(), 1, v, l),
                Err(e) => e == PagingError::NoMemory && old(allocator).free_frames() == Set::<u64>::empty(),
            },
    {
        let mut mem = PhysMemory::new();
        let root = match Frame::new_zero(allocator, &mut mem) {
            Ok(f) => f,
            Err(_) => return Err(PagingError::NoMemory),
        };
        let ghost rt = root.spec_start();
        let pt = Level4PageTable {
            root,
            intrm_tables: Vec::new(),
            shared_tables: Vec::new(),
            mem,
            tables: Ghost(Map::empty().insert(rt, (1nat, 0u64))),
            _phantom: PhantomData,
        };
        proof {
            PTE::lemma_zero_entry();
            assert forall|t: u64, i: u64| pt.tables@.contains_key(t) && i < 512 implies #[trigger] entry_ok::<PTE>(pt.mem@, pt.tables@, t, i) by {
                lemma_entry_addrs(t, i, t, i);
                assert(word_at(pt.mem@, (t + 8 * i) as u64) == 0);
            }
            assert forall|v: u64| pt.query_of(v) == Err::<(u64, MemFlags, PageSize), PagingError>(PagingError::NotMapped) by {
                lemma_key_step(v, 1);
                lemma_entry_addrs(rt, idx_of(v, 1), rt, idx_of(v, 1));
                assert(word_at(pt.mem@, entry_addr(rt, v, 1)) == 0);
            }
            assert forall|v: u64, l: nat| 2 <= l <= 4 implies #[trigger] can_map::<PTE>(pt.spec_mem(), pt.spec_root(), 1, v, l) by {
                lemma_key_step(v, 1);
                lemma_entry_addrs(rt, idx_of(v, 1), rt, idx_of(v, 1));
                assert(word_at(pt.mem@, entry_addr(rt, v, 1)) == 0);
            }
        }
        Ok(pt)
    }

    pub fn root_paddr(&self) -> (r: PhysAddr)
        ensures
            r == self.spec_root(),
    {
        self.root.start_paddr()
    }

    /// The memory that holds the tables.
    pub fn memory(&self) -> (r: &PhysMemory)
        ensures
            r@ == self.spec_mem(),
    {
        &self.mem
    }

    /// Looks up the mapping of `vaddr`.
    pub fn query(&self, vaddr: u64) -> (r: PagingResult<(PhysAddr, MemFlags, PageSize)>)
        requires
            self.wf(),
        ensures
            r == self.query_of(vaddr),
    {
        query_in::<PTE>(&self.mem, self.root.start_paddr(), vaddr)
    }

    /// Walks to the table that holds the entry for `page`, creating the
    /// missing intermediate tables. Returns that table and the path to it.
    fn get_entry_mut_or_create(&mut self, vaddr: u64, target: u64, allocator: &mut FrameAllocator) -> (r: (PagingResult<PhysAddr>, Ghost<Seq<u64>>))
        requires
            old(self).wf(),
            old(allocator).wf(),
            old(self).fresh_in(&*old(allocator)),
            2 <= target <= 4,
        ensures
            final(self).wf(),
            final(allocator).wf(),
            final(self).fresh_in(&*final(allocator)),
            final(allocator).free_frames().subset_of(old(allocator).free_frames()),
            r.0 == Err::<u64, PagingError>(PagingError::NoMemory) ==> final(allocator).free_frames() == Set::<u64>::empty()
                && can_map::<PTE>(old(self).spec_mem(), old(self).spec_root(), 1, vaddr, target as nat),
            (r.0 == Err::<u64, PagingError>(PagingError::NotMapped) || r.0 == Err::<u64, PagingError>(PagingError::MappedToHugePage))
                ==> !can_map::<PTE>(old(self).spec_mem(), old(self).spec_root(), 1, vaddr, target as nat),
            keeps_room::<PTE>(old(self).spec_mem(), final(self).spec_mem(), old(self).spec_root(), vaddr, target as nat),
            r.0 is Ok ==> (can_map::<PTE>(old(self).spec_mem(), old(self).spec_root(), 1, vaddr, target as nat) <==> word_at(
                final(self).spec_mem(),
                entry_addr(r.0->Ok_0, vaddr, target as nat),
            ) == 0),
            final(self).spec_root() == old(self).spec_root(),
            forall|w: u64| final(self).query_of(w) == old(self).query_of(w),
            match r.0 {
                Ok(t) => {
                    &&& path_ok::<PTE>(final(self).spec_mem(), final(self).spec_tables(), r.1@, vaddr)
                    &&& r.1@.len() == target
                    &&& r.1@.last() == t
                    &&& r.1@[0] == final(self).spec_root()
                },
                Err(e) => e != PagingError::AlreadyMapped,
            },            (target == 4 && locate::<PTE>(old(self).spec_mem(), old(self).spec_root(), 1, vaddr) is Ok
                && locate::<PTE>(old(self).spec_mem(), old(self).spec_root(), 1, vaddr)->Ok_0.1 == PageSize::Size4K)
                ==> r.0 is Ok && final(self).spec_mem() == old(self).spec_mem() && locate::<PTE>(
                old(self).spec_mem(),
                old(self).spec_root(),
                1,
                vaddr,
            )->Ok_0.0 == entry_addr(r.0->Ok_0, vaddr, 4),
    {
        let root = self.root.start_paddr();
        let mut table = root;
        let mut level: u64 = 1;
        let ghost mut path = seq![root];
        let ghost mut allocated = false;
        let ghost q0 = self.query_of(0);
        assert(keeps_room::<PTE>(old(self).mem@, self.mem@, root, vaddr, target as nat));
        proof {
            lemma_key_step(vaddr, 1);
        }
        while level < target
            invariant
                self.wf(),
                allocator.wf(),
                self.fresh_in(&*allocator),
                allocator.free_frames().subset_of(old(allocator).free_frames()),
                1 <= level <= target <= 4,
                keeps_room::<PTE>(old(self).mem@, self.mem@, root, vaddr, target as nat),
                !allocated ==> self.mem@ == old(self).mem@ && can_map::<PTE>(old(self).mem@, root, 1, vaddr, target as nat)
                    == can_map::<PTE>(self.mem@, table, level as nat, vaddr, target as nat),
                allocated ==> can_map::<PTE>(self.mem@, table, level as nat, vaddr, target as nat) && can_map::<PTE>(
                    old(self).mem@,
                    root,
                    1,
                    vaddr,
                    target as nat,
                ),
                self.spec_root() == root,
                root == old(self).spec_root(),
                path_ok::<PTE>(self.mem@, self.tables@, path, vaddr),
                path.len() == level,
                path.last() == table,
                path[0] == root,
                forall|w: u64| self.query_of(w) == old(self).query_of(w),
                (target == 4 && locate::<PTE>(old(self).spec_mem(), root, 1, vaddr) is Ok && locate::<PTE>(
                    old(self).spec_mem(),
                    root,
                    1,
                    vaddr,
                )->Ok_0.1 == PageSize::Size4K) ==> self.mem@ == old(self).mem@ && locate::<PTE>(
                    self.mem@,
                    root,
                    1,
                    vaddr,
                ) == locate::<PTE>(self.mem@, table, level as nat, vaddr),
            decreases target - level,
        {
            let idx = table_index(vaddr, level);
            let ghost intrm0 = self.intrm_tables@;
            proof {
                assert forall|t: u64| #[trigger] self.tables@.contains_key(t) implies t == root || self.shared_tables@.contains(t) || exists|j: int|
                    0 <= j < intrm0.len() && intrm0[j].spec_start() == t by {
                    assert(self.known_table(t));
                    if t != root && !self.shared_tables@.contains(t) {
                        let j = choose|j: int|
                            0 <= j < self.intrm_tables.len() && (#[trigger] self.intrm_tables[j]).spec_start() == t;
                        assert(intrm0[j].spec_start() == t);
                    }
                }
                lemma_key_step(vaddr, level as nat);
                assert(self.tables@.contains_key(table));
                lemma_entry_addrs(table, idx, table, idx);
            }
            let ea = table + 8 * idx;
            let e = PTE::from_raw(self.mem.read(ea));
            let ghost reaches_leaf = target == 4 && locate::<PTE>(old(self).spec_mem(), root, 1, vaddr) is Ok
                && locate::<PTE>(old(self).spec_mem(), root, 1, vaddr)->Ok_0.1 == PageSize::Size4K;
            proof {
                PTE::lemma_zero_entry();
                if reaches_leaf {
                    assert(entry_addr(table, vaddr, level as nat) == ea);
                    assert(level < 4);
                    assert(!PTE::present_of(e.spec_raw()) ==> PTE::huge_of(e.spec_raw()) && level >= 2);
                    assert(PTE::huge_of(e.spec_raw()) ==> false);
                }
            }
            if e.is_unused() {
                proof {
                    assert(entry_addr(table, vaddr, level as nat) == ea);
                    assert(can_map::<PTE>(self.mem@, table, level as nat, vaddr, target as nat));
                    assert(can_map::<PTE>(old(self).mem@, root, 1, vaddr, target as nat));
                }
                let ghost free0 = allocator.free_frames();
                let ghost tabs_before = self.tables@;
                proof {
                    assert forall|t: u64| tabs_before.contains_key(t) implies !free0.contains(t) by {
                        assert(self.spec_tables().contains_key(t));
                    }
                }
                let f = match Frame::new(allocator) {
                    Ok(f) => f,
                    Err(_) => return (Err(PagingError::NoMemory), Ghost(path)),
                };
                let fp = f.start_paddr();
                proof {
                    assert(free0.contains(fp));
                    if self.tables@.contains_key(fp) {
                        assert(self.spec_tables().contains_key(fp));
                    }
                }
                let ghost m0 = self.mem@;
                f.zero(&mut self.mem);
                proof {
                    assert(same_outside(m0, self.mem@, fp));
                    lemma_fresh_frame::<PTE>(m0, self.mem@, self.tables@, root, path, vaddr, fp);
                    lemma_fresh_frame_room::<PTE>(m0, self.mem@, self.tables@, root, vaddr, target as nat, fp);
                    lemma_keeps_room_trans::<PTE>(old(self).mem@, m0, self.mem@, root, vaddr, target as nat);
                    assert forall|w: u64| spec_query::<PTE>(self.mem@, root, w) == old(self).query_of(w) by {
                        assert(spec_query::<PTE>(m0, root, w) == old(self).query_of(w));
                    }
                }
                let ghost m1 = self.mem@;
                let ghost t0 = self.tables@;
                proof {
                    lemma_key_step(vaddr, (level + 1) as nat);
                    self.tables@ = t0.insert(fp, ((level + 1) as nat, key_of(vaddr, (level + 1) as nat)));
                    PTE::lemma_zero_entry();
                    assert forall|t: u64, i: u64| self.tables@.contains_key(t) && i < 512 implies #[trigger] entry_ok::<PTE>(m1, self.tables@, t, i) by {
                        if t == fp {
                            lemma_entry_addrs(fp, i, fp, i);
                            assert(word_at(m1, (fp + 8 * i) as u64) == 0);
                        } else {
                            assert(entry_ok::<PTE>(m1, t0, t, i));
                        }
                    }
                    assert(labels_wf::<PTE>(m1, self.tables@));
                    assert forall|j: int| 0 <= j < path.len() implies self.tables@.contains_key(#[trigger] path[j]) && self.tables@[path[j]] == (
                        (j + 1) as nat,
                        key_of(vaddr, (j + 1) as nat),
                    ) by {
                        assert(t0.contains_key(path[j]));
                    }
                    assert(path_ok::<PTE>(m1, self.tables@, path, vaddr));
                    lemma_entry_addrs(table, idx, fp, 0);
                    assert(word_at(m1, ea) == 0);
                }
                proof {
                    assert forall|t: u64| #[trigger] self.spec_tables().contains_key(t) implies !allocator.free_frames().contains(t) by {
                        if t != fp {
                            assert(tabs_before.contains_key(t));
                            assert(!free0.contains(t));
                        }
                    }
                }
                self.intrm_tables.push(f);
                let mut ne = PTE::from_raw(0);
                ne.set_table(fp);
                self.mem.write(ea, ne.raw());
                proof {
                    assert(same_except(m1, self.mem@, ea));
                    lemma_link_table::<PTE>(m1, self.mem@, self.tables@, root, path, vaddr, fp);
                    lemma_link_room::<PTE>(m1, self.mem@, self.tables@, root, path, vaddr, fp, target as nat);
                    lemma_keeps_room_trans::<PTE>(old(self).mem@, m1, self.mem@, root, vaddr, target as nat);
                    assert forall|t: u64| #[trigger] self.tables@.contains_key(t) implies self.known_table(t) by {
                        if t == fp {
                            assert(self.intrm_tables[self.intrm_tables.len() - 1].spec_start() == fp);
                        } else {
                            assert(t0.contains_key(t));
                            if t != root && !self.shared_tables@.contains(t) {
                                let j = choose|j: int|
                                    0 <= j < intrm0.len() && intrm0[j].spec_start() == t;
                                assert(self.intrm_tables@[j] == intrm0[j]);
                                assert(self.intrm_tables[j].spec_start() == t);
                            }
                        }
                    }
                    path = path.push(fp);
                    lemma_key_step(vaddr, (level + 1) as nat);
                    lemma_entry_addrs(fp, idx_of(vaddr, (level + 1) as nat), table, idx);
                    assert(word_at(m1, entry_addr(fp, vaddr, (level + 1) as nat)) == 0);
                    assert(word_at(self.mem@, entry_addr(fp, vaddr, (level + 1) as nat)) == 0);
                    assert(can_map::<PTE>(self.mem@, fp, (level + 1) as nat, vaddr, target as nat));
                    allocated = true;
                }
                table = fp;
            } else {
                if !e.is_present() {
                    return (Err(PagingError::NotMapped), Ghost(path));
                }
                if e.is_huge() {
                    return (Err(PagingError::MappedToHugePage), Ghost(path));
                }
                let child = e.addr();
                proof {
                    assert(entry_ok::<PTE>(self.mem@, self.tables@, table, idx));
                    lemma_key_step(vaddr, (level + 1) as nat);
                    let next_path = path.push(child);
                    assert forall|j: int| 0 <= j < next_path.len() implies self.tables@.contains_key(#[trigger] next_path[j]) && self.tables@[next_path[j]] == (
                        (j + 1) as nat,
                        key_of(vaddr, (j + 1) as nat),
                    ) by {
                        if j < path.len() {
                            assert(next_path[j] == path[j]);
                        }
                    }
                    assert forall|j: int| 0 <= j < next_path.len() - 1 implies {
                        let e2 = word_at(self.mem@, entry_addr(#[trigger] next_path[j], vaddr, (j + 1) as nat));
                        &&& PTE::present_of(e2)
                        &&& !PTE::huge_of(e2)
                        &&& PTE::addr_of(e2) == next_path[j + 1]
                    } by {
                        assert(next_path[j] == path[j]);
                    }
                    path = next_path;
                }
                table = child;
            }
            level = level + 1;
        }
        (Ok(table), Ghost(path))
    }

    /// Maps `page` to the frame at `paddr` with `flags`.
    pub fn map_page(&mut self, vaddr: u64, size: PageSize, paddr: PhysAddr, flags: MemFlags, allocator: &mut FrameAllocator) -> (r: PagingResult)
        requires
            old(self).wf(),
            old(allocator).wf(),
            old(self).fresh_in(&*old(allocator)),
            vaddr % size.spec_bytes() == 0,
            paddr < PHYS_LIMIT,
        ensures
            final(self).wf(),
            final(allocator).wf(),
            final(self).fresh_in(&*final(allocator)),
            final(allocator).free_frames().subset_of(old(allocator).free_frames()),
            r == Err::<(), PagingError>(PagingError::NoMemory) ==> final(allocator).free_frames() == Set::<u64>::empty(),
            final(self).spec_root() == old(self).spec_root(),
            mapped_page(*old(self), *final(self), vaddr, size, paddr, flags, r),
            keeps_room::<PTE>(old(self).spec_mem(), final(self).spec_mem(), old(self).spec_root(), vaddr, level_of(size)),
            can_map::<PTE>(old(self).spec_mem(), old(self).spec_root(), 1, vaddr, level_of(size)) ==> r is Ok || r
                == Err::<(), PagingError>(PagingError::NoMemory),
            !can_map::<PTE>(old(self).spec_mem(), old(self).spec_root(), 1, vaddr, level_of(size)) ==> r is Err && r
                != Err::<(), PagingError>(PagingError::NoMemory),
            (size == PageSize::Size4K && locate::<PTE>(old(self).spec_mem(), old(self).spec_root(), 1, vaddr) is Ok
                && locate::<PTE>(old(self).spec_mem(), old(self).spec_root(), 1, vaddr)->Ok_0.1 == PageSize::Size4K
                && word_at(old(self).spec_mem(), locate::<PTE>(old(self).spec_mem(), old(self).spec_root(), 1, vaddr)->Ok_0.0)
                == 0) ==> r is Ok,
    {
        let target: u64 = match size {
            PageSize::Size1G => 2,
            PageSize::Size2M => 3,
            PageSize::Size4K => 4,
        };
        let (res, Ghost(path)) = self.get_entry_mut_or_create(vaddr, target, allocator);
        let table = match res {
            Ok(t) => t,
            Err(e) => return Err(e),
        };
        let idx = table_index(vaddr, target);
        proof {
            lemma_key_step(vaddr, target as nat);
            lemma_entry_addrs(table, idx, table, idx);
        }
        let ea = table + 8 * idx;
        let mut e = PTE::from_raw(self.mem.read(ea));
        if !e.is_unused() {
            return Err(PagingError::AlreadyMapped);
        }
        let ghost m1 = self.mem@;
        let ghost root = self.spec_root();
        proof {
            assert forall|w: u64|
                key_of(w, level_of(size) + 1) == key_of(vaddr, level_of(size) + 1) implies spec_query::<PTE>(m1, root, w)
                    == Err::<(u64, MemFlags, PageSize), PagingError>(PagingError::NotMapped) by {
                PTE::lemma_zero_entry();
                lemma_key_prefix(w, vaddr, target as nat);
                lemma_path_locate::<PTE>(m1, self.tables@, path, vaddr, w, 1);
                assert(entry_addr(table, w, target as nat) == ea);
            }
        }
        let aligned = size.align_down(paddr);
        let ghost s0 = *self;
        proof {
            assert(aligned % 0x1000 == 0) by {
                lemma_aligned_4k(paddr, size);
            }
        }
        e.set_addr(aligned);
        e.set_flags(flags, size.is_huge());
        self.mem.write(ea, e.raw());
        proof {
            assert(same_except(m1, self.mem@, ea));
            lemma_leaf_write::<PTE>(m1, self.mem@, self.tables@, root, path, vaddr, e.spec_raw());
            Self::lemma_known_same(&s0, self);
            assert forall|w: u64|
                key_of(w, level_of(size) + 1) != key_of(vaddr, level_of(size) + 1) implies #[trigger] self.query_of(w) == old(self).query_of(w) by {
                lemma_entry_write_frame::<PTE>(m1, self.mem@, self.tables@, root, path, vaddr, w);
            }
            let tl = level_of(size);
            assert forall|w: u64, lw: nat|
                2 <= lw <= 4 && can_map::<PTE>(m1, root, 1, w, lw) && key_of(w, min_level(lw, tl) + 1) != key_of(
                    vaddr,
                    min_level(lw, tl) + 1,
                ) implies #[trigger] can_map::<PTE>(self.mem@, root, 1, w, lw) by {
                lemma_entry_write_can_map::<PTE>(m1, self.mem@, self.tables@, root, path, vaddr, w, lw);
            }
            lemma_keeps_room_trans::<PTE>(old(self).spec_mem(), m1, self.mem@, root, vaddr, tl);
        }
        Ok(())
    }

    /// Finds the entry that maps `vaddr`, with the path to it.
    fn find_entry_labelled(&self, vaddr: u64) -> (r: (PagingResult<(PhysAddr, PageSize)>, Ghost<Seq<u64>>))
        requires
            self.wf(),
        ensures
            match r.0 {
                Ok((t, size)) => {
                    &&& locate::<PTE>(self.spec_mem(), self.spec_root(), 1, vaddr) == Ok::<(u64, PageSize), PagingError>(
                        (entry_addr(t, vaddr, level_of(size)), size),
                    )
                    &&& path_ok::<PTE>(self.spec_mem(), self.spec_tables(), r.1@, vaddr)
                    &&& r.1@.len() == level_of(size)
                    &&& r.1@.last() == t
                    &&& r.1@[0] == self.spec_root()
                },
                Err(e) => locate::<PTE>(self.spec_mem(), self.spec_root(), 1, vaddr) == Err::<(u64, PageSize), PagingError>(e),
            },
    {
        let root = self.root.start_paddr();
        let mut table = root;
        let mut level: u64 = 1;
        let ghost mut path = seq![root];
        proof {
            lemma_key_step(vaddr, 1);
        }
        while level < 4
            invariant
                self.wf(),
                1 <= level <= 4,
                root == self.spec_root(),
                path_ok::<PTE>(self.mem@, self.tables@, path, vaddr),
                path.len() == level,
                path.last() == table,
                path[0] == root,
                locate::<PTE>(self.mem@, root, 1, vaddr) == locate::<PTE>(self.mem@, table, level as nat, vaddr),
            decreases 4 - level,
        {
            let idx = table_index(vaddr, level);
            proof {
                lemma_key_step(vaddr, level as nat);
                lemma_entry_addrs(table, idx, table, idx);
            }
            let ea = table + 8 * idx;
            let e = PTE::from_raw(self.mem.read(ea));
            if level >= 2 && e.is_huge() {
                let size = if level == 2 {
                    PageSize::Size1G
                } else {
                    PageSize::Size2M
                };
                return (Ok((table, size)), Ghost(path));
            }
            if !e.is_present() {
                return (Err(PagingError::NotMapped), Ghost(path));
            }
            if e.is_huge() {
                return (Err(PagingError::MappedToHugePage), Ghost(path));
            }
            let child = e.addr();
            proof {
                assert(entry_ok::<PTE>(self.mem@, self.tables@, table, idx));
                lemma_key_step(vaddr, (level + 1) as nat);
                let next_path = path.push(child);
                assert forall|j: int| 0 <= j < next_path.len() implies self.tables@.contains_key(#[trigger] next_path[j]) && self.tables@[next_path[j]] == (
                    (j + 1) as nat,
                    key_of(vaddr, (j + 1) as nat),
                ) by {
                    if j < path.len() {
                        assert(next_path[j] == path[j]);
                    }
                }
                assert forall|j: int| 0 <= j < next_path.len() - 1 implies {
                    let e2 = word_at(self.mem@, entry_addr(#[trigger] next_path[j], vaddr, (j + 1) as nat));
                    &&& PTE::present_of(e2)
                    &&& !PTE::huge_of(e2)
                    &&& PTE::addr_of(e2) == next_path[j + 1]
                } by {
                    assert(next_path[j] == path[j]);
                }
                path = next_path;
            }
            table = child;
            level = level + 1;
        }
        (Ok((table, PageSize::Size4K)), Ghost(path))
    }

    /// Removes the mapping of `vaddr`; returns the frame it
    /// mapped and its size.
    pub fn unmap_page(&mut self, vaddr: u64) -> (r: PagingResult<(PhysAddr, PageSize)>)
        requires
            old(self).wf(),
        ensures
            final(self).wf(),
            final(self).spec_root() == old(self).spec_root(),
            unmapped_page(*old(self), *final(self), vaddr, r),
    {
        let (res, Ghost(path)) = self.find_entry_labelled(vaddr);
        let (table, size) = match res {
            Ok(x) => x,
            Err(e) => return Err(e),
        };
        let target: u64 = match size {
            PageSize::Size1G => 2,
            PageSize::Size2M => 3,
            PageSize::Size4K => 4,
        };
        let idx = table_index(vaddr, target);
        proof {
            lemma_key_step(vaddr, target as nat);
            lemma_entry_addrs(table, idx, table, idx);
        }
        let ea = table + 8 * idx;
        let mut e = PTE::from_raw(self.mem.read(ea));
        if e.is_unused() {
            return Err(PagingError::NotMapped);
        }
        let paddr = e.addr();
        proof {
            PTE::lemma_addr_bound(e.spec_raw());
        }
        let ghost m1 = self.mem@;
        let ghost root = self.spec_root();
        let ghost s0 = *self;
        e.clear();
        self.mem.write(ea, e.raw());
        proof {
            assert(same_except(m1, self.mem@, ea));
            lemma_leaf_write::<PTE>(m1, self.mem@, self.tables@, root, path, vaddr, 0);
            Self::lemma_known_same(&s0, self);
            assert forall|w: u64|
                key_of(w, level_of(size) + 1) != key_of(vaddr, level_of(size) + 1) implies #[trigger] self.query_of(w) == old(self).query_of(w) by {
                lemma_entry_write_frame::<PTE>(m1, self.mem@, self.tables@, root, path, vaddr, w);
            }
        }
        Ok((paddr, size))
    }

    /// Changes the frame and flags of the mapping of `vaddr`.
    pub fn update(&mut self, vaddr: u64, paddr: PhysAddr, flags: MemFlags) -> (r: PagingResult<PageSize>)
        requires
            old(self).wf(),
            paddr % 0x1000 == 0,
            paddr < PHYS_LIMIT,
        ensures
            final(self).wf(),
            final(self).spec_root() == old(self).spec_root(),
            match r {
                Ok(size) => {
                    &&& forall|w: u64|
                        #![trigger final(self).query_of(w)]
                        key_of(w, level_of(size) + 1) != key_of(vaddr, level_of(size) + 1) ==> final(self).query_of(w)
                            == old(self).query_of(w)
                    &&& forall|w: u64|
                        #![trigger final(self).query_of(w)]
                        key_of(w, level_of(size) + 1) == key_of(vaddr, level_of(size) + 1) && (flags.bits != 0
                            || size != PageSize::Size4K) ==> {
                            &&& final(self).query_of(w) is Ok
                            &&& final(self).query_of(w)->Ok_0.0 == paddr + w % size.spec_bytes()
                            &&& final(self).query_of(w)->Ok_0.1.spec_contains(flags.bits & PTE::spec_kept_flags())
                            &&& (flags.bits != 0 && flags.bits & MemFlags::EXECUTE == 0) ==> final(self).query_of(w)->Ok_0.1.bits
                                & MemFlags::EXECUTE == 0
                            &&& final(self).query_of(w)->Ok_0.2 == size
                        }
                },
                Err(e) => {
                    &&& locate::<PTE>(old(self).spec_mem(), old(self).spec_root(), 1, vaddr) == Err::<(u64, PageSize), PagingError>(e)
                    &&& forall|w: u64| #[trigger] final(self).query_of(w) == old(self).query_of(w)
                },
            },
    {
        let (res, Ghost(path)) = self.find_entry_labelled(vaddr);
        let (table, size) = match res {
            Ok(x) => x,
            Err(e) => return Err(e),
        };
        let target: u64 = match size {
            PageSize::Size1G => 2,
            PageSize::Size2M => 3,
            PageSize::Size4K => 4,
        };
        let idx = table_index(vaddr, target);
        proof {
            lemma_key_step(vaddr, target as nat);
            lemma_entry_addrs(table, idx, table, idx);
        }
        let ea = table + 8 * idx;
        let mut e = PTE::from_raw(self.mem.read(ea));
        let ghost m1 = self.mem@;
        let ghost root = self.spec_root();
        let ghost s0 = *self;
        e.set_addr(paddr);
        e.set_flags(flags, size.is_huge());
        self.mem.write(ea, e.raw());
        proof {
            assert(same_except(m1, self.mem@, ea));
            lemma_leaf_write::<PTE>(m1, self.mem@, self.tables@, root, path, vaddr, e.spec_raw());
            Self::lemma_known_same(&s0, self);
            assert forall|w: u64|
                key_of(w, level_of(size) + 1) != key_of(vaddr, level_of(size) + 1) implies #[trigger] self.query_of(w) == old(self).query_of(w) by {
                lemma_entry_write_frame::<PTE>(m1, self.mem@, self.tables@, root, path, vaddr, w);
            }
        }
        Ok(size)
    }

    /// Maps every page of `region`, choosing for each the largest page
    /// size whose alignment holds on both addresses and that fits.
    #[verifier::rlimit(60)]
    pub fn map(&mut self, region: &MemoryRegion, allocator: &mut FrameAllocator) -> (r: HvResult)
        requires
            old(self).wf(),
            old(allocator).wf(),
            old(self).fresh_in(&*old(allocator)),
            region.start % 0x1000 == 0,
            region.size % 0x1000 == 0,
            region_in_half(region.start, region.size),
        ensures
            final(self).wf(),
            final(allocator).wf(),
            final(self).fresh_in(&*final(allocator)),
            final(allocator).free_frames().subset_of(old(allocator).free_frames()),
            r is Err && r->Err_0.spec_num() == HvErrorNum::ENOMEM ==> final(allocator).free_frames() == Set::<u64>::empty(),
            final(self).spec_root() == old(self).spec_root(),
            forall|v: u64|
                #![trigger final(self).query_of(v)]
                is_canonical(v) && !region.contains_addr(v) ==> final(self).query_of(v) == old(self).query_of(v),
            r is Ok && region.flags.bits != 0 ==> forall|v: u64|
                #![trigger final(self).query_of(v)]
                region.contains_addr(v) ==> region_mapped::<PTE>(final(self).query_of(v), *region, v),
            r is Err ==> r->Err_0.spec_num() == HvErrorNum::ENOMEM || r->Err_0.spec_num() == HvErrorNum::EFAULT
                || r->Err_0.spec_num() == HvErrorNum::ERANGE,
            single_page_mappable::<PTE>(old(self).spec_mem(), old(self).spec_root(), *region) ==> r is Ok || r->Err_0.spec_num()
                == HvErrorNum::ENOMEM,
            first_page_blocked::<PTE>(old(self).spec_mem(), old(self).spec_root(), *region) ==> r is Err && r->Err_0.spec_num()
                == HvErrorNum::EFAULT,
            greedy_ok::<PTE>(old(self).spec_mem(), old(self).spec_root(), *region, region.start, region.size) ==> r is Ok
                || r->Err_0.spec_num() == HvErrorNum::ENOMEM,
            (exists|v: u64| region.contains_addr(v) && (#[trigger] old(self).query_of(v)) is Ok) ==> r is Err,
            region_keeps_room::<PTE>(old(self).spec_mem(), final(self).spec_mem(), old(self).spec_root(), *region),
            r is Ok && region.flags.bits != 0 ==> leaves_fit(*final(self), region.start, region.start + region.size),
    {
        let mut vaddr = region.start;
        proof {
            lemma_region_room_same::<PTE>(self.spec_mem(), self.spec_root(), *region);
        }
        let mut size = region.size;
        let no_huge = region.flags.contains(MemFlags::NO_HUGEPAGES);
        let ghost single = single_page_mappable::<PTE>(old(self).spec_mem(), old(self).spec_root(), *region);
        let ghost blocked = first_page_blocked::<PTE>(old(self).spec_mem(), old(self).spec_root(), *region);
        while size > 0
            invariant
                blocked == first_page_blocked::<PTE>(old(self).spec_mem(), old(self).spec_root(), *region),
                region_keeps_room::<PTE>(old(self).spec_mem(), self.spec_mem(), old(self).spec_root(), *region),
                region.flags.bits != 0 ==> leaves_fit(*self, region.start, vaddr as int),
                forall|v: u64|
                    #![trigger self.query_of(v)]
                    vaddr <= v < region.start + region.size ==> self.query_of(v) == old(self).query_of(v),
                forall|v: u64|
                    #![trigger old(self).query_of(v)]
                    region.start <= v < vaddr ==> old(self).query_of(v) is Err,
                greedy_ok::<PTE>(old(self).spec_mem(), old(self).spec_root(), *region, region.start, region.size)
                    ==> greedy_ok::<PTE>(self.spec_mem(), self.spec_root(), *region, vaddr, size),
                blocked ==> size == region.size,
                single == single_page_mappable::<PTE>(old(self).spec_mem(), old(self).spec_root(), *region),
                single ==> size == region.size || size == 0,
                size == region.size ==> *self == *old(self),
                self.wf(),
                allocator.wf(),
                self.fresh_in(&*allocator),
                allocator.free_frames().subset_of(old(allocator).free_frames()),
                self.spec_root() == old(self).spec_root(),
                region.start % 0x1000 == 0,
                region.size % 0x1000 == 0,
                region_in_half(region.start, region.size),
                size <= region.size,
                vaddr == region.start + (region.size - size),
                size % 0x1000 == 0,
                vaddr % 0x1000 == 0,
                no_huge == region.flags.spec_contains(MemFlags::NO_HUGEPAGES),
                forall|v: u64|
                    #![trigger self.query_of(v)]
                    is_canonical(v) && !region.contains_addr(v) ==> self.query_of(v) == old(self).query_of(v),
                region.flags.bits != 0 ==> forall|v: u64|
                    #![trigger self.query_of(v)]
                    region.start <= v < vaddr ==> region_mapped::<PTE>(self.query_of(v), *region, v),
            decreases size,
        {
            let paddr = region.mapper.map_fn(vaddr);
            let page_size = if PageSize::Size1G.is_aligned(vaddr) && PageSize::Size1G.is_aligned(paddr)
                && size >= 0x4000_0000 && !no_huge {
                PageSize::Size1G
            } else if PageSize::Size2M.is_aligned(vaddr) && PageSize::Size2M.is_aligned(paddr)
                && size >= 0x20_0000 && !no_huge {
                PageSize::Size2M
            } else {
                PageSize::Size4K
            };
            proof {
                if single || blocked {
                    assert(page_size == greedy_size(*region, region.start, region.size));
                }
                assert(page_size == greedy_size(*region, vaddr, size));
            }
            if paddr >= PHYS_LIMIT {
                return Err(HvError::from_num(HvErrorNum::ERANGE));
            }
            let ghost before = *self;
            let res = self.map_page(vaddr, page_size, paddr, region.flags, allocator);
            proof {
                assert(page_size.spec_bytes() <= size);
                lemma_region_room_step::<PTE>(old(self).spec_mem(), before.spec_mem(), self.spec_mem(), self.spec_root(), *region, vaddr, page_size);
            }
            match res {
                Ok(()) => {},
                Err(e) => {
                    return Err(HvError::from_paging(e));
                },
            }
            let step = page_size.bytes();
            proof {
                assert(size >= step);
                let sz = page_size;
                if greedy_ok::<PTE>(old(self).spec_mem(), old(self).spec_root(), *region, region.start, region.size) {
                    assert(greedy_ok::<PTE>(before.spec_mem(), before.spec_root(), *region, (vaddr + step) as u64, (size - step) as u64));
                    lemma_greedy_ok_transfer::<PTE>(
                        before.spec_mem(),
                        self.spec_mem(),
                        self.spec_root(),
                        *region,
                        (vaddr + step) as u64,
                        (size - step) as u64,
                        vaddr,
                        sz,
                    );
                }
                assert forall|v: u64|
                    #![trigger self.query_of(v)]
                    is_canonical(v) && !(vaddr <= v && v - vaddr < step) implies self.query_of(v) == before.query_of(v) by {
                    lemma_page_key(v, vaddr, sz);
                }
                assert forall|v: u64|
                    #![trigger self.query_of(v)]
                    is_canonical(v) && !region.contains_addr(v) implies self.query_of(v) == old(self).query_of(v) by {
                    assert(before.query_of(v) == old(self).query_of(v));
                }
                assert forall|v: u64|
                    #![trigger self.query_of(v)]
                    vaddr + step <= v < region.start + region.size implies self.query_of(v) == old(self).query_of(v) by {
                    lemma_page_key(v, vaddr, sz);
                    assert(before.query_of(v) == old(self).query_of(v));
                }
                if region.flags.bits != 0 {
                    assert forall|w: u64| region.start <= w < vaddr implies #[trigger] self.query_of(w) == before.query_of(w) by {
                        lemma_page_key(w, vaddr, sz);
                    }
                    lemma_leaves_fit_same(before, *self, region.start, vaddr as int);
                    let qv = self.query_of(vaddr);
                    lemma_page_key(vaddr, vaddr, sz);
                    assert(qv is Ok && qv->Ok_0.2 == sz);
                    assert(leaves_fit(*self, (vaddr + step) as u64, (vaddr + step) as int));
                    assert(leaves_fit(*self, vaddr, (vaddr + step) as int));
                    lemma_leaves_fit_concat(*self, region.start, vaddr, (vaddr + step) as int);
                }
                assert forall|v: u64|
                    #![trigger old(self).query_of(v)]
                    region.start <= v < vaddr + step implies old(self).query_of(v) is Err by {
                    if v >= vaddr {
                        lemma_page_key(v, vaddr, sz);
                        assert(key_of(v, level_of(sz) + 1) == key_of(vaddr, level_of(sz) + 1));
                        let q = self.query_of(v);
                        assert(before.query_of(v) == Err::<(u64, MemFlags, PageSize), PagingError>(PagingError::NotMapped));
                        assert(before.query_of(v) == old(self).query_of(v));
                    }
                }
                if region.flags.bits != 0 {
                    assert forall|v: u64|
                        #![trigger self.query_of(v)]
                        region.start <= v < vaddr + step implies region_mapped::<PTE>(self.query_of(v), *region, v) by {
                        if v < vaddr {
                            lemma_page_key(v, vaddr, sz);
                            assert(before.query_of(v) == self.query_of(v));
                        } else {
                            lemma_page_key(v, vaddr, sz);
                            lemma_in_page(v, vaddr, sz);
                        }
                    }
                }
            }
            vaddr = vaddr + step;
            size = size - step;
        }
        proof {
            assert forall|v: u64| region.contains_addr(v) implies !(#[trigger] old(self).query_of(v) is Ok) by {
                assert(old(self).query_of(v) is Err);
            }
        }
        Ok(())
    }

    /// Removes every mapping of `region`. A mapping whose page is not
    /// aligned to the cursor or reaches past the region is left in place
    /// and reported as a bad address.
    pub fn unmap(&mut self, region: &MemoryRegion) -> (r: HvResult)
        requires
            old(self).wf(),
            region.start % 0x1000 == 0,
            region.size % 0x1000 == 0,
            region_in_half(region.start, region.size),
        ensures
            final(self).wf(),
            final(self).spec_root() == old(self).spec_root(),
            forall|v: u64|
                #![trigger final(self).query_of(v)]
                is_canonical(v) && !region.contains_addr(v) ==> final(self).query_of(v) == old(self).query_of(v),
            r is Ok ==> forall|v: u64|
                #![trigger final(self).query_of(v)]
                region.contains_addr(v) ==> final(self).query_of(v) == Err::<(u64, MemFlags, PageSize), PagingError>(
                    PagingError::NotMapped,
                ),
            leaves_fit(*old(self), region.start, region.start + region.size) ==> r is Ok,
    {
        let mut vaddr = region.start;
        let mut size = region.size;
        while size > 0
            invariant
                leaves_fit(*old(self), region.start, region.start + region.size) ==> leaves_fit(
                    *self,
                    vaddr,
                    region.start + region.size,
                ),
                self.wf(),
                self.spec_root() == old(self).spec_root(),
                region.start % 0x1000 == 0,
                region.size % 0x1000 == 0,
                region_in_half(region.start, region.size),
                size <= region.size,
                vaddr == region.start + (region.size - size),
                forall|v: u64|
                    #![trigger self.query_of(v)]
                    is_canonical(v) && !region.contains_addr(v) ==> self.query_of(v) == old(self).query_of(v),
                forall|v: u64|
                    #![trigger self.query_of(v)]
                    region.start <= v < vaddr ==> self.query_of(v) == Err::<(u64, MemFlags, PageSize), PagingError>(
                        PagingError::NotMapped,
                    ),
            decreases size,
        {
            let page_size = match self.query(vaddr) {
                Ok((_, _, s)) => s,
                Err(e) => return Err(HvError::from_paging(e)),
            };
            if !page_size.is_aligned(vaddr) || page_size.bytes() > size {
                return Err(HvError::from_num(HvErrorNum::EFAULT));
            }
            let ghost before = *self;
            match self.unmap_page(vaddr) {
                Ok(_) => {},
                Err(e) => return Err(HvError::from_paging(e)),
            }
            let step = page_size.bytes();
            proof {
                let sz = page_size;
                if leaves_fit(*old(self), region.start, region.start + region.size) {
                    assert forall|w: u64| vaddr + step <= w < region.start + region.size implies #[trigger] self.query_of(w)
                        == before.query_of(w) by {
                        lemma_page_key(w, vaddr, sz);
                    }
                    lemma_leaves_fit_same(before, *self, (vaddr + step) as u64, region.start + region.size);
                }
                assert forall|v: u64|
                    #![trigger self.query_of(v)]
                    is_canonical(v) && !region.contains_addr(v) implies self.query_of(v) == old(self).query_of(v) by {
                    lemma_page_key(v, vaddr, sz);
                    assert(before.query_of(v) == old(self).query_of(v));
                }
                assert forall|v: u64|
                    #![trigger self.query_of(v)]
                    region.start <= v < vaddr + step implies self.query_of(v) == Err::<(u64, MemFlags, PageSize), PagingError>(
                        PagingError::NotMapped,
                    ) by {
                    lemma_page_key(v, vaddr, sz);
                    if v < vaddr {
                        assert(before.query_of(v) == self.query_of(v));
                    }
                }
            }
            vaddr = vaddr + step;
            size = size - step;
        }
        Ok(())
    }

    /// A new table whose root frame copies this table's root entries and
    /// shares every lower table with it. The lower tables stay owned by
    /// this table, so the clone must be dropped first.
    pub fn clone_table(&self, allocator: &mut FrameAllocator) -> (r: HvResult<Self>)
        requires
            self.wf(),
            old(allocator).wf(),
            self.fresh_in(&*old(allocator)),
        ensures
            final(allocator).wf(),
            final(allocator).free_frames().subset_of(old(allocator).free_frames()),
            self.fresh_in(&*final(allocator)),
            match r {
                Ok(c) => {
                    &&& c.wf()
                    &&& c.fresh_in(&*final(allocator))
                    &&& c.spec_root() != self.spec_root()
                    &&& forall|v: u64| #[trigger] c.query_of(v) == self.query_of(v)
                },
                Err(e) => e.spec_num() == HvErrorNum::ENOMEM && old(allocator).free_frames() == Set::<u64>::empty(),
            },
    {
        let ghost free0 = allocator.free_frames();
        proof {
            assert forall|t: u64| self.tables@.contains_key(t) implies !free0.contains(t) by {
                assert(self.spec_tables().contains_key(t));
            }
        }
        let f = match Frame::new(allocator) {
            Ok(f) => f,
            Err(e) => return Err(e),
        };
        let fp = f.start_paddr();
        proof {
            assert(free0.contains(fp));
            assert forall|t: u64| #[trigger] self.spec_tables().contains_key(t) implies !allocator.free_frames().contains(t) by {
                assert(!free0.contains(t));
            }
        }
        let root = self.root.start_paddr();
        let mut mem = self.mem.duplicate();
        let mut i: u64 = 0;
        while i < 512
            invariant
                self.wf(),
                root == self.spec_root(),
                table_frame(fp),
                table_frame(root),
                i <= 512,
                forall|k: u64| k < i ==> #[trigger] word_at(mem@, (fp + 8 * k) as u64) == word_at(self.mem@, (root + 8 * k) as u64),
                forall|a: u64| (a < fp || a >= fp + 8 * i) ==> #[trigger] word_at(mem@, a) == word_at(self.mem@, a),
            decreases 512 - i,
        {
            proof {
                lemma_entry_addrs(root, i, root, i);
                lemma_entry_addrs(fp, i, fp, i);
            }
            let w = self.mem.read(root + 8 * i);
            mem.write(fp + 8 * i, w);
            proof {
                assert forall|k: u64| k < i + 1 implies #[trigger] word_at(mem@, (fp + 8 * k) as u64) == word_at(self.mem@, (root + 8 * k) as u64) by {
                    if k < i {
                        lemma_entry_addrs(fp, k, fp, i);
                    }
                }
            }
            i = i + 1;
        }
        let mut shared: Vec<PhysAddr> = Vec::new();
        shared.push(root);
        let mut j: usize = 0;
        while j < self.intrm_tables.len()
            invariant
                j <= self.intrm_tables.len(),
                shared@.len() == j + 1,
                shared@[0] == root,
                forall|k: int| 0 <= k < j ==> shared@[k + 1] == (#[trigger] self.intrm_tables[k]).spec_start(),
            decreases self.intrm_tables.len() - j,
        {
            shared.push(self.intrm_tables[j].start_paddr());
            j = j + 1;
        }
        let ghost base_len = shared@.len();
        let mut k: usize = 0;
        while k < self.shared_tables.len()
            invariant
                k <= self.shared_tables.len(),
                base_len == self.intrm_tables.len() + 1,
                shared@.len() == base_len + k,
                shared@[0] == root,
                forall|m: int| 0 <= m < self.intrm_tables.len() ==> shared@[m + 1] == (#[trigger] self.intrm_tables[m]).spec_start(),
                forall|m: int| 0 <= m < k ==> shared@[base_len + m] == self.shared_tables@[m],
            decreases self.shared_tables.len() - k,
        {
            shared.push(self.shared_tables[k]);
            k = k + 1;
        }
        let ghost tables = self.tables@.insert(fp, (1nat, 0u64));
        let c = Level4PageTable {
            root: f,
            intrm_tables: Vec::new(),
            shared_tables: shared,
            mem,
            tables: Ghost(tables),
            _phantom: PhantomData,
        };
        proof {
            assert(same_outside(self.mem@, c.mem@, fp));
            assert forall|t: u64, i: u64| tables.contains_key(t) && i < 512 implies #[trigger] entry_ok::<PTE>(c.mem@, tables, t, i) by {
                if t == fp {
                    assert(entry_ok::<PTE>(self.mem@, self.tables@, root, i));
                    assert(word_at(c.mem@, (fp + 8 * i) as u64) == word_at(self.mem@, (root + 8 * i) as u64));
                } else {
                    lemma_entry_addrs(t, i, fp, 0);
                    assert(entry_ok::<PTE>(self.mem@, self.tables@, t, i));
                }
            }
            assert forall|t: u64| #[trigger] tables.contains_key(t) implies c.known_table(t) by {
                if t != fp {
                    assert(self.known_table(t));
                    if t == root {
                        assert(c.shared_tables@[0] == t);
                    } else if self.shared_tables@.contains(t) {
                        let m = choose|m: int| 0 <= m < self.shared_tables@.len() && self.shared_tables@[m] == t;
                        assert(c.shared_tables@[base_len + m] == t);
                    } else {
                        let m = choose|m: int| 0 <= m < self.intrm_tables.len() && (#[trigger] self.intrm_tables[m]).spec_start() == t;
                        assert(c.shared_tables@[m + 1] == t);
                    }
                }
            }
            assert forall|v: u64| #[trigger] c.query_of(v) == self.query_of(v) by {
                lemma_copied_root::<PTE>(self.mem@, c.mem@, self.tables@, root, fp, v);
            }
            assert forall|t: u64| #[trigger] c.spec_tables().contains_key(t) implies !allocator.free_frames().contains(t) by {
                if t != fp {
                    assert(!free0.contains(t));
                }
            }
            assert(c.spec_root() == fp);
        }
        Ok(c)
    }

    /// The register value that makes this table active.
    pub fn activate(&self) -> (r: u64)
        requires
            self.wf(),
        ensures
            r == I::spec_activate(self.spec_root()),
    {
        I::activate(self.root.start_paddr())
    }
}

} // verus!