//! Typed access to guest memory through the guest's own page table.

use vstd::prelude::*;

use super::addr::GuestVirtAddr;
use super::pagetable::{lemma_in_page, lemma_locate_same_page, query_in};
use super::paging::{key_of, lemma_page_key, level_of, locate, spec_query, GenericPTE, PHYS_LIMIT};
use super::physmem::word_at;
use super::physmem::{byte_at, PhysMemory};
use crate::arch::page_table::PTEntry;
use crate::error::{paging_errno, HvError, HvErrorNum, HvResult};

verus! {

/// A pointer to an object of `size` bytes and alignment `align` at a guest
/// virtual address, mapped by the guest page table rooted at
/// `guest_root`.
#[derive(Clone, Copy, Debug)]
pub struct GuestPtr {
    pub gvaddr: GuestVirtAddr,
    pub guest_root: u64,
    pub size: u64,
    pub align: u64,
}

/// Builds guest pointers from guest addresses.
pub trait AsGuestPtr {
    fn as_guest_ptr(self, guest_root: u64, size: u64, align: u64) -> GuestPtr;
}

impl AsGuestPtr for u64 {
    fn as_guest_ptr(self, guest_root: u64, size: u64, align: u64) -> GuestPtr {
        GuestPtr { gvaddr: self, guest_root, size, align }
    }
}

/// Where the guest page table in `mem` maps the guest address `v`.
pub open spec fn guest_query(mem: Map<u64, u64>, root: u64, v: u64) -> super::paging::PagingResult<(u64, super::paging::MemFlags, super::paging::PageSize)> {
    spec_query::<PTEntry>(mem, root, v)
}

impl GuestPtr {
    /// The pointer is non-null and aligned.
    pub open spec fn spec_check_ok(&self) -> bool {
        self.gvaddr != 0 && self.align > 0 && self.gvaddr % self.align == 0
    }

    pub fn guest_vaddr(&self) -> (r: GuestVirtAddr)
        ensures
            r == self.gvaddr,
    {
        self.gvaddr
    }

    /// Fails with `EFAULT` for a null address and `EINVAL` for a misaligned
    /// one.
    pub fn check_raw(addr: u64, align: u64) -> (r: HvResult)
        requires
            align > 0,
        ensures
            addr == 0 ==> r is Err && r->Err_0.spec_num() == HvErrorNum::EFAULT,
            addr != 0 && addr % align != 0 ==> r is Err && r->Err_0.spec_num() == HvErrorNum::EINVAL,
            addr != 0 && addr % align == 0 ==> r is Ok,
    {
        if addr == 0 {
            return Err(HvError::from_num(HvErrorNum::EFAULT));
        }
        if addr % align != 0 {
            return Err(HvError::from_num(HvErrorNum::EINVAL));
        }
        Ok(())
    }

    /// The guest-physical address the pointer maps to.
    pub fn as_guest_paddr(&self, mem: &PhysMemory) -> (r: HvResult<u64>)
        requires
            self.guest_root < PHYS_LIMIT,
        ensures
            guest_query(mem@, self.guest_root, self.gvaddr) is Ok ==> r is Ok && r->Ok_0 == guest_query(
                mem@,
                self.guest_root,
                self.gvaddr,
            )->Ok_0.0,
            guest_query(mem@, self.guest_root, self.gvaddr) is Err ==> r is Err && r->Err_0.spec_num()
                == paging_errno(guest_query(mem@, self.guest_root, self.gvaddr)->Err_0),
    {
        match query_in::<PTEntry>(mem, self.guest_root, self.gvaddr) {
            Ok((gpaddr, _, _)) => Ok(gpaddr),
            Err(e) => Err(HvError::from_paging(e)),
        }
    }

    /// Reads the object's bytes, page by page, as many pages as it covers.
    pub fn read(&self, mem: &PhysMemory) -> (r: HvResult<Vec<u8>>)
        requires
            self.guest_root < PHYS_LIMIT,
            self.align > 0,
            self.gvaddr + self.size <= u64::MAX,
        ensures
            self.gvaddr == 0 ==> r is Err && r->Err_0.spec_num() == HvErrorNum::EFAULT,
            self.gvaddr != 0 && self.gvaddr % self.align != 0 ==> r is Err && r->Err_0.spec_num()
                == HvErrorNum::EINVAL,
            r is Ok ==> r->Ok_0@.len() == self.size && forall|i: int|
                0 <= i < self.size ==> #[trigger] guest_query(mem@, self.guest_root, (self.gvaddr + i) as u64) is Ok
                    && r->Ok_0@[i] == byte_at(
                    mem@,
                    guest_query(mem@, self.guest_root, (self.gvaddr + i) as u64)->Ok_0.0,
                ),
            self.spec_check_ok() && (forall|i: int|
                0 <= i < self.size ==> #[trigger] guest_query(mem@, self.guest_root, (self.gvaddr + i) as u64) is Ok)
                ==> r is Ok,
    {
        match Self::check_raw(self.gvaddr, self.align) {
            Ok(()) => {},
            Err(e) => return Err(e),
        }
        let root = self.guest_root;
        let mut out: Vec<u8> = Vec::new();
        let mut gv = self.gvaddr;
        let mut left = self.size;
        while left > 0
            invariant
                root == self.guest_root,
                root < PHYS_LIMIT,
                self.gvaddr + self.size <= u64::MAX,
                out@.len() + left == self.size,
                gv == self.gvaddr + out@.len(),
                self.gvaddr != 0 && self.align > 0 && self.gvaddr % self.align == 0,
                forall|i: int|
                    0 <= i < out@.len() ==> #[trigger] guest_query(mem@, root, (self.gvaddr + i) as u64) is Ok
                        && out@[i] == byte_at(mem@, guest_query(mem@, root, (self.gvaddr + i) as u64)->Ok_0.0),
            decreases left,
        {
            let (gpaddr, _, pg_size) = match query_in::<PTEntry>(mem, root, gv) {
                Ok(x) => x,
                Err(e) => {
                    assert(guest_query(mem@, self.guest_root, (self.gvaddr + out@.len()) as u64) is Err);
                    return Err(HvError::from_paging(e));
                },
            };
            let pgoff = pg_size.page_offset(gv);
            let room = pg_size.bytes() - pgoff;
            let chunk = if room < left {
                room
            } else {
                left
            };
            let ghost base = (gv - gv % pg_size.spec_bytes()) as u64;
            proof {
                let s = pg_size.spec_bytes() as int;
                let g = gv as int;
                assert((g - g % s) % s == 0 && 0 <= g % s <= g) by (nonlinear_arith)
                    requires
                        s > 0,
                        g >= 0,
                ;
                assert(base as int == g - g % s);
                assert(base % pg_size.spec_bytes() == 0);
                lemma_page_key(gv, base, pg_size);
            }
            let mut j: u64 = 0;
            while j < chunk
                invariant
                    root == self.guest_root,
                    root < PHYS_LIMIT,
                    self.gvaddr + self.size <= u64::MAX,
                    chunk <= left,
                    out@.len() - j + left == self.size,
                    0 <= j <= chunk,
                    self.gvaddr != 0 && self.align > 0 && self.gvaddr % self.align == 0,
                    chunk <= pg_size.spec_bytes() - gv % pg_size.spec_bytes(),
                    gv == self.gvaddr + (out@.len() - j),
                    base == gv - gv % pg_size.spec_bytes(),
                    base % pg_size.spec_bytes() == 0,
                    guest_query(mem@, root, gv) == Ok::<(u64, super::paging::MemFlags, super::paging::PageSize), super::paging::PagingError>(
                        (gpaddr, guest_query(mem@, root, gv)->Ok_0.1, pg_size),
                    ),
                    key_of(gv, level_of(pg_size) + 1) == key_of(base, level_of(pg_size) + 1),
                    forall|i: int|
                        0 <= i < out@.len() ==> #[trigger] guest_query(mem@, root, (self.gvaddr + i) as u64) is Ok
                            && out@[i] == byte_at(mem@, guest_query(mem@, root, (self.gvaddr + i) as u64)->Ok_0.0),
                decreases chunk - j,
            {
                let ghost w = (gv + j) as u64;
                proof {
                    lemma_page_key(w, base, pg_size);
                    lemma_in_page(w, base, pg_size);
                    lemma_in_page(gv, base, pg_size);
                    lemma_locate_same_page::<PTEntry>(mem@, root, 1, gv, w);
                    assert(w % pg_size.spec_bytes() == gv % pg_size.spec_bytes() + j);
                    PTEntry::lemma_addr_bound(word_at(mem@, locate::<PTEntry>(mem@, root, 1, gv)->Ok_0.0));
                    assert(guest_query(mem@, root, w)->Ok_0.0 == gpaddr + j);
                    assert(w == (self.gvaddr + out@.len()) as u64);
                }
                let b = mem.read_byte(gpaddr + j);
                out.push(b);
                j = j + 1;
            }
            gv = gv + chunk;
            left = left - chunk;
        }
        Ok(out)
    }

    /// The guest-physical address of the object, which must lie inside one
    /// page of the guest mapping; `EINVAL` if, from its guest address, it
    /// crosses the end of that page.
    pub fn as_ref(&self, mem: &PhysMemory) -> (r: HvResult<u64>)
        requires
            self.guest_root < PHYS_LIMIT,
            self.align > 0,
        ensures
            self.gvaddr == 0 ==> r is Err && r->Err_0.spec_num() == HvErrorNum::EFAULT,
            self.gvaddr != 0 && self.gvaddr % self.align != 0 ==> r is Err && r->Err_0.spec_num()
                == HvErrorNum::EINVAL,
            self.spec_check_ok() && guest_query(mem@, self.guest_root, self.gvaddr) is Ok ==> {
                let q = guest_query(mem@, self.guest_root, self.gvaddr)->Ok_0;
                &&& self.gvaddr % q.2.spec_bytes() + self.size > q.2.spec_bytes() ==> r is Err && r->Err_0.spec_num() == HvErrorNum::EINVAL
                &&& self.gvaddr % q.2.spec_bytes() + self.size <= q.2.spec_bytes() ==> r == Ok::<u64, HvError>(q.0)
            },
            self.spec_check_ok() && guest_query(mem@, self.guest_root, self.gvaddr) is Err ==> r is Err,
    {
        match Self::check_raw(self.gvaddr, self.align) {
            Ok(()) => {},
            Err(e) => return Err(e),
        }
        let (gpaddr, _, pg_size) = match query_in::<PTEntry>(mem, self.guest_root, self.gvaddr) {
            Ok(x) => x,
            Err(e) => return Err(HvError::from_paging(e)),
        };
        if pg_size.page_offset(self.gvaddr) as u128 + self.size as u128 > pg_size.bytes() as u128 {
            return Err(HvError::from_num(HvErrorNum::EINVAL));
        }
        Ok(gpaddr)
    }
}

} // verus!
