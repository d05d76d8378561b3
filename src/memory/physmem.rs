//! Physical memory as the page-table engine sees it: 64-bit words at
//! 8-byte aligned physical addresses, zero where nothing was written.

use std::collections::HashMap;
use vstd::prelude::*;

verus! {

broadcast use vstd::std_specs::hash::group_hash_axioms;

/// The word at `addr` of a memory map.
pub open spec fn word_at(mem: Map<u64, u64>, addr: u64) -> u64 {
    if mem.contains_key(addr) {
        mem[addr]
    } else {
        0
    }
}

/// The byte at `addr`: bytes are little-endian within their word.
pub open spec fn byte_at(mem: Map<u64, u64>, addr: u64) -> u8 {
    ((word_at(mem, addr & !7u64) >> ((addr & 7u64) * 8)) & 0xffu64) as u8
}

/// Word-addressed physical memory.
pub struct PhysMemory {
    words: HashMap<u64, u64>,
}

impl View for PhysMemory {
    type V = Map<u64, u64>;

    closed spec fn view(&self) -> Map<u64, u64> {
        self.words@
    }
}

impl PhysMemory {
    /// Memory that reads as zero everywhere.
    pub fn new() -> (r: Self)
        ensures
            forall|a: u64| word_at(r@, a) == 0,
    {
        PhysMemory { words: HashMap::new() }
    }

    /// The word at `addr`.
    pub fn read(&self, addr: u64) -> (r: u64)
        ensures
            r == word_at(self@, addr),
    {
        match self.words.get(&addr) {
            Some(v) => *v,
            None => 0,
        }
    }

    /// The byte at `addr`.
    pub fn read_byte(&self, addr: u64) -> (r: u8)
        ensures
            r == byte_at(self@, addr),
    {
        let w = self.read(addr & !7u64);
        proof {
            assert(addr & 7u64 <= 7) by (bit_vector);
        }
        ((w >> ((addr & 7u64) * 8)) & 0xff) as u8
    }

    /// Stores `val` at `addr`.
    pub fn write(&mut self, addr: u64, val: u64)
        ensures
            final(self)@ == old(self)@.insert(addr, val),
            word_at(final(self)@, addr) == val,
            forall|a: u64| a != addr ==> word_at(final(self)@, a) == word_at(old(self)@, a),
    {
        self.words.insert(addr, val);
    }

    /// A copy of this memory.
    pub fn duplicate(&self) -> (r: Self)
        ensures
            r@ == self@,
    {
        PhysMemory { words: self.words.clone() }
    }
}

} // verus!
