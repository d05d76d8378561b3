//! The system configuration that the loader places after the per-CPU
//! array: a packed little-endian layout, read here from its bytes.

use vstd::prelude::*;

use crate::error::{HvError, HvErrorNum, HvResult};
use crate::memory::paging::MemFlags;

verus! {

/// "RVMSYS".
pub const CONFIG_SIGNATURE: [u8; 6] = [0x52, 0x56, 0x4d, 0x53, 0x59, 0x53];
pub const CONFIG_REVISION: u16 = 10;

/// Packed sizes of the configuration records.
pub const SYSTEM_CONFIG_SIZE: u64 = 394;
pub const CELL_DESC_SIZE: u64 = 128;
pub const MEMORY_REGION_SIZE: u64 = 32;
pub const CACHE_REGION_SIZE: u64 = 12;
pub const IRQCHIP_SIZE: u64 = 32;
pub const PCI_DEVICE_SIZE: u64 = 56;
pub const PCI_CAPABILITY_SIZE: u64 = 8;

/// Offsets inside the system configuration.
pub const OFF_REVISION: usize = 6;
pub const OFF_HV_MEMORY: usize = 12;
pub const OFF_ROOT_CELL: usize = 266;

/// The little-endian integer of `n` bytes of `b` from `off`.
pub open spec fn le_bytes(b: Seq<u8>, off: int, n: nat) -> int
    decreases n,
{
    if n == 0 {
        0
    } else {
        b[off] as int + 256 * le_bytes(b, off + 1, (n - 1) as nat)
    }
}

proof fn lemma_le_u16(b0: u8, b1: u8)
    by (bit_vector)
    ensures
        ((b0 as u16) | ((b1 as u16) << 8u16)) == b0 as int + 256 * (b1 as int),
{
}

proof fn lemma_le_u32(b0: u8, b1: u8, b2: u8, b3: u8)
    by (bit_vector)
    ensures
        ((b0 as u32) | ((b1 as u32) << 8u32) | ((b2 as u32) << 16u32) | ((b3 as u32) << 24u32)) == b0
            as int + 256 * (b1 as int + 256 * (b2 as int + 256 * (b3 as int))),
{
}

proof fn lemma_le_u64(b0: u8, b1: u8, b2: u8, b3: u8, b4: u8, b5: u8, b6: u8, b7: u8)
    by (bit_vector)
    ensures
        ((b0 as u64) | ((b1 as u64) << 8u64) | ((b2 as u64) << 16u64) | ((b3 as u64) << 24u64) | ((b4
            as u64) << 32u64) | ((b5 as u64) << 40u64) | ((b6 as u64) << 48u64) | ((b7 as u64)
            << 56u64)) == b0 as int + 256 * (b1 as int + 256 * (b2 as int + 256 * (b3 as int + 256 * (
        b4 as int + 256 * (b5 as int + 256 * (b6 as int + 256 * (b7 as int))))))),
{
}

/// Reads a little-endian `u16` at `off`.
pub fn read_u16(b: &[u8], off: usize) -> (r: u16)
    requires
        off + 2 <= b@.len(),
    ensures
        r == le_bytes(b@, off as int, 2),
{
    proof {
        lemma_le_u16(b@[off as int], b@[off + 1]);
        reveal_with_fuel(le_bytes, 3);
    }
    (b[off] as u16) | ((b[off + 1] as u16) << 8u16)
}

/// Reads a little-endian `u32` at `off`.
pub fn read_u32(b: &[u8], off: usize) -> (r: u32)
    requires
        off + 4 <= b@.len(),
    ensures
        r == le_bytes(b@, off as int, 4),
{
    proof {
        lemma_le_u32(b@[off as int], b@[off + 1], b@[off + 2], b@[off + 3]);
        reveal_with_fuel(le_bytes, 5);
    }
    (b[off] as u32) | ((b[off + 1] as u32) << 8u32) | ((b[off + 2] as u32) << 16u32) | ((b[off + 3] as u32) << 24u32)
}

/// Reads a little-endian `u64` at `off`.
pub fn read_u64(b: &[u8], off: usize) -> (r: u64)
    requires
        off + 8 <= b@.len(),
    ensures
        r == le_bytes(b@, off as int, 8),
{
    proof {
        lemma_le_u64(
            b@[off as int],
            b@[off + 1],
            b@[off + 2],
            b@[off + 3],
            b@[off + 4],
            b@[off + 5],
            b@[off + 6],
            b@[off + 7],
        );
        reveal_with_fuel(le_bytes, 9);
    }
    (b[off] as u64) | ((b[off + 1] as u64) << 8u64) | ((b[off + 2] as u64) << 16u64) | ((b[off + 3] as u64) << 24u64)
        | ((b[off + 4] as u64) << 32u64) | ((b[off + 5] as u64) << 40u64) | ((b[off + 6] as u64) << 48u64)
        | ((b[off + 7] as u64) << 56u64)
}

/// A memory region of the configuration.
#[derive(Clone, Copy, Debug, PartialEq, Eq, Structural)]
pub struct HvMemoryRegion {
    pub phys_start: u64,
    pub virt_start: u64,
    pub size: u64,
    pub flags: MemFlags,
}

/// The record at `off`: three addresses and the flags.
pub open spec fn spec_memory_region(b: Seq<u8>, off: int) -> HvMemoryRegion {
    HvMemoryRegion {
        phys_start: le_bytes(b, off, 8) as u64,
        virt_start: le_bytes(b, off + 8, 8) as u64,
        size: le_bytes(b, off + 16, 8) as u64,
        flags: MemFlags { bits: (le_bytes(b, off + 24, 8) as u64) & MemFlags::ALL },
    }
}

impl HvMemoryRegion {
    /// Reads the region record at `off`.
    pub fn parse(b: &[u8], off: usize) -> (r: Self)
        requires
            off + 32 <= b@.len(),
        ensures
            r == spec_memory_region(b@, off as int),
    {
        let len = b.len();
        assert(off + 32 <= len);
        HvMemoryRegion {
            phys_start: read_u64(b, off),
            virt_start: read_u64(b, off + 8),
            size: read_u64(b, off + 16),
            flags: MemFlags::from_bits_truncate(read_u64(b, off + 24)),
        }
    }
}

/// The counts of the root cell's descriptor that size its configuration.
#[derive(Clone, Copy, Debug, PartialEq, Eq, Structural)]
pub struct HvCellDesc {
    pub cpu_set_size: u32,
    pub num_memory_regions: u32,
    pub num_cache_regions: u32,
    pub num_irqchips: u32,
    pub pio_bitmap_size: u32,
    pub num_pci_devices: u32,
    pub num_pci_caps: u32,
}

/// The size of a cell's variable-sized configuration.
pub open spec fn spec_config_size(d: HvCellDesc) -> int {
    d.cpu_set_size + d.num_memory_regions * MEMORY_REGION_SIZE + d.num_cache_regions * CACHE_REGION_SIZE
        + d.num_irqchips * IRQCHIP_SIZE + d.pio_bitmap_size + d.num_pci_devices * PCI_DEVICE_SIZE
        + d.num_pci_caps * PCI_CAPABILITY_SIZE
}

impl HvCellDesc {
    /// The size of the arrays that follow the descriptor.
    pub fn config_size(&self) -> (r: u64)
        ensures
            r == spec_config_size(*self),
    {
        let a = self.cpu_set_size as u64;
        let m = self.num_memory_regions as u64 * 32;
        let c = self.num_cache_regions as u64 * 12;
        let q = self.num_irqchips as u64 * 32;
        let p = self.pio_bitmap_size as u64;
        let d = self.num_pci_devices as u64 * 56;
        let k = self.num_pci_caps as u64 * 8;
        a + m + c + q + p + d + k
    }

    /// The configuration view of this descriptor.
    pub fn config(&self) -> (r: CellConfig)
        ensures
            r.desc == *self,
    {
        CellConfig::from(*self)
    }
}

/// The general descriptor of the system.
#[derive(Clone, Copy, Debug)]
pub struct HvSystemConfig {
    pub signature: [u8; 6],
    pub revision: u16,
    pub hypervisor_memory: HvMemoryRegion,
    pub root_cell: HvCellDesc,
}

/// The system configuration read from `b`.
pub open spec fn spec_system_config(b: Seq<u8>) -> HvSystemConfig {
    HvSystemConfig {
        signature: [b[0], b[1], b[2], b[3], b[4], b[5]],
        revision: le_bytes(b, 6, 2) as u16,
        hypervisor_memory: spec_memory_region(b, 12),
        root_cell: HvCellDesc {
            cpu_set_size: le_bytes(b, 314int, 4) as u32,
            num_memory_regions: le_bytes(b, 318int, 4) as u32,
            num_cache_regions: le_bytes(b, 322int, 4) as u32,
            num_irqchips: le_bytes(b, 326int, 4) as u32,
            pio_bitmap_size: le_bytes(b, 330int, 4) as u32,
            num_pci_devices: le_bytes(b, 334int, 4) as u32,
            num_pci_caps: le_bytes(b, 338int, 4) as u32,
        },
    }
}

impl HvSystemConfig {
    /// Whether `b` holds a system configuration this hypervisor accepts.
    pub open spec fn parse_spec_ok(b: Seq<u8>) -> bool {
        b.len() >= SYSTEM_CONFIG_SIZE && spec_system_config(b).spec_check()
    }

    /// Reads the fixed part of the system configuration; `EINVAL` if `b`
    /// is shorter than it.
    pub fn parse(b: &[u8]) -> (r: HvResult<Self>)
        ensures
            b@.len() >= SYSTEM_CONFIG_SIZE ==> r is Ok && r->Ok_0 == spec_system_config(b@),
            b@.len() < SYSTEM_CONFIG_SIZE ==> r is Err && r->Err_0.spec_num() == HvErrorNum::EINVAL,
    {
        if b.len() < SYSTEM_CONFIG_SIZE as usize {
            return Err(HvError::from_num(HvErrorNum::EINVAL));
        }
        let rc = OFF_ROOT_CELL;
        let r = HvSystemConfig {
            signature: [b[0], b[1], b[2], b[3], b[4], b[5]],
            revision: read_u16(b, OFF_REVISION),
            hypervisor_memory: HvMemoryRegion::parse(b, OFF_HV_MEMORY),
            root_cell: HvCellDesc {
                cpu_set_size: read_u32(b, rc + 48),
                num_memory_regions: read_u32(b, rc + 52),
                num_cache_regions: read_u32(b, rc + 56),
                num_irqchips: read_u32(b, rc + 60),
                pio_bitmap_size: read_u32(b, rc + 64),
                num_pci_devices: read_u32(b, rc + 68),
                num_pci_caps: read_u32(b, rc + 72),
            },
        };
        Ok(r)
    }

    /// The size of the configuration with the root cell's arrays.
    pub fn size(&self) -> (r: u64)
        ensures
            r == SYSTEM_CONFIG_SIZE + spec_config_size(self.root_cell),
    {
        SYSTEM_CONFIG_SIZE + self.root_cell.config_size()
    }

    /// Whether the signature is "RVMSYS" and the revision the one this
    /// hypervisor reads.
    pub open spec fn spec_check(&self) -> bool {
        &&& self.signature[0] == 0x52u8 && self.signature[1] == 0x56u8 && self.signature[2] == 0x4du8
        &&& self.signature[3] == 0x53u8 && self.signature[4] == 0x59u8 && self.signature[5] == 0x53u8
        &&& self.revision == CONFIG_REVISION
    }

    /// Fails with `EINVAL` unless the signature and revision match.
    pub fn check(&self) -> (r: HvResult)
        ensures
            r is Ok <==> self.spec_check(),
            r is Err ==> r->Err_0.spec_num() == HvErrorNum::EINVAL,
    {
        let s = self.signature;
        if !(s[0] == 0x52 && s[1] == 0x56 && s[2] == 0x4d && s[3] == 0x53 && s[4] == 0x59 && s[5] == 0x53) {
            return Err(HvError::from_num(HvErrorNum::EINVAL));
        }
        if self.revision != CONFIG_REVISION {
            return Err(HvError::from_num(HvErrorNum::EINVAL));
        }
        Ok(())
    }
}

/// The root cell's configuration: its descriptor, whose arrays follow the
/// system configuration.
#[derive(Clone, Copy, Debug)]
pub struct CellConfig {
    pub desc: HvCellDesc,
}

/// The memory regions that `mem_regions` reads from the configuration
/// bytes `b`.
pub open spec fn config_mem_regions(desc: HvCellDesc, b: Seq<u8>) -> Seq<HvMemoryRegion> {
    Seq::new(
        desc.num_memory_regions as nat,
        |i: int| spec_memory_region(b, SYSTEM_CONFIG_SIZE + desc.cpu_set_size + i * MEMORY_REGION_SIZE),
    )
}

/// The configuration bytes hold all of the cell's memory regions.
pub open spec fn config_regions_fit(desc: HvCellDesc, b: Seq<u8>) -> bool {
    SYSTEM_CONFIG_SIZE + desc.cpu_set_size + desc.num_memory_regions * MEMORY_REGION_SIZE <= b.len()
}

impl CellConfig {
    pub fn from(desc: HvCellDesc) -> (r: Self)
        ensures
            r.desc == desc,
    {
        CellConfig { desc }
    }

    /// The size of the cell's arrays.
    pub fn size(&self) -> (r: u64)
        ensures
            r == spec_config_size(self.desc),
    {
        self.desc.config_size()
    }

    /// The memory regions, read from `b` (the whole system configuration),
    /// after the CPU set; `EINVAL` if `b` ends before them.
    pub fn mem_regions(&self, b: &[u8]) -> (r: HvResult<Vec<HvMemoryRegion>>)
        ensures
            SYSTEM_CONFIG_SIZE + self.desc.cpu_set_size + self.desc.num_memory_regions * MEMORY_REGION_SIZE
                <= b@.len() ==> r is Ok && r->Ok_0@.len() == self.desc.num_memory_regions && forall|i: int|
                0 <= i < self.desc.num_memory_regions ==> #[trigger] r->Ok_0@[i] == spec_memory_region(
                    b@,
                    SYSTEM_CONFIG_SIZE + self.desc.cpu_set_size + i * MEMORY_REGION_SIZE,
                ),
            SYSTEM_CONFIG_SIZE + self.desc.cpu_set_size + self.desc.num_memory_regions * MEMORY_REGION_SIZE
                > b@.len() ==> r is Err && r->Err_0.spec_num() == HvErrorNum::EINVAL,
    {
        let start = SYSTEM_CONFIG_SIZE + self.desc.cpu_set_size as u64;
        let n = self.desc.num_memory_regions as u64;
        if start + n * MEMORY_REGION_SIZE > b.len() as u64 {
            return Err(HvError::from_num(HvErrorNum::EINVAL));
        }
        let mut out: Vec<HvMemoryRegion> = Vec::new();
        let mut i: u64 = 0;
        let len = b.len();
        while i < n
            invariant
                len == b@.len(),
                i <= n,
                n == self.desc.num_memory_regions,
                start == SYSTEM_CONFIG_SIZE + self.desc.cpu_set_size,
                start + n * MEMORY_REGION_SIZE <= b@.len(),
                out@.len() == i,
                forall|k: int| 0 <= k < i ==> #[trigger] out@[k] == spec_memory_region(b@, start + k * MEMORY_REGION_SIZE),
            decreases n - i,
        {
            proof {
                assert(start + i * 32 + 32 <= start + n * 32) by (nonlinear_arith)
                    requires
                        i < n,
                ;
            }
            assert(start + i * MEMORY_REGION_SIZE <= len);
            let off = (start + i * MEMORY_REGION_SIZE) as usize;
            assert(off as int == start + i * MEMORY_REGION_SIZE);
            out.push(HvMemoryRegion::parse(b, off));
            i = i + 1;
        }
        Ok(out)
    }
}

} // verus!
