//! The memory layout of the hypervisor image.

use vstd::prelude::*;

use crate::memory::addr::{align_up, spec_align_up, VirtAddr};
use crate::percpu::PER_CPU_SIZE;

verus! {

/// Size of the hypervisor heap.
pub const HV_HEAP_SIZE: u64 = 0x200_0000;

/// Start virtual address of the hypervisor memory.
pub const HV_BASE: u64 = 0xffff_ff00_0000_0000;

/// The address of the system configuration: right after the per-CPU
/// array at `per_cpu_array`, which holds `max_cpus` blocks.
pub fn hv_config_ptr(per_cpu_array: VirtAddr, max_cpus: u32) -> (r: VirtAddr)
    requires
        per_cpu_array + max_cpus * PER_CPU_SIZE <= u64::MAX,
    ensures
        r == per_cpu_array + max_cpus * PER_CPU_SIZE,
{
    per_cpu_array + max_cpus as u64 * PER_CPU_SIZE
}

/// The first page after the system configuration of `config_size` bytes.
pub fn free_memory_start(config_ptr: VirtAddr, config_size: u64) -> (r: VirtAddr)
    requires
        config_ptr + config_size <= u64::MAX - 0xfff,
    ensures
        r == spec_align_up(config_ptr + config_size),
{
    align_up(config_ptr + config_size)
}

/// The end of the hypervisor memory of `hv_memory_size` bytes.
pub fn hv_end(hv_memory_size: u64) -> (r: VirtAddr)
    requires
        hv_memory_size <= u64::MAX - HV_BASE,
    ensures
        r == HV_BASE + hv_memory_size,
{
    HV_BASE + hv_memory_size
}

} // verus!
