//! A verified model of a type-1.5 x86_64 hypervisor core: page tables, memory
//! sets, guest memory access, VM-exit handling, hypercalls and the per-CPU
//! bring-up and tear-down protocol.

pub mod arch;
pub mod boot;
pub mod cell;
pub mod config;
pub mod consts;
pub mod error;
pub mod header;
pub mod hypercall;
pub mod memory;
pub mod percpu;
