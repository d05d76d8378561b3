//! The image header the loader reads and fills in.

use vstd::prelude::*;

use crate::config::{le_bytes, read_u32, read_u64};
use crate::error::{HvError, HvErrorNum, HvResult};

verus! {

/// Size of the header in the image.
pub const HEADER_SIZE: u64 = 80;

/// The header of the hypervisor image.
#[derive(Clone, Copy, Debug)]
pub struct HvHeader {
    pub signature: [u8; 8],
    pub core_size: u64,
    pub percpu_size: u64,
    pub entry: u64,
    pub console_page: u64,
    pub gcov_info_head: u64,
    pub max_cpus: u32,
    pub online_cpus: u32,
    pub debug_console_base: u64,
    pub arm_linux_hyp_vectors: u64,
    pub arm_linux_hyp_abi: u32,
}

impl HvHeader {
    /// Reads the header from its bytes; `EINVAL` if there are too few.
    pub fn parse(b: &[u8]) -> (r: HvResult<Self>)
        ensures
            b@.len() >= HEADER_SIZE ==> r is Ok && r->Ok_0.core_size == le_bytes(b@, 8, 8) && r->Ok_0.percpu_size
                == le_bytes(b@, 16, 8) && r->Ok_0.max_cpus == le_bytes(b@, 48, 4) && r->Ok_0.online_cpus
                == le_bytes(b@, 52, 4),
            b@.len() < HEADER_SIZE ==> r is Err && r->Err_0.spec_num() == HvErrorNum::EINVAL,
    {
        if b.len() < HEADER_SIZE as usize {
            return Err(HvError::from_num(HvErrorNum::EINVAL));
        }
        Ok(HvHeader {
            signature: [b[0], b[1], b[2], b[3], b[4], b[5], b[6], b[7]],
            core_size: read_u64(b, 8),
            percpu_size: read_u64(b, 16),
            entry: read_u64(b, 24),
            console_page: read_u64(b, 32),
            gcov_info_head: read_u64(b, 40),
            max_cpus: read_u32(b, 48),
            online_cpus: read_u32(b, 52),
            debug_console_base: read_u64(b, 56),
            arm_linux_hyp_vectors: read_u64(b, 64),
            arm_linux_hyp_abi: read_u32(b, 72),
        })
    }
}

} // verus!
