//! Processor frequency and time.

use vstd::prelude::*;

verus! {

/// The frequency assumed when the processor does not report one, in MHz.
pub const DEFAULT_FREQUENCY_MHZ: u16 = 4000;

/// The frequency to count time with: the reported base frequency, but no
/// less than the default.
pub fn frequency(reported_mhz: Option<u16>) -> (r: u16)
    ensures
        r >= DEFAULT_FREQUENCY_MHZ,
        reported_mhz is Some && reported_mhz->Some_0 >= DEFAULT_FREQUENCY_MHZ ==> r == reported_mhz->Some_0,
        (reported_mhz is None || reported_mhz->Some_0 < DEFAULT_FREQUENCY_MHZ) ==> r == DEFAULT_FREQUENCY_MHZ,
{
    let f = match reported_mhz {
        Some(f) => f,
        None => DEFAULT_FREQUENCY_MHZ,
    };
    if f > DEFAULT_FREQUENCY_MHZ {
        f
    } else {
        DEFAULT_FREQUENCY_MHZ
    }
}

/// Nanoseconds for `cycles` time-stamp counter cycles at `frequency_mhz`.
pub fn current_time_nanos(cycles: u64, frequency_mhz: u16) -> (r: u64)
    requires
        frequency_mhz > 0,
    ensures
        r == (cycles as int * 1000 / frequency_mhz as int) as u64,
{
    let n = (cycles as u128 * 1000u128) / (frequency_mhz as u128);
    n as u64
}

} // verus!
