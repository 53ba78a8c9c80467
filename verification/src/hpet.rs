//! The high-precision event timer.
use vstd::prelude::*;

verus! {

/// Offset of the general capabilities register.
pub const HPET_CAPABILITIES: u64 = 0x00;
/// Offset of the general configuration register.
pub const HPET_CONFIG: u64 = 0x10;
/// Offset of the main counter.
pub const HPET_COUNTER: u64 = 0xF0;

/// What starting the timer takes and gives.
#[derive(Clone, Copy, PartialEq, Eq, Structural, Debug)]
pub struct HpetStart {
    /// Counter period in femtoseconds.
    pub period_fs: u64,
    /// The configuration to write back: the old one with the enable bit.
    pub config: u64,
}

/// From the capabilities and the configuration that were read: the counter
/// period (bits 32 to 63 of the capabilities) and the configuration with
/// the counter enabled.
pub fn init_hpet(capabilities: u64, config: u64) -> (r: HpetStart)
    ensures
        r.period_fs == capabilities >> 32u64,
        r.config == config | 1,
{
    HpetStart { period_fs: capabilities >> 32, config: config | 1 }
}

} // verus!
