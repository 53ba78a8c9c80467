//! The local APIC.
use vstd::prelude::*;
use crate::mmio::MmioWrite;

verus! {

/// Spurious-interrupt vector register.
pub const LAPIC_SVR: u64 = 0xF0;
/// End-of-interrupt register.
pub const LAPIC_EOI: u64 = 0xB0;
/// Software enable (bit 8) with spurious vector 0xFF.
pub const SVR_ENABLE: u32 = 0x1FF;

/// The write that enables the local APIC at `base`.
pub fn enable(base: u64) -> (r: MmioWrite)
    requires
        base + LAPIC_SVR <= u64::MAX,
    ensures
        r == (MmioWrite { addr: (base + LAPIC_SVR) as u64, val: SVR_ENABLE }),
{
    MmioWrite { addr: base + LAPIC_SVR, val: SVR_ENABLE }
}

/// The write that signals the end of an interrupt.
pub fn eoi(lapic_base: u64) -> (r: MmioWrite)
    requires
        lapic_base + LAPIC_EOI <= u64::MAX,
    ensures
        r == (MmioWrite { addr: (lapic_base + LAPIC_EOI) as u64, val: 0 }),
{
    MmioWrite { addr: lapic_base + LAPIC_EOI, val: 0 }
}

} // verus!
