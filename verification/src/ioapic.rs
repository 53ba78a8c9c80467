//! The I/O APIC: routing of external interrupts.
use vstd::prelude::*;
use crate::mmio::MmioWrite;

verus! {

/// Offset of the data window from the register-select register.
pub const IOWIN: u64 = 0x10;
/// First redirection-table register.
pub const IOREDTBL: u32 = 0x10;

/// Index of the low half of the redirection entry of `irq`.
pub open spec fn redirection_reg(irq: u8) -> u32 {
    (IOREDTBL + irq * 2) as u32
}

/// The writes that route `irq` to `vector` on the CPU with `apic_id`:
/// select the low half of its redirection entry and write the vector
/// (fixed delivery, edge, active high, unmasked), then select the high
/// half and write the destination.
pub fn redirect(base: u64, irq: u8, vector: u8, apic_id: u8) -> (r: Vec<MmioWrite>)
    requires
        base + IOWIN <= u64::MAX,
    ensures
        r@ == seq![
            MmioWrite { addr: base, val: redirection_reg(irq) },
            MmioWrite { addr: (base + IOWIN) as u64, val: vector as u32 },
            MmioWrite { addr: base, val: (redirection_reg(irq) + 1) as u32 },
            MmioWrite { addr: (base + IOWIN) as u64, val: (apic_id as u32) << 24u32 },
        ],
{
    let reg = IOREDTBL + (irq as u32) * 2;
    let low = vector as u32;
    let high = (apic_id as u32) << 24;
    let mut r: Vec<MmioWrite> = Vec::new();
    r.push(MmioWrite { addr: base, val: reg });
    r.push(MmioWrite { addr: base + IOWIN, val: low });
    r.push(MmioWrite { addr: base, val: reg + 1 });
    r.push(MmioWrite { addr: base + IOWIN, val: high });
    r
}

} // verus!
