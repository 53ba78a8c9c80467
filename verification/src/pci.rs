//! PCI express configuration space: finding the xHCI controller and taking
//! it over from the firmware.
use vstd::prelude::*;

verus! {

pub const PCI_BUSES: u64 = 256;
pub const PCI_DEVICES: u64 = 32;
pub const PCI_FUNCTIONS: u64 = 8;
/// Bytes of configuration space the scan may reach above the base.
pub const PCI_SPACE: u64 = 0x1000_0000;

/// Offset of the configuration space of a function from the base.
pub open spec fn spec_config_offset(bus: u64, dev: u64, fun: u64) -> u64 {
    (bus << 20u64) | (dev << 15u64) | (fun << 12u64)
}

/// Address of the configuration space of `bus:dev.fun`.
pub fn config_address(base: u64, bus: u64, dev: u64, fun: u64) -> (r: u64)
    requires
        bus < PCI_BUSES,
        dev < PCI_DEVICES,
        fun < PCI_FUNCTIONS,
        base + PCI_SPACE <= u64::MAX,
    ensures
        r == base + spec_config_offset(bus, dev, fun),
        r < base + PCI_SPACE,
{
    proof {
        lemma_pci_bits(bus, dev, fun, 0, 0);
    }
    base + ((bus << 20) | (dev << 15) | (fun << 12))
}

proof fn lemma_pci_bits(bus: u64, dev: u64, fun: u64, hcc: u32, cap: u32)
    by (bit_vector)
    ensures
        bus < 256 && dev < 32 && fun < 8 ==> (bus << 20u64) | (dev << 15u64) | (fun << 12u64) < 0x1000_0000,
        (hcc >> 16u32) & 0xFFFF <= 0xFFFF,
        (cap >> 8u32) & 0xFF <= 0xFF,
{
}

/// A USB xHCI controller: class 0x0C, subclass 0x03, interface 0x30.
pub open spec fn spec_is_xhci(class: u8, subclass: u8, progif: u8) -> bool {
    class == 0x0C && subclass == 0x03 && progif == 0x30
}

pub fn is_xhci(class: u8, subclass: u8, progif: u8) -> (r: bool)
    ensures
        r == spec_is_xhci(class, subclass, progif),
{
    class == 0x0C && subclass == 0x03 && progif == 0x30
}

/// The 64-bit memory base from BAR0 and BAR1, flag bits cleared.
pub fn bar0(lo: u32, hi: u32) -> (r: u64)
    ensures
        r == (((hi as u64) << 32u64) | (lo as u64)) & !0xFu64,
{
    (((hi as u64) << 32) | (lo as u64)) & !0xF
}

/// What the scan reads from a function's header.
#[derive(Clone, Copy, PartialEq, Eq, Structural, Debug)]
pub struct PciHeader {
    pub vendor: u16,
    pub class: u8,
    pub subclass: u8,
    pub progif: u8,
    pub bar0_lo: u32,
    pub bar0_hi: u32,
}

/// What the scan does next.
#[derive(Clone, Copy, PartialEq, Eq, Structural, Debug)]
pub enum ScanStep {
    /// Read the header of this function next.
    Read { bus: u64, dev: u64, fun: u64 },
    /// The controller: its bus and memory base.
    Found { bus: u64, bar0: u64 },
    /// Every function was read; there is none.
    NotFound,
}

/// Position of a function in scan order.
pub open spec fn scan_index(bus: u64, dev: u64, fun: u64) -> int {
    (bus * 32 + dev) * 8 + fun
}

/// The scan of every bus, device and function, in that order.
pub struct PciScan {
    bus: u64,
    dev: u64,
    fun: u64,
}

impl PciScan {
    pub closed spec fn position(&self) -> (u64, u64, u64) {
        (self.bus, self.dev, self.fun)
    }

    pub open spec fn wf(&self) -> bool {
        self.position().0 < PCI_BUSES && self.position().1 < PCI_DEVICES && self.position().2 < PCI_FUNCTIONS
    }

    /// Start at 0:0.0.
    pub fn new() -> (r: (Self, ScanStep))
        ensures
            r.0.wf(),
            r.0.position() == (0u64, 0u64, 0u64),
            r.1 == (ScanStep::Read { bus: 0, dev: 0, fun: 0 }),
    {
        (PciScan { bus: 0, dev: 0, fun: 0 }, ScanStep::Read { bus: 0, dev: 0, fun: 0 })
    }

    /// Take the header of the function at the current position.  An xHCI
    /// controller ends the scan; an absent function (vendor 0xFFFF) or any
    /// other moves to the next function, and past the last one the scan
    /// ends with nothing found.
    pub fn step(&mut self, h: PciHeader) -> (r: ScanStep)
        requires
            old(self).wf(),
        ensures
            final(self).wf(),
            h.vendor != 0xFFFF && spec_is_xhci(h.class, h.subclass, h.progif) ==> r == (ScanStep::Found {
                bus: old(self).position().0,
                bar0: (((h.bar0_hi as u64) << 32u64) | (h.bar0_lo as u64)) & !0xFu64,
            }),
            !(h.vendor != 0xFFFF && spec_is_xhci(h.class, h.subclass, h.progif)) ==> {
                let (b, d, f) = old(self).position();
                if b == PCI_BUSES - 1 && d == PCI_DEVICES - 1 && f == PCI_FUNCTIONS - 1 {
                    r == ScanStep::NotFound
                } else {
                    let (b2, d2, f2) = final(self).position();
                    &&& scan_index(b2, d2, f2) == scan_index(b, d, f) + 1
                    &&& r == (ScanStep::Read { bus: b2, dev: d2, fun: f2 })
                }
            },
    {
        if h.vendor != 0xFFFF && is_xhci(h.class, h.subclass, h.progif) {
            return ScanStep::Found { bus: self.bus, bar0: bar0(h.bar0_lo, h.bar0_hi) };
        }
        if self.fun + 1 < PCI_FUNCTIONS {
            self.fun = self.fun + 1;
        } else if self.dev + 1 < PCI_DEVICES {
            self.fun = 0;
            self.dev = self.dev + 1;
        } else if self.bus + 1 < PCI_BUSES {
            self.fun = 0;
            self.dev = 0;
            self.bus = self.bus + 1;
        } else {
            return ScanStep::NotFound;
        }
        ScanStep::Read { bus: self.bus, dev: self.dev, fun: self.fun }
    }
}

// ---------------------------------------------------------------------------
// Taking the controller over from the firmware
// ---------------------------------------------------------------------------

/// Capability ID of USB Legacy Support.
pub const CAP_LEGACY: u32 = 1;
/// HC OS Owned semaphore.
pub const OS_OWNED: u32 = 1 << 24;
/// HC BIOS Owned semaphore.
pub const BIOS_OWNED: u32 = 1 << 16;
/// SMI enable bits of USBLEGCTLSTS.
pub const SMI_ENABLES: u32 = 0x1F_FF00;
/// Capabilities walked at most.
pub const CAP_WALK_LIMIT: u32 = 256;

/// Offset of the first extended capability: HCCPARAMS1 bits 16-31, in
/// dwords.
pub fn first_ext_cap(hcc_params1: u32) -> (r: u64)
    ensures
        r == ((hcc_params1 >> 16u32) & 0xFFFF) as u64 * 4,
{
    ((hcc_params1 >> 16) & 0xFFFF) as u64 * 4
}

/// What the walk over the extended capabilities does next.
#[derive(Clone, Copy, PartialEq, Eq, Structural, Debug)]
pub enum CapStep {
    /// Read the capability at this offset next.
    Read { off: u64 },
    /// USB Legacy Support is at this offset.
    Legacy { off: u64 },
    /// The list ended without it.
    Done,
}

/// The walk over the extended capability list, at most 256 entries.
pub struct CapWalk {
    off: u64,
    left: u32,
}

impl CapWalk {
    pub closed spec fn spec_off(&self) -> u64 {
        self.off
    }

    pub closed spec fn spec_left(&self) -> u32 {
        self.left
    }

    pub open spec fn wf(&self) -> bool {
        self.spec_left() <= CAP_WALK_LIMIT && self.spec_off() <= 0x4_0000 * (CAP_WALK_LIMIT - self.spec_left() + 1)
    }

    /// Start at the first capability, if there is one.
    pub fn new(hcc_params1: u32) -> (r: (Self, CapStep))
        ensures
            r.0.wf(),
            r.0.spec_left() == CAP_WALK_LIMIT - 1,
            r.0.spec_off() == ((hcc_params1 >> 16u32) & 0xFFFF) as u64 * 4,
            r.1 == (if r.0.spec_off() == 0 { CapStep::Done } else { CapStep::Read { off: r.0.spec_off() } }),
    {
        let off = first_ext_cap(hcc_params1);
        proof {
            lemma_pci_bits(0, 0, 0, hcc_params1, 0);
        }
        let w = CapWalk { off, left: CAP_WALK_LIMIT - 1 };
        if off == 0 {
            (w, CapStep::Done)
        } else {
            (w, CapStep::Read { off })
        }
    }

    /// Take the capability word at the current offset: ID 1 is the one
    /// sought; a next pointer of 0, or a spent budget, ends the list; else
    /// move by the next pointer (in dwords).
    pub fn step(&mut self, cap: u32) -> (r: CapStep)
        requires
            old(self).wf(),
        ensures
            final(self).wf(),
            cap & 0xFF == CAP_LEGACY ==> r == (CapStep::Legacy { off: old(self).spec_off() }),
            cap & 0xFF != CAP_LEGACY && ((cap >> 8u32) & 0xFF == 0 || old(self).spec_left() == 0) ==> r == CapStep::Done,
            cap & 0xFF != CAP_LEGACY && (cap >> 8u32) & 0xFF != 0 && old(self).spec_left() > 0 ==> {
                &&& final(self).spec_off() == old(self).spec_off() + ((cap >> 8u32) & 0xFF) * 4
                &&& final(self).spec_left() == old(self).spec_left() - 1
                &&& r == (CapStep::Read { off: final(self).spec_off() })
            },
    {
        if cap & 0xFF == CAP_LEGACY {
            return CapStep::Legacy { off: self.off };
        }
        let next = (cap >> 8) & 0xFF;
        if next == 0 || self.left == 0 {
            return CapStep::Done;
        }
        proof {
            lemma_pci_bits(0, 0, 0, 0, cap);
        }
        self.off = self.off + next as u64 * 4;
        self.left = self.left - 1;
        CapStep::Read { off: self.off }
    }
}

/// USBLEGSUP with the OS Owned semaphore set.
pub fn claim_ownership(legsup: u32) -> (r: u32)
    ensures
        r == legsup | OS_OWNED,
{
    legsup | OS_OWNED
}

/// The firmware still holds the controller.
pub fn bios_owned(legsup: u32) -> (r: bool)
    ensures
        r == (legsup & BIOS_OWNED != 0),
{
    legsup & BIOS_OWNED != 0
}

/// USBLEGCTLSTS with every SMI enable cleared.
pub fn smi_disabled(ctlsts: u32) -> (r: u32)
    ensures
        r == ctlsts & !SMI_ENABLES,
{
    ctlsts & !SMI_ENABLES
}

} // verus!
