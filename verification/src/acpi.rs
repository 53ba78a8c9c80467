//! ACPI tables: the XSDT, the MADT (interrupt controllers) and the MCFG
//! (PCI configuration space).
use vstd::prelude::*;
use crate::bytes::{u32_at, u64_at, read_u32, read_u64};

verus! {

/// Size of the common table header.
pub const HEADER_LEN: usize = 36;
/// Offset of the first MADT entry.
pub const MADT_ENTRIES: usize = 44;
/// Offset of the base address of the first configuration window in the MCFG.
pub const MCFG_BASE: usize = 44;

/// The table addresses that an XSDT of `t.len()` bytes lists.
pub open spec fn spec_xsdt_entries(t: Seq<u8>) -> Seq<u64> {
    Seq::new(((t.len() - HEADER_LEN) / 8) as nat, |i: int| u64_at(t, HEADER_LEN + 8 * i) as u64)
}

/// The addresses of the tables that the XSDT `t` lists (`t` holds the
/// whole table, header included).
pub fn xsdt_entries(t: &[u8]) -> (r: Vec<u64>)
    requires
        t@.len() >= HEADER_LEN,
    ensures
        r@ == spec_xsdt_entries(t@),
{
    let n = t.len();
    let count = (n - HEADER_LEN) / 8;
    let mut r: Vec<u64> = Vec::new();
    let mut i: usize = 0;
    while i < count
        invariant
            n == t@.len(),
            n >= HEADER_LEN,
            count == (t@.len() - HEADER_LEN) / 8,
            i <= count,
            r@ == spec_xsdt_entries(t@).subrange(0, i as int),
        decreases count - i,
    {
        assert(HEADER_LEN + 8 * i + 8 <= n) by (nonlinear_arith)
            requires
                i < count,
                count == (n - HEADER_LEN) / 8,
                n >= HEADER_LEN,
        ;
        let a = read_u64(t, HEADER_LEN + 8 * i);
        r.push(a);
        i += 1;
        assert(r@ =~= spec_xsdt_entries(t@).subrange(0, i as int));
    }
    assert(r@ =~= spec_xsdt_entries(t@));
    r
}

/// The kinds of table the kernel reads.
#[derive(Clone, Copy, PartialEq, Eq, Structural, Debug)]
pub enum TableKind {
    /// "APIC": the MADT.
    Madt,
    /// "MCFG": PCI express configuration.
    Mcfg,
    Other,
}

/// The kind of a table from its four signature bytes.
pub fn table_kind(sig: [u8; 4]) -> (r: TableKind)
    ensures
        r == (if sig@ == seq![65u8, 80u8, 73u8, 67u8] {
            TableKind::Madt
        } else if sig@ == seq![77u8, 67u8, 70u8, 71u8] {
            TableKind::Mcfg
        } else {
            TableKind::Other
        }),
{
    if sig[0] == 65 && sig[1] == 80 && sig[2] == 73 && sig[3] == 67 {
        assert(sig@ =~= seq![65u8, 80u8, 73u8, 67u8]);
        TableKind::Madt
    } else if sig[0] == 77 && sig[1] == 67 && sig[2] == 70 && sig[3] == 71 {
        assert(sig@ =~= seq![77u8, 67u8, 70u8, 71u8]);
        TableKind::Mcfg
    } else {
        proof {
            if sig@ == seq![65u8, 80u8, 73u8, 67u8] {
                assert(sig@[0] == 65u8);
            }
            if sig@ == seq![77u8, 67u8, 70u8, 71u8] {
                assert(sig@[0] == 77u8);
            }
        }
        TableKind::Other
    }
}

/// Base of the PCI express configuration space that the MCFG `t` names.
pub fn mcfg_base(t: &[u8]) -> (r: u64)
    requires
        t@.len() >= MCFG_BASE + 8,
    ensures
        r == u64_at(t@, MCFG_BASE as int),
{
    read_u64(t, MCFG_BASE)
}

/// One entry of the MADT.
#[derive(Clone, Copy, PartialEq, Eq, Structural, Debug)]
pub enum MadtEntry {
    /// A processor's local APIC.
    LocalApic { apic_id: u8, flags: u32 },
    /// An I/O APIC and the first interrupt it serves.
    IoApic { id: u8, address: u32, gsi_base: u32 },
    /// An interrupt source override: ISA line `source` arrives on `gsi`.
    Override { source: u8, gsi: u32 },
    /// Any other entry, or one too short for its fields.
    Other { typ: u8 },
}

/// The entry at `off` of the table `t`.
pub open spec fn entry_at(t: Seq<u8>, off: int) -> MadtEntry {
    let typ = t[off];
    if typ == 0 && off + 8 <= t.len() {
        MadtEntry::LocalApic { apic_id: t[off + 3], flags: u32_at(t, off + 4) as u32 }
    } else if typ == 1 && off + 12 <= t.len() {
        MadtEntry::IoApic { id: t[off + 2], address: u32_at(t, off + 4) as u32, gsi_base: u32_at(t, off + 8) as u32 }
    } else if typ == 2 && off + 8 <= t.len() {
        MadtEntry::Override { source: t[off + 3], gsi: u32_at(t, off + 4) as u32 }
    } else {
        MadtEntry::Other { typ }
    }
}

/// The entries from `off` on: each gives its length in its second byte.
/// The walk ends at the end of the table, or after an entry of length
/// zero (from which it would never move on).
pub open spec fn entries_from(t: Seq<u8>, off: int) -> Seq<MadtEntry>
    decreases (if off < t.len() { t.len() - off } else { 0 }),
{
    if off < 0 || off + 2 > t.len() {
        Seq::empty()
    } else if t[off + 1] == 0 {
        seq![entry_at(t, off)]
    } else {
        seq![entry_at(t, off)] + entries_from(t, off + t[off + 1])
    }
}

/// The I/O APIC that serves interrupts from 0: the last one listed.
pub open spec fn spec_ioapic_base(es: Seq<MadtEntry>) -> Option<u32>
    decreases es.len(),
{
    if es.len() == 0 {
        None
    } else {
        match es.last() {
            MadtEntry::IoApic { address, gsi_base, .. } if gsi_base == 0 => Some(address),
            _ => spec_ioapic_base(es.drop_last()),
        }
    }
}

/// The interrupt that the timer (ISA line 0) arrives on, from the last
/// override of line 0, truncated to a byte.
pub open spec fn spec_timer_gsi(es: Seq<MadtEntry>) -> Option<u8>
    decreases es.len(),
{
    if es.len() == 0 {
        None
    } else {
        match es.last() {
            MadtEntry::Override { source, gsi } if source == 0 => Some(gsi as u8),
            _ => spec_timer_gsi(es.drop_last()),
        }
    }
}

/// What the kernel learns from the MADT.
pub struct MadtInfo {
    pub local_apic_address: u32,
    pub entries: Vec<MadtEntry>,
    /// Base of the I/O APIC that serves interrupt 0, if any.
    pub ioapic_base: Option<u32>,
    /// Interrupt of the timer, if an override moves it.
    pub timer_gsi: Option<u8>,
}

/// Decode the entry at `off`.
fn read_entry(t: &[u8], off: usize) -> (r: MadtEntry)
    requires
        off + 2 <= t@.len(),
    ensures
        r == entry_at(t@, off as int),
{
    let n = t.len();
    let typ = t[off];
    if typ == 0 && n - off >= 8 {
        MadtEntry::LocalApic { apic_id: t[off + 3], flags: read_u32(t, off + 4) }
    } else if typ == 1 && n - off >= 12 {
        MadtEntry::IoApic { id: t[off + 2], address: read_u32(t, off + 4), gsi_base: read_u32(t, off + 8) }
    } else if typ == 2 && n - off >= 8 {
        MadtEntry::Override { source: t[off + 3], gsi: read_u32(t, off + 4) }
    } else {
        MadtEntry::Other { typ }
    }
}

/// Read the MADT `t` (the whole table): the local APIC address, its
/// entries, the I/O APIC that serves interrupt 0 and the timer's interrupt.
pub fn parse_madt(t: &[u8]) -> (r: MadtInfo)
    requires
        t@.len() >= MADT_ENTRIES,
    ensures
        r.local_apic_address == u32_at(t@, HEADER_LEN as int),
        r.entries@ == entries_from(t@, MADT_ENTRIES as int),
        r.ioapic_base == spec_ioapic_base(r.entries@),
        r.timer_gsi == spec_timer_gsi(r.entries@),
{
    let n = t.len();
    let local_apic_address = read_u32(t, HEADER_LEN);
    let mut entries: Vec<MadtEntry> = Vec::new();
    let mut ioapic_base: Option<u32> = None;
    let mut timer_gsi: Option<u8> = None;
    let mut off: usize = MADT_ENTRIES;
    while off < n && n - off >= 2
        invariant
            n == t@.len(),
            local_apic_address == u32_at(t@, HEADER_LEN as int),
            entries@ + entries_from(t@, off as int) == entries_from(t@, MADT_ENTRIES as int),
            ioapic_base == spec_ioapic_base(entries@),
            timer_gsi == spec_timer_gsi(entries@),
        decreases n - off,
    {
        let e = read_entry(t, off);
        let len = t[off + 1];
        let ghost before = entries@;
        entries.push(e);
        proof {
            assert(entries@.drop_last() =~= before);
        }
        match e {
            MadtEntry::IoApic { address, gsi_base, .. } => {
                if gsi_base == 0 {
                    ioapic_base = Some(address);
                }
            },
            MadtEntry::Override { source, gsi } => {
                if source == 0 {
                    timer_gsi = Some(#[verifier::truncate] (gsi as u8));
                }
            },
            _ => {},
        }
        if len == 0 || n - off < len as usize {
            proof {
                if len != 0 {
                    assert(entries_from(t@, off + len) =~= Seq::<MadtEntry>::empty());
                }
                assert(entries@ + Seq::<MadtEntry>::empty() =~= before + entries_from(t@, off as int));
            }
            return MadtInfo { local_apic_address, entries, ioapic_base, timer_gsi };
        }
        proof {
            assert(entries@ + entries_from(t@, off + len) =~= before + entries_from(t@, off as int));
        }
        off = off + len as usize;
    }
    proof {
        assert(entries@ + Seq::<MadtEntry>::empty() =~= entries@);
    }
    MadtInfo { local_apic_address, entries, ioapic_base, timer_gsi }
}

} // verus!
