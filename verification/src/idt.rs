//! The interrupt descriptor table.
use vstd::prelude::*;
use crate::bytes::{le, push_le};

verus! {

/// Number of vectors.
pub const IDT_ENTRIES: usize = 256;
/// Kernel code selector that every entry uses.
pub const ENTRY_SELECTOR: u16 = 0x0008;
/// Present, 64-bit interrupt gate, DPL 0.
pub const ENTRY_FLAGS: u8 = 0x8E;
/// Limit that `lidt` loads: 256 entries of 16 bytes.
pub const IDT_LIMIT: u16 = 4095;

/// One 16-byte entry.
#[derive(Clone, Copy, PartialEq, Eq, Structural)]
pub struct IdtEntry {
    pub offset_low: u16,
    pub selector: u16,
    pub ist: u8,
    pub flags: u8,
    pub offset_mid: u16,
    pub offset_high: u32,
    pub reserved: u32,
}

/// The entry that sends a vector to `handler`.
pub open spec fn entry_for(handler: u64) -> IdtEntry {
    IdtEntry {
        offset_low: (handler & 0xFFFF) as u16,
        selector: ENTRY_SELECTOR,
        ist: 0,
        flags: ENTRY_FLAGS,
        offset_mid: ((handler >> 16u64) & 0xFFFF) as u16,
        offset_high: (handler >> 32u64) as u32,
        reserved: 0,
    }
}

/// The bytes of an entry as the CPU reads them.
pub open spec fn entry_bytes(e: IdtEntry) -> Seq<u8> {
    le(e.offset_low as nat, 2) + le(e.selector as nat, 2) + le(e.ist as nat, 1) + le(e.flags as nat, 1) + le(
        e.offset_mid as nat,
        2,
    ) + le(e.offset_high as nat, 4) + le(e.reserved as nat, 4)
}

impl IdtEntry {
    /// An entry with every field zero (not present).
    pub fn empty() -> (r: Self)
        ensures
            r == IdtEntry::empty_spec(),
    {
        IdtEntry { offset_low: 0, selector: 0, ist: 0, flags: 0, offset_mid: 0, offset_high: 0, reserved: 0 }
    }

    /// The entry that sends a vector to `handler`: the address split over
    /// three fields, kernel code selector, present interrupt gate.
    pub fn new(handler: u64) -> (r: Self)
        ensures
            r == entry_for(handler),
    {
        IdtEntry {
            offset_low: (handler & 0xFFFF) as u16,
            selector: ENTRY_SELECTOR,
            ist: 0,
            flags: ENTRY_FLAGS,
            offset_mid: ((handler >> 16) & 0xFFFF) as u16,
            offset_high: (handler >> 32) as u32,
            reserved: 0,
        }
    }

    /// The handler address that the entry holds.
    pub open spec fn spec_handler(self) -> u64 {
        (self.offset_low as u64) | ((self.offset_mid as u64) << 16u64) | ((self.offset_high as u64) << 32u64)
    }

    /// The handler address that the entry holds.
    pub fn handler(&self) -> (r: u64)
        ensures
            r == self.spec_handler(),
    {
        (self.offset_low as u64) | ((self.offset_mid as u64) << 16) | ((self.offset_high as u64) << 32)
    }

    /// The 16 bytes of the entry.
    pub fn to_bytes(&self) -> (r: Vec<u8>)
        ensures
            r@ == entry_bytes(*self),
    {
        let mut v: Vec<u8> = Vec::new();
        push_le(&mut v, self.offset_low as u64, 2);
        push_le(&mut v, self.selector as u64, 2);
        push_le(&mut v, self.ist as u64, 1);
        push_le(&mut v, self.flags as u64, 1);
        push_le(&mut v, self.offset_mid as u64, 2);
        push_le(&mut v, self.offset_high as u64, 4);
        push_le(&mut v, self.reserved as u64, 4);
        v
    }
}

/// Law: the entry for `handler` gives back `handler`.
pub proof fn law_entry_round_trip(handler: u64)
    ensures
        entry_for(handler).spec_handler() == handler,
        entry_for(handler).flags == ENTRY_FLAGS,
        entry_for(handler).selector == ENTRY_SELECTOR,
{
    let lo = (handler & 0xFFFF) as u16;
    let mid = ((handler >> 16u64) & 0xFFFF) as u16;
    let hi = (handler >> 32u64) as u32;
    assert((lo as u64) | ((mid as u64) << 16u64) | ((hi as u64) << 32u64) == handler) by (bit_vector)
        requires
            lo == (handler & 0xFFFF) as u16,
            mid == ((handler >> 16u64) & 0xFFFF) as u16,
            hi == (handler >> 32u64) as u32,
    ;
}

/// The table of 256 entries.
pub struct Idt {
    entries: Vec<IdtEntry>,
}

impl View for Idt {
    type V = Seq<IdtEntry>;

    closed spec fn view(&self) -> Seq<IdtEntry> {
        self.entries@
    }
}

impl Idt {
    pub open spec fn wf(&self) -> bool {
        self@.len() == IDT_ENTRIES
    }

    /// A table of empty entries.
    pub fn new() -> (r: Self)
        ensures
            r.wf(),
            forall|v: int| 0 <= v < IDT_ENTRIES ==> #[trigger] r@[v] == IdtEntry::empty_spec(),
    {
        let mut entries: Vec<IdtEntry> = Vec::new();
        let mut i: usize = 0;
        while i < IDT_ENTRIES
            invariant
                i <= IDT_ENTRIES,
                entries@.len() == i,
                forall|v: int| 0 <= v < i ==> #[trigger] entries@[v] == IdtEntry::empty_spec(),
            decreases IDT_ENTRIES - i,
        {
            entries.push(IdtEntry::empty());
            i += 1;
        }
        Idt { entries }
    }

    /// Send `vector` to `handler`; the other entries stay as they are.
    pub fn set_handler(&mut self, vector: u8, handler: u64)
        requires
            old(self).wf(),
        ensures
            final(self).wf(),
            final(self)@ == old(self)@.update(vector as int, entry_for(handler)),
    {
        let e = IdtEntry::new(handler);
        self.entries.set(vector as usize, e);
    }

    /// Point every vector at `spurious`, a handler that only returns: an
    /// interrupt nobody expects then does no harm.
    pub fn init(&mut self, spurious: u64)
        requires
            old(self).wf(),
        ensures
            final(self).wf(),
            forall|v: int| 0 <= v < IDT_ENTRIES ==> #[trigger] final(self)@[v] == entry_for(spurious),
    {
        let mut v: usize = 0;
        while v < IDT_ENTRIES
            invariant
                self.wf(),
                v <= IDT_ENTRIES,
                forall|w: int| 0 <= w < v ==> #[trigger] self@[w] == entry_for(spurious),
            decreases IDT_ENTRIES - v,
        {
            self.set_handler(v as u8, spurious);
            v += 1;
        }
    }

    /// The entry of `vector`.
    pub fn entry(&self, vector: u8) -> (r: IdtEntry)
        requires
            self.wf(),
        ensures
            r == self@[vector as int],
    {
        self.entries[vector as usize]
    }

    /// The 4096 bytes of the table.
    pub fn to_bytes(&self) -> (r: Vec<u8>)
        requires
            self.wf(),
        ensures
            r@.len() == IDT_ENTRIES * 16,
            forall|v: int| 0 <= v < IDT_ENTRIES ==> #[trigger] r@.subrange(v * 16, v * 16 + 16) == entry_bytes(
                self@[v],
            ),
    {
        let mut out: Vec<u8> = Vec::new();
        let mut i: usize = 0;
        while i < IDT_ENTRIES
            invariant
                self.wf(),
                i <= IDT_ENTRIES,
                out@.len() == i * 16,
                forall|v: int| 0 <= v < i ==> #[trigger] out@.subrange(v * 16, v * 16 + 16) == entry_bytes(
                    self@[v],
                ),
            decreases IDT_ENTRIES - i,
        {
            let b = self.entries[i].to_bytes();
            proof {
                lemma_entry_bytes_len(self@[i as int]);
            }
            let ghost before = out@;
            let mut k: usize = 0;
            while k < 16
                invariant
                    k <= 16,
                    b@.len() == 16,
                    out@ == before + b@.subrange(0, k as int),
                decreases 16 - k,
            {
                out.push(b[k]);
                k += 1;
                assert(out@ =~= before + b@.subrange(0, k as int));
            }
            proof {
                assert(b@.subrange(0, 16) =~= b@);
                assert forall|v: int| 0 <= v < i + 1 implies #[trigger] out@.subrange(v * 16, v * 16 + 16)
                    == entry_bytes(self@[v]) by {
                    if v < i {
                        assert(out@.subrange(v * 16, v * 16 + 16) =~= before.subrange(v * 16, v * 16 + 16));
                    } else {
                        assert(out@.subrange(v * 16, v * 16 + 16) =~= b@);
                    }
                }
            }
            i += 1;
        }
        out
    }
}

impl IdtEntry {
    pub open spec fn empty_spec() -> IdtEntry {
        IdtEntry { offset_low: 0, selector: 0, ist: 0, flags: 0, offset_mid: 0, offset_high: 0, reserved: 0 }
    }
}

proof fn lemma_entry_bytes_len(e: IdtEntry)
    ensures
        entry_bytes(e).len() == 16,
{
    crate::bytes::lemma_le_len(e.offset_low as nat, 2);
    crate::bytes::lemma_le_len(e.selector as nat, 2);
    crate::bytes::lemma_le_len(e.ist as nat, 1);
    crate::bytes::lemma_le_len(e.flags as nat, 1);
    crate::bytes::lemma_le_len(e.offset_mid as nat, 2);
    crate::bytes::lemma_le_len(e.offset_high as nat, 4);
    crate::bytes::lemma_le_len(e.reserved as nat, 4);
}

/// Law: setting a vector's handler sends that vector to it and leaves every
/// other vector where it went.
pub proof fn law_set_handler_local(t: Seq<IdtEntry>, vector: u8, handler: u64, other: int)
    requires
        t.len() == IDT_ENTRIES,
        0 <= other < IDT_ENTRIES,
        other != vector as int,
    ensures
        t.update(vector as int, entry_for(handler))[vector as int].spec_handler() == handler,
        t.update(vector as int, entry_for(handler))[other] == t[other],
{
    law_entry_round_trip(handler);
}

} // verus!
