//! The task-state segment and the global descriptor table.
//!
//! Layout of the table: 0x00 null, 0x08 kernel code, 0x10 kernel data,
//! 0x18 user data (DPL 3), 0x20 user code (DPL 3), 0x28 and 0x30 the
//! 16-byte TSS descriptor.
use vstd::prelude::*;
use crate::bytes::{le, push_le};

verus! {

/// Size in bytes of the task-state segment.
pub const TSS_SIZE: u64 = 104;

pub const KERNEL_CODE_SELECTOR: u16 = 0x08;
pub const KERNEL_DATA_SELECTOR: u16 = 0x10;
pub const USER_DATA_SELECTOR: u16 = 0x18;
pub const USER_CODE_SELECTOR: u16 = 0x20;
pub const TSS_SELECTOR: u16 = 0x28;

/// Kernel code: DPL 0, long mode.
pub const GDT_KERNEL_CODE: u64 = 0x00AF9A000000FFFF;
/// Kernel data: DPL 0.
pub const GDT_KERNEL_DATA: u64 = 0x00CF92000000FFFF;
/// User data: DPL 3.
pub const GDT_USER_DATA: u64 = 0x00CFF2000000FFFF;
/// User code: DPL 3, long mode.
pub const GDT_USER_CODE: u64 = 0x00AFFA000000FFFF;
/// Access byte of an available 64-bit TSS: present, type 9.
pub const TSS_ACCESS: u64 = 0x89;
/// Limit of the table that `lgdt` loads: entries 0 to 6.
pub const GDT_LIMIT: u16 = 55;

/// The task-state segment.
pub struct Tss {
    pub reserved0: u32,
    /// Kernel stack that the CPU switches to on a trap from ring 3.
    pub rsp0: u64,
    pub rsp1: u64,
    pub rsp2: u64,
    pub reserved1: u64,
    /// Interrupt stacks.
    pub ist: [u64; 7],
    pub reserved2: u64,
    pub reserved3: u16,
    pub iomap_base: u16,
}

/// The bytes of a TSS as the CPU reads them.
pub open spec fn tss_bytes(t: Tss) -> Seq<u8> {
    le(t.reserved0 as nat, 4) + le(t.rsp0 as nat, 8) + le(t.rsp1 as nat, 8) + le(t.rsp2 as nat, 8) + le(
        t.reserved1 as nat,
        8,
    ) + le(t.ist@[0] as nat, 8) + le(t.ist@[1] as nat, 8) + le(t.ist@[2] as nat, 8) + le(t.ist@[3] as nat, 8)
        + le(t.ist@[4] as nat, 8) + le(t.ist@[5] as nat, 8) + le(t.ist@[6] as nat, 8) + le(
        t.reserved2 as nat,
        8,
    ) + le(t.reserved3 as nat, 2) + le(t.iomap_base as nat, 2)
}

impl Tss {
    pub open spec fn is_zero(&self) -> bool {
        &&& self.reserved0 == 0
        &&& self.rsp0 == 0
        &&& self.rsp1 == 0
        &&& self.rsp2 == 0
        &&& self.reserved1 == 0
        &&& forall|i: int| 0 <= i < 7 ==> #[trigger] self.ist@[i] == 0
        &&& self.reserved2 == 0
        &&& self.reserved3 == 0
        &&& self.iomap_base == 0
    }

    /// A TSS with every field zero.
    pub fn new() -> (r: Self)
        ensures
            r.is_zero(),
    {
        Tss {
            reserved0: 0,
            rsp0: 0,
            rsp1: 0,
            rsp2: 0,
            reserved1: 0,
            ist: [0u64; 7],
            reserved2: 0,
            reserved3: 0,
            iomap_base: 0,
        }
    }

    /// The bytes of the segment, in the order the CPU reads them.
    pub fn to_bytes(&self) -> (r: Vec<u8>)
        ensures
            r@ == tss_bytes(*self),
            r@.len() == TSS_SIZE,
    {
        let mut v: Vec<u8> = Vec::new();
        push_le(&mut v, self.reserved0 as u64, 4);
        push_le(&mut v, self.rsp0, 8);
        push_le(&mut v, self.rsp1, 8);
        push_le(&mut v, self.rsp2, 8);
        push_le(&mut v, self.reserved1, 8);
        push_le(&mut v, self.ist[0], 8);
        push_le(&mut v, self.ist[1], 8);
        push_le(&mut v, self.ist[2], 8);
        push_le(&mut v, self.ist[3], 8);
        push_le(&mut v, self.ist[4], 8);
        push_le(&mut v, self.ist[5], 8);
        push_le(&mut v, self.ist[6], 8);
        push_le(&mut v, self.reserved2, 8);
        push_le(&mut v, self.reserved3 as u64, 2);
        push_le(&mut v, self.iomap_base as u64, 2);
        proof {
            crate::bytes::lemma_le_len(self.reserved0 as nat, 4);
            crate::bytes::lemma_le_len(self.rsp0 as nat, 8);
            crate::bytes::lemma_le_len(self.rsp1 as nat, 8);
            crate::bytes::lemma_le_len(self.rsp2 as nat, 8);
            crate::bytes::lemma_le_len(self.reserved1 as nat, 8);
            crate::bytes::lemma_le_len(self.ist@[0] as nat, 8);
            crate::bytes::lemma_le_len(self.ist@[1] as nat, 8);
            crate::bytes::lemma_le_len(self.ist@[2] as nat, 8);
            crate::bytes::lemma_le_len(self.ist@[3] as nat, 8);
            crate::bytes::lemma_le_len(self.ist@[4] as nat, 8);
            crate::bytes::lemma_le_len(self.ist@[5] as nat, 8);
            crate::bytes::lemma_le_len(self.ist@[6] as nat, 8);
            crate::bytes::lemma_le_len(self.reserved2 as nat, 8);
            crate::bytes::lemma_le_len(self.reserved3 as nat, 2);
            crate::bytes::lemma_le_len(self.iomap_base as nat, 2);
        }
        v
    }
}

/// One 8-byte GDT entry, field by field.
#[derive(Clone, Copy)]
pub struct GdtEntry {
    pub limit_low: u16,
    pub base_low: u16,
    pub base_mid: u8,
    pub access: u8,
    pub flags_limit: u8,
    pub base_high: u8,
}

impl GdtEntry {
    /// The entry as the 64-bit word stored in the table.
    pub open spec fn word(self) -> u64 {
        (self.limit_low as u64) | ((self.base_low as u64) << 16u64) | ((self.base_mid as u64) << 32u64) | ((
        self.access as u64) << 40u64) | ((self.flags_limit as u64) << 48u64) | ((self.base_high as u64)
            << 56u64)
    }

    /// Split a table word into its fields.
    pub fn from_word(w: u64) -> (r: Self)
        ensures
            r.word() == w,
            r.limit_low == w & 0xffff,
            r.base_low == (w >> 16u64) & 0xffff,
            r.base_mid == (w >> 32u64) & 0xff,
            r.access == (w >> 40u64) & 0xff,
            r.flags_limit == (w >> 48u64) & 0xff,
            r.base_high == w >> 56u64,
    {
        let l0 = (w & 0xffff) as u16;
        let b0 = ((w >> 16) & 0xffff) as u16;
        let b1 = ((w >> 32) & 0xff) as u8;
        let ac = ((w >> 40) & 0xff) as u8;
        let fl = ((w >> 48) & 0xff) as u8;
        let b2 = (w >> 56) as u8;
        proof {
            lemma_word_fields(w, l0, b0, b1, ac, fl, b2);
        }
        let r = GdtEntry { limit_low: l0, base_low: b0, base_mid: b1, access: ac, flags_limit: fl, base_high: b2 };
        r
    }

    /// The table word of the entry.
    pub fn to_word(&self) -> (r: u64)
        ensures
            r == self.word(),
    {
        (self.limit_low as u64) | ((self.base_low as u64) << 16) | ((self.base_mid as u64) << 32) | ((
        self.access as u64) << 40) | ((self.flags_limit as u64) << 48) | ((self.base_high as u64) << 56)
    }
}

/// The 16-byte descriptor of a TSS: an 8-byte entry and the upper half of
/// the base.
#[derive(Clone, Copy)]
pub struct TssDescriptor {
    pub low: GdtEntry,
    pub base_upper: u32,
    pub reserved: u32,
}

/// The low word of the descriptor of a TSS at `base` with `limit`.
pub open spec fn tss_low_word(base: u64, limit: u64) -> u64 {
    (limit & 0xFFFF) | ((base & 0xFFFFFF) << 16u64) | (TSS_ACCESS << 40u64) | (((limit >> 16u64) & 0xF)
        << 48u64) | (((base >> 24u64) & 0xFF) << 56u64)
}

/// The high word: bits 32 to 63 of the base.
pub open spec fn tss_high_word(base: u64) -> u64 {
    (base >> 32u64) & 0xFFFFFFFF
}

/// Base address that a TSS descriptor holds.
pub open spec fn descriptor_base(low: u64, high: u64) -> u64 {
    ((low >> 16u64) & 0xFFFFFF) | (((low >> 56u64) & 0xFF) << 24u64) | ((high & 0xFFFFFFFF) << 32u64)
}

/// Limit that a descriptor holds (20 bits).
pub open spec fn descriptor_limit(low: u64) -> u64 {
    (low & 0xFFFF) | (((low >> 48u64) & 0xF) << 16u64)
}

impl TssDescriptor {
    /// The descriptor of a TSS at `base` with `limit`.
    pub fn new(base: u64, limit: u64) -> (r: Self)
        ensures
            r.low.word() == tss_low_word(base, limit),
            r.base_upper as u64 == tss_high_word(base),
            r.reserved == 0,
    {
        let low = GdtEntry::from_word(
            (limit & 0xFFFF) | ((base & 0xFFFFFF) << 16) | (TSS_ACCESS << 40) | (((limit >> 16) & 0xF) << 48)
                | (((base >> 24) & 0xFF) << 56),
        );
        proof {
            lemma_descriptor_bits(base, limit, 0);
        }
        TssDescriptor { low, base_upper: (base >> 32) as u32, reserved: 0 }
    }

    /// The two table words of the descriptor.
    pub fn words(&self) -> (r: (u64, u64))
        ensures
            r.0 == self.low.word(),
            r.1 == (self.base_upper as u64) | ((self.reserved as u64) << 32u64),
    {
        (self.low.to_word(), (self.base_upper as u64) | ((self.reserved as u64) << 32))
    }
}

/// Law: the descriptor of a TSS gives back its base, its limit (20 bits)
/// and the access byte of an available 64-bit TSS.
pub proof fn law_tss_descriptor_decodes(base: u64, limit: u64)
    requires
        limit < 0x100000,
    ensures
        descriptor_base(tss_low_word(base, limit), tss_high_word(base)) == base,
        descriptor_limit(tss_low_word(base, limit)) == limit,
        (tss_low_word(base, limit) >> 40u64) & 0xFF == TSS_ACCESS,
{
    lemma_descriptor_bits(base, limit, 0);
}

/// The bit facts behind TSS descriptors.
proof fn lemma_descriptor_bits(base: u64, limit: u64, upper: u32)
    by (bit_vector)
    ensures
        ((base >> 32u64) as u32) as u64 == (base >> 32u64) & 0xFFFFFFFF,
        descriptor_base(tss_low_word(base, limit), tss_high_word(base)) == base,
        limit < 0x100000 ==> descriptor_limit(tss_low_word(base, limit)) == limit,
        (tss_low_word(base, limit) >> 40u64) & 0xFF == TSS_ACCESS,
        (upper as u64) | ((0u32 as u64) << 32u64) == upper as u64,
{
}

/// Splitting a table word into its fields and joining them gives it back.
proof fn lemma_word_fields(w: u64, l0: u16, b0: u16, b1: u8, ac: u8, fl: u8, b2: u8)
    by (bit_vector)
    requires
        l0 == (w & 0xffff) as u16,
        b0 == ((w >> 16u64) & 0xffff) as u16,
        b1 == ((w >> 32u64) & 0xff) as u8,
        ac == ((w >> 40u64) & 0xff) as u8,
        fl == ((w >> 48u64) & 0xff) as u8,
        b2 == (w >> 56u64) as u8,
    ensures
        (l0 as u64) | ((b0 as u64) << 16u64) | ((b1 as u64) << 32u64) | ((ac as u64) << 40u64) | ((fl as u64)
            << 48u64) | ((b2 as u64) << 56u64) == w,
        l0 as u64 == w & 0xffff,
        b0 as u64 == (w >> 16u64) & 0xffff,
        b1 as u64 == (w >> 32u64) & 0xff,
        ac as u64 == (w >> 40u64) & 0xff,
        fl as u64 == (w >> 48u64) & 0xff,
        b2 as u64 == w >> 56u64,
{
}

/// The GDT: a page of 512 entries.
pub struct GdtPage {
    pub entries: [u64; 512],
}

/// The table before the TSS descriptor is filled in.
pub open spec fn initial_gdt(i: int) -> u64 {
    if i == 1 {
        GDT_KERNEL_CODE
    } else if i == 2 {
        GDT_KERNEL_DATA
    } else if i == 3 {
        GDT_USER_DATA
    } else if i == 4 {
        GDT_USER_CODE
    } else {
        0
    }
}

/// The four code and data descriptors, every other entry zero.
pub fn build_gdt() -> (r: [u64; 512])
    ensures
        forall|i: int| 0 <= i < 512 ==> #[trigger] r@[i] == initial_gdt(i),
{
    let mut g = [0u64; 512];
    g[1] = GDT_KERNEL_CODE;
    g[2] = GDT_KERNEL_DATA;
    g[3] = GDT_USER_DATA;
    g[4] = GDT_USER_CODE;
    g
}

impl GdtPage {
    /// The table with the code and data descriptors.
    pub fn new() -> (r: Self)
        ensures
            forall|i: int| 0 <= i < 512 ==> #[trigger] r.entries@[i] == initial_gdt(i),
    {
        GdtPage { entries: build_gdt() }
    }

    /// The user-data descriptor as it stands now; a guard compares it with
    /// `GDT_USER_DATA` to notice a corrupted table.
    pub fn gdt_user_data(&self) -> (r: u64)
        ensures
            r == self.entries@[(USER_DATA_SELECTOR / 8) as int],
    {
        self.entries[3]
    }
}

/// What `lgdt` loads: the limit and the base of the table.
#[derive(Clone, Copy)]
pub struct GdtPtr {
    pub limit: u16,
    pub base: u64,
}

impl GdtPtr {
    /// The 10 bytes of the pointer.
    pub fn to_bytes(&self) -> (r: Vec<u8>)
        ensures
            r@ == le(self.limit as nat, 2) + le(self.base as nat, 8),
    {
        let mut v: Vec<u8> = Vec::new();
        push_le(&mut v, self.limit as u64, 2);
        push_le(&mut v, self.base, 8);
        v
    }
}

/// Point the TSS at the kernel stack, close its I/O bitmap, and write its
/// descriptor (base `tss_base`) to entries 5 and 6.  Returns the pointer
/// that `lgdt` loads for a table at `gdt_base`; the caller then loads the
/// task register with `TSS_SELECTOR`.
pub fn init(tss: &mut Tss, gdt: &mut GdtPage, kernel_stack: u64, tss_base: u64, gdt_base: u64) -> (r: GdtPtr)
    ensures
        final(tss).rsp0 == kernel_stack,
        final(tss).iomap_base == TSS_SIZE,
        final(tss).reserved0 == old(tss).reserved0,
        final(tss).rsp1 == old(tss).rsp1,
        final(tss).rsp2 == old(tss).rsp2,
        final(tss).reserved1 == old(tss).reserved1,
        final(tss).ist == old(tss).ist,
        final(tss).reserved2 == old(tss).reserved2,
        final(tss).reserved3 == old(tss).reserved3,
        final(gdt).entries@ == old(gdt).entries@.update(5, tss_low_word(tss_base, (TSS_SIZE - 1) as u64)).update(
            6,
            tss_high_word(tss_base),
        ),
        r.limit == GDT_LIMIT,
        r.base == gdt_base,
{
    tss.rsp0 = kernel_stack;
    tss.iomap_base = TSS_SIZE as u16;
    let d = TssDescriptor::new(tss_base, TSS_SIZE - 1);
    let (lo, hi) = d.words();
    proof {
        lemma_descriptor_bits(tss_base, (TSS_SIZE - 1) as u64, d.base_upper);
    }
    gdt.entries[5] = lo;
    gdt.entries[6] = hi;
    GdtPtr { limit: GDT_LIMIT, base: gdt_base }
}

} // verus!
