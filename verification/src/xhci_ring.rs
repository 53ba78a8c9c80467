//! xHCI rings: the command and transfer rings that the kernel fills, and
//! the event ring that the controller fills.
//!
//! A producer ring has 32 TRBs; the last is a Link TRB back to the start.
//! The producer marks each TRB it writes with its cycle state; the
//! controller takes a TRB only while its cycle bit matches its own.  At the
//! Link TRB both flip.
use vstd::prelude::*;

verus! {

/// A transfer request block.
#[derive(Clone, Copy, PartialEq, Eq, Structural, Debug)]
pub struct Trb {
    pub param: u64,
    pub status: u32,
    pub control: u32,
}

// TRB types, shifted into place.
pub const TRB_NORMAL: u32 = 1 << 10;
pub const TRB_SETUP: u32 = 2 << 10;
pub const TRB_DATA: u32 = 3 << 10;
pub const TRB_STATUS: u32 = 4 << 10;
pub const TRB_LINK: u32 = 6 << 10;
pub const TRB_NOOP: u32 = 8 << 10;
pub const TRB_ENABLE_SLOT: u32 = 9 << 10;
pub const TRB_ADDRESS_DEVICE: u32 = 11 << 10;
pub const TRB_CONFIGURE_EP: u32 = 12 << 10;
pub const TRB_EVALUATE_CONTEXT: u32 = 13 << 10;

/// Toggle-cycle flag of a Link TRB.
pub const LINK_TOGGLE: u32 = 1 << 1;
/// Interrupt on completion.
pub const TRB_IOC: u32 = 1 << 5;
/// Immediate data (the setup packet sits in the TRB).
pub const TRB_IDT: u32 = 1 << 6;

/// TRBs in a producer ring, Link TRB included.
pub const RING_TRBS: usize = 32;
/// Index of the Link TRB.
pub const LINK_INDEX: usize = 31;
/// TRBs in the event ring: one page.
pub const EVT_RING_SIZE: usize = 256;

// Event TRB types.
pub const EVT_TRANSFER: u32 = 32;
pub const EVT_CMD_COMPL: u32 = 33;
pub const EVT_PORT_CHANGE: u32 = 34;

/// Cycle bit of a TRB.
pub open spec fn cycle(t: Trb) -> u32 {
    t.control & 1
}

/// A Link TRB back to `base` that flips the cycle.
pub open spec fn is_link_to(t: Trb, base: u64) -> bool {
    t.param == base && t.control & !1u32 == TRB_LINK | LINK_TOGGLE
}

/// A producer ring: its 32 TRBs as the kernel last wrote them, the next
/// slot to fill, and the producer cycle state.
pub struct ProducerRing {
    base: u64,
    trbs: Vec<Trb>,
    enq: usize,
    pcs: u32,
}

/// Bit 0 of a TRB's control word is its cycle bit; the type and flag
/// words the rings write leave it clear.
proof fn lemma_cycle_bits(x: u32, pcs: u32)
    by (bit_vector)
    requires
        pcs <= 1,
    ensures
        x & 1 == 0 ==> (x | pcs) & 1 == pcs,
        ((TRB_LINK | LINK_TOGGLE | pcs) & !1u32) == TRB_LINK | LINK_TOGGLE,
        (TRB_LINK | LINK_TOGGLE | pcs) & 1 == pcs,
        pcs ^ 1 == 1 - pcs,
        0u32 & 1 == 0,
        TRB_NOOP & 1 == 0,
        (TRB_SETUP | TRB_IDT | (3u32 << 16u32)) & 1 == 0,
        (TRB_DATA | (1u32 << 16u32)) & 1 == 0,
        (TRB_STATUS | TRB_IOC) & 1 == 0,
        (TRB_SETUP | TRB_IDT) & 1 == 0,
        (TRB_STATUS | (1u32 << 16u32) | TRB_IOC) & 1 == 0,
        (TRB_NORMAL | TRB_IOC) & 1 == 0,
{
}

impl ProducerRing {
    /// Physical address of the ring.
    pub closed spec fn spec_base(&self) -> u64 {
        self.base
    }

    /// The TRBs.
    pub closed spec fn trbs(&self) -> Seq<Trb> {
        self.trbs@
    }

    /// The next slot to fill.
    pub closed spec fn spec_enq(&self) -> int {
        self.enq as int
    }

    /// The producer cycle state.
    pub closed spec fn spec_pcs(&self) -> u32 {
        self.pcs
    }

    /// The ring is well formed: 32 TRBs ending in a Link TRB, the TRBs
    /// before the enqueue point carry the producer cycle and those after it
    /// do not, so the controller stops exactly at the enqueue point.
    pub open spec fn wf(&self) -> bool {
        &&& self.trbs().len() == RING_TRBS
        &&& 0 <= self.spec_enq() <= LINK_INDEX
        &&& self.spec_pcs() <= 1
        &&& is_link_to(self.trbs()[LINK_INDEX as int], self.spec_base())
        &&& forall|i: int| 0 <= i < self.spec_enq() ==> #[trigger] cycle(self.trbs()[i]) == self.spec_pcs()
        &&& forall|i: int| self.spec_enq() <= i < LINK_INDEX ==> #[trigger] cycle(self.trbs()[i]) != self.spec_pcs()
    }

    /// An empty ring at `base`: zeroed TRBs, a Link TRB at the end,
    /// enqueue at 0, cycle 1.
    pub fn new(base: u64) -> (r: Self)
        ensures
            r.wf(),
            r.spec_base() == base,
            r.spec_enq() == 0,
            r.spec_pcs() == 1,
            r.trbs()[LINK_INDEX as int] == (Trb { param: base, status: 0, control: TRB_LINK | LINK_TOGGLE | 1 }),
            forall|i: int| 0 <= i < LINK_INDEX ==> #[trigger] r.trbs()[i] == (Trb { param: 0, status: 0, control: 0 }),
    {
        let mut trbs: Vec<Trb> = Vec::new();
        let mut i: usize = 0;
        while i < LINK_INDEX
            invariant
                i <= LINK_INDEX,
                trbs@.len() == i,
                forall|j: int| 0 <= j < i ==> #[trigger] trbs@[j] == (Trb { param: 0, status: 0, control: 0 }),
            decreases LINK_INDEX - i,
        {
            trbs.push(Trb { param: 0, status: 0, control: 0 });
            i += 1;
        }
        trbs.push(Trb { param: base, status: 0, control: TRB_LINK | LINK_TOGGLE | 1 });
        proof {
            lemma_cycle_bits(0, 1);
        }
        ProducerRing { base, trbs, enq: 0, pcs: 1 }
    }

    pub fn base(&self) -> (r: u64)
        ensures
            r == self.spec_base(),
    {
        self.base
    }

    pub fn enq(&self) -> (r: usize)
        ensures
            r == self.spec_enq(),
    {
        self.enq
    }

    pub fn pcs(&self) -> (r: u32)
        ensures
            r == self.spec_pcs(),
    {
        self.pcs
    }

    /// The TRB at slot `i`, as the controller should see it.
    pub fn trb(&self, i: usize) -> (r: Trb)
        requires
            self.wf(),
            i < RING_TRBS,
        ensures
            r == self.trbs()[i as int],
    {
        self.trbs[i]
    }

    /// Write a TRB at the enqueue point with the producer cycle.
    fn put(&mut self, param: u64, status: u32, control: u32)
        requires
            old(self).wf(),
            old(self).spec_enq() < LINK_INDEX,
            control & 1 == 0,
        ensures
            final(self).spec_base() == old(self).spec_base(),
            final(self).spec_pcs() == old(self).spec_pcs(),
            final(self).spec_enq() == old(self).spec_enq() + 1,
            final(self).trbs() == old(self).trbs().update(
                old(self).spec_enq(),
                Trb { param, status, control: control | old(self).spec_pcs() },
            ),
            final(self).wf(),
    {
        proof {
            lemma_cycle_bits(control, self.pcs);
        }
        let t = Trb { param, status, control: control | self.pcs };
        self.trbs.set(self.enq, t);
        self.enq = self.enq + 1;
    }

    /// Close the lap: give the Link TRB the producer cycle, go back to the
    /// start, flip the cycle.
    fn wrap(&mut self)
        requires
            old(self).trbs().len() == RING_TRBS,
            old(self).spec_pcs() <= 1,
            is_link_to(old(self).trbs()[LINK_INDEX as int], old(self).spec_base()),
            forall|i: int| 0 <= i < LINK_INDEX ==> #[trigger] cycle(old(self).trbs()[i]) == old(self).spec_pcs(),
        ensures
            final(self).spec_base() == old(self).spec_base(),
            final(self).spec_enq() == 0,
            final(self).spec_pcs() == 1 - old(self).spec_pcs(),
            final(self).trbs() == old(self).trbs().update(
                LINK_INDEX as int,
                Trb { control: TRB_LINK | LINK_TOGGLE | old(self).spec_pcs(), ..old(self).trbs()[LINK_INDEX as int] },
            ),
            final(self).wf(),
    {
        let old_link = self.trbs[LINK_INDEX];
        proof {
            lemma_cycle_bits(0, self.pcs);
        }
        self.trbs.set(LINK_INDEX, Trb { control: TRB_LINK | LINK_TOGGLE | self.pcs, ..old_link });
        let p = self.pcs;
        self.enq = 0;
        self.pcs = p ^ 1;
    }

    /// Post a command: write it at the enqueue point with the producer
    /// cycle; when that fills the last slot before the Link TRB, close the
    /// lap.  Returns the slot written.  Bit 0 of `control` is the cycle
    /// bit, which the ring sets.
    pub fn post(&mut self, param: u64, status: u32, control: u32) -> (r: usize)
        requires
            old(self).wf(),
            old(self).spec_enq() < LINK_INDEX,
            control & 1 == 0,
        ensures
            final(self).wf(),
            final(self).spec_enq() < LINK_INDEX,
            r == old(self).spec_enq(),
            final(self).spec_base() == old(self).spec_base(),
            final(self).trbs()[r as int] == (Trb { param, status, control: control | old(self).spec_pcs() }),
            old(self).spec_enq() + 1 < LINK_INDEX ==> final(self).spec_enq() == old(self).spec_enq() + 1
                && final(self).spec_pcs() == old(self).spec_pcs(),
            old(self).spec_enq() + 1 == LINK_INDEX ==> final(self).spec_enq() == 0 && final(self).spec_pcs() == 1
                - old(self).spec_pcs() && final(self).trbs()[LINK_INDEX as int].control == TRB_LINK | LINK_TOGGLE
                | old(self).spec_pcs(),
            old(self).spec_enq() + 1 < LINK_INDEX ==> final(self).trbs()[LINK_INDEX as int] == old(self).trbs()[LINK_INDEX as int],
            old(self).spec_enq() + 1 == LINK_INDEX ==> final(self).trbs()[LINK_INDEX as int] == (Trb { control: TRB_LINK | LINK_TOGGLE | old(self).spec_pcs(), ..old(self).trbs()[LINK_INDEX as int] }),
            forall|i: int| 0 <= i < LINK_INDEX && i != r ==> #[trigger] final(self).trbs()[i] == old(self).trbs()[i],
    {
        let at = self.enq;
        self.put(param, status, control);
        if self.enq == LINK_INDEX {
            self.wrap();
        }
        at
    }

    /// Make room for `n` TRBs in a row before the Link TRB: when they do
    /// not fit, fill the rest of the lap with No-Op TRBs and close it.
    pub fn reserve(&mut self, n: usize)
        requires
            old(self).wf(),
            n <= LINK_INDEX,
        ensures
            final(self).wf(),
            final(self).spec_base() == old(self).spec_base(),
            final(self).spec_enq() + n <= LINK_INDEX,
            old(self).spec_enq() + n <= LINK_INDEX ==> final(self).trbs() == old(self).trbs()
                && final(self).spec_enq() == old(self).spec_enq() && final(self).spec_pcs() == old(self).spec_pcs(),
            // On a wrap the Link TRB takes the cycle of the lap it closes.
            old(self).spec_enq() + n > LINK_INDEX ==> final(self).trbs()[LINK_INDEX as int] == (Trb { control: TRB_LINK | LINK_TOGGLE | old(self).spec_pcs(), ..old(self).trbs()[LINK_INDEX as int] }),
            old(self).spec_enq() + n > LINK_INDEX ==> final(self).spec_enq() == 0 && final(self).spec_pcs() == 1
                - old(self).spec_pcs() && (forall|i: int|
                old(self).spec_enq() <= i < LINK_INDEX ==> #[trigger] final(self).trbs()[i] == (Trb {
                    param: 0,
                    status: 0,
                    control: TRB_NOOP | old(self).spec_pcs(),
                })) && (forall|i: int|
                0 <= i < old(self).spec_enq() ==> #[trigger] final(self).trbs()[i] == old(self).trbs()[i]),
    {
        if self.enq + n <= LINK_INDEX {
            return;
        }
        let ghost t0 = self.trbs@;
        let ghost e0 = self.enq;
        let ghost p0 = self.pcs;
        while self.enq < LINK_INDEX
            invariant
                self.wf(),
                self.spec_base() == old(self).spec_base(),
                self.spec_pcs() == p0,
                e0 <= self.enq <= LINK_INDEX,
                forall|i: int| e0 <= i < self.enq ==> #[trigger] self.trbs@[i] == (Trb { param: 0, status: 0, control: TRB_NOOP | p0 }),
                forall|i: int| 0 <= i < e0 ==> #[trigger] self.trbs@[i] == t0[i],
                self.trbs@[LINK_INDEX as int] == t0[LINK_INDEX as int],
                t0 == old(self).trbs(),
                p0 == old(self).spec_pcs(),
            decreases LINK_INDEX - self.enq,
        {
            proof {
                lemma_cycle_bits(0, 0);
            }
            self.put(0, 0, TRB_NOOP);
        }
        self.wrap();
    }

    /// Queue a control read: a Setup TRB with the packet (IN data stage),
    /// a Data TRB for `len` bytes into `buf`, and a Status TRB that
    /// interrupts on completion.  Returns the slot of the Setup TRB.
    pub fn control_in(&mut self, setup: u64, buf: u64, len: u16) -> (r: usize)
        requires
            old(self).wf(),
        ensures
            final(self).wf(),
            final(self).spec_base() == old(self).spec_base(),
            r + 3 <= LINK_INDEX,
            final(self).spec_enq() == r + 3,
            final(self).trbs()[r as int] == (Trb { param: setup, status: 8, control: TRB_SETUP | TRB_IDT | (3u32 << 16u32) | final(self).spec_pcs() }),
            final(self).trbs()[r + 1] == (Trb { param: buf, status: len as u32, control: TRB_DATA | (1u32 << 16u32) | final(self).spec_pcs() }),
            final(self).trbs()[r + 2] == (Trb { param: 0, status: 0, control: TRB_STATUS | TRB_IOC | final(self).spec_pcs() }),
            old(self).spec_enq() + 3 <= LINK_INDEX ==> r == old(self).spec_enq() && final(self).spec_pcs() == old(self).spec_pcs(),
            old(self).spec_enq() + 3 > LINK_INDEX ==> r == 0 && final(self).spec_pcs() == 1 - old(self).spec_pcs(),
            old(self).spec_enq() + 3 <= LINK_INDEX ==> final(self).trbs()[LINK_INDEX as int] == old(self).trbs()[LINK_INDEX as int],
            old(self).spec_enq() + 3 > LINK_INDEX ==> final(self).trbs()[LINK_INDEX as int] == (Trb { control: TRB_LINK | LINK_TOGGLE | old(self).spec_pcs(), ..old(self).trbs()[LINK_INDEX as int] }),
            // On a wrap the rest of the old lap holds No-Op TRBs with its cycle.
            old(self).spec_enq() + 3 > LINK_INDEX ==> forall|i: int|
                old(self).spec_enq() <= i < LINK_INDEX ==> #[trigger] final(self).trbs()[i] == (Trb {
                    param: 0,
                    status: 0,
                    control: TRB_NOOP | old(self).spec_pcs(),
                }),
            // Every other TRB before the Link TRB is as it was.
            forall|i: int|
                0 <= i < LINK_INDEX && (i < r || i >= r + 3) && !(old(self).spec_enq() + 3 > LINK_INDEX
                    && i >= old(self).spec_enq()) ==> #[trigger] final(self).trbs()[i] == old(self).trbs()[i],
    {
        self.reserve(3);
        proof {
            lemma_cycle_bits(0, 0);
        }
        let at = self.enq;
        self.put(setup, 8, TRB_SETUP | TRB_IDT | (3 << 16));
        self.put(buf, len as u32, TRB_DATA | (1 << 16));
        self.put(0, 0, TRB_STATUS | TRB_IOC);
        at
    }

    /// Queue a control request without data: a Setup TRB and an IN Status
    /// TRB that interrupts on completion.  Returns the slot of the Setup TRB.
    pub fn control_out_nodata(&mut self, setup: u64) -> (r: usize)
        requires
            old(self).wf(),
        ensures
            final(self).wf(),
            final(self).spec_base() == old(self).spec_base(),
            r + 2 <= LINK_INDEX,
            final(self).spec_enq() == r + 2,
            final(self).trbs()[r as int] == (Trb { param: setup, status: 8, control: TRB_SETUP | TRB_IDT | final(self).spec_pcs() }),
            final(self).trbs()[r + 1] == (Trb { param: 0, status: 0, control: TRB_STATUS | (1u32 << 16u32) | TRB_IOC | final(self).spec_pcs() }),
            old(self).spec_enq() + 2 <= LINK_INDEX ==> r == old(self).spec_enq() && final(self).spec_pcs() == old(self).spec_pcs(),
            old(self).spec_enq() + 2 > LINK_INDEX ==> r == 0 && final(self).spec_pcs() == 1 - old(self).spec_pcs(),
            old(self).spec_enq() + 2 <= LINK_INDEX ==> final(self).trbs()[LINK_INDEX as int] == old(self).trbs()[LINK_INDEX as int],
            old(self).spec_enq() + 2 > LINK_INDEX ==> final(self).trbs()[LINK_INDEX as int] == (Trb { control: TRB_LINK | LINK_TOGGLE | old(self).spec_pcs(), ..old(self).trbs()[LINK_INDEX as int] }),
            // On a wrap the rest of the old lap holds No-Op TRBs with its cycle.
            old(self).spec_enq() + 2 > LINK_INDEX ==> forall|i: int|
                old(self).spec_enq() <= i < LINK_INDEX ==> #[trigger] final(self).trbs()[i] == (Trb {
                    param: 0,
                    status: 0,
                    control: TRB_NOOP | old(self).spec_pcs(),
                }),
            // Every other TRB before the Link TRB is as it was.
            forall|i: int|
                0 <= i < LINK_INDEX && (i < r || i >= r + 2) && !(old(self).spec_enq() + 2 > LINK_INDEX
                    && i >= old(self).spec_enq()) ==> #[trigger] final(self).trbs()[i] == old(self).trbs()[i],
    {
        self.reserve(2);
        proof {
            lemma_cycle_bits(0, 0);
        }
        let at = self.enq;
        self.put(setup, 8, TRB_SETUP | TRB_IDT);
        self.put(0, 0, TRB_STATUS | (1 << 16) | TRB_IOC);
        at
    }

    /// Queue one Normal TRB that reads an 8-byte report into `buf` and
    /// interrupts on completion; the lap closes when it fills the last slot.
    /// Returns the slot written.
    pub fn queue_normal(&mut self, buf: u64) -> (r: usize)
        requires
            old(self).wf(),
            old(self).spec_enq() < LINK_INDEX,
        ensures
            final(self).wf(),
            final(self).spec_enq() < LINK_INDEX,
            r == old(self).spec_enq(),
            final(self).trbs()[r as int] == (Trb { param: buf, status: 8, control: TRB_NORMAL | TRB_IOC | old(self).spec_pcs() }),
            old(self).spec_enq() + 1 < LINK_INDEX ==> final(self).spec_enq() == old(self).spec_enq() + 1
                && final(self).spec_pcs() == old(self).spec_pcs(),
            old(self).spec_enq() + 1 == LINK_INDEX ==> final(self).spec_enq() == 0 && final(self).spec_pcs() == 1
                - old(self).spec_pcs(),
            old(self).spec_enq() + 1 < LINK_INDEX ==> final(self).trbs()[LINK_INDEX as int] == old(self).trbs()[LINK_INDEX as int],
            old(self).spec_enq() + 1 == LINK_INDEX ==> final(self).trbs()[LINK_INDEX as int] == (Trb { control: TRB_LINK | LINK_TOGGLE | old(self).spec_pcs(), ..old(self).trbs()[LINK_INDEX as int] }),
    {
        proof {
            lemma_cycle_bits(0, 0);
        }
        self.post(buf, 8, TRB_NORMAL | TRB_IOC)
    }
}

/// An event the controller posted.
#[derive(Clone, Copy, PartialEq, Eq, Structural, Debug)]
pub struct Event {
    pub trb_type: u32,
    pub code: u32,
    pub slot_id: u32,
}

/// The event that a TRB with these control and status words holds.
pub open spec fn decode_event(control: u32, status: u32) -> Event {
    Event { trb_type: (control >> 10u32) & 0x3F, code: (status >> 24u32) & 0xFF, slot_id: control >> 24u32 }
}

/// The consumer side of the event ring: the next TRB to read and the
/// consumer cycle state.
pub struct EventRing {
    deq: usize,
    ccs: u32,
}

impl EventRing {
    pub closed spec fn spec_deq(&self) -> int {
        self.deq as int
    }

    pub closed spec fn spec_ccs(&self) -> u32 {
        self.ccs
    }

    pub open spec fn wf(&self) -> bool {
        0 <= self.spec_deq() < EVT_RING_SIZE && self.spec_ccs() <= 1
    }

    /// Start of the ring, cycle 1.
    pub fn new() -> (r: Self)
        ensures
            r.wf(),
            r.spec_deq() == 0,
            r.spec_ccs() == 1,
    {
        EventRing { deq: 0, ccs: 1 }
    }

    pub fn deq(&self) -> (r: usize)
        ensures
            r == self.spec_deq(),
    {
        self.deq
    }

    /// Take the TRB at the dequeue point, whose words are `control` and
    /// `status`: `None`, with nothing changed, while its cycle bit is not
    /// the consumer's (the controller has not written it yet); else its
    /// event, and the dequeue point moves on, flipping the cycle at the end
    /// of the ring.
    pub fn consume(&mut self, control: u32, status: u32) -> (r: Option<Event>)
        requires
            old(self).wf(),
        ensures
            final(self).wf(),
            control & 1 != old(self).spec_ccs() ==> r is None && final(self).spec_deq() == old(self).spec_deq()
                && final(self).spec_ccs() == old(self).spec_ccs(),
            control & 1 == old(self).spec_ccs() ==> r == Some(decode_event(control, status)) && (if old(self).spec_deq()
                + 1 == EVT_RING_SIZE {
                final(self).spec_deq() == 0 && final(self).spec_ccs() == 1 - old(self).spec_ccs()
            } else {
                final(self).spec_deq() == old(self).spec_deq() + 1 && final(self).spec_ccs() == old(self).spec_ccs()
            }),
    {
        if control & 1 != self.ccs {
            return None;
        }
        let e = Event { trb_type: (control >> 10) & 0x3F, code: (status >> 24) & 0xFF, slot_id: control >> 24 };
        self.deq = self.deq + 1;
        if self.deq == EVT_RING_SIZE {
            let c = self.ccs;
            proof {
                lemma_cycle_bits(0, c);
            }
            self.deq = 0;
            self.ccs = c ^ 1;
        }
        Some(e)
    }

    /// The value for the event ring dequeue pointer register: the address
    /// of the next TRB, with the handler-busy flag written to clear it.
    pub fn erdp(&self, ring_base: u64) -> (r: u64)
        requires
            self.wf(),
            ring_base + EVT_RING_SIZE * 16 <= u64::MAX,
        ensures
            r == ((ring_base + self.spec_deq() * 16) as u64) | 8,
    {
        (ring_base + self.deq as u64 * 16) | 8
    }
}

} // verus!
