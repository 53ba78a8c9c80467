//! The xHCI host controller: capability registers, device contexts, port
//! registers and the decisions of device enumeration.
use vstd::prelude::*;
use crate::xhci_ring::Event;

verus! {

/// Deepest hub tier the kernel walks into.
pub const MAX_HUB_DEPTH: u32 = 4;
/// Completion code that `wait` reports when no event came in time.
pub const CODE_TIMEOUT: u32 = 0xFF;
/// Polls before `wait` gives up.
pub const WAIT_BUDGET: u32 = 10_000_000;

// ---------------------------------------------------------------------------
// Capability registers
// ---------------------------------------------------------------------------

/// What the capability registers tell.
#[derive(Clone, Copy, PartialEq, Eq, Structural, Debug)]
pub struct Capabilities {
    pub cap_length: u64,
    pub max_slots: u32,
    pub max_ports: u32,
    /// Size of a context: 32 or 64 bytes.
    pub ctx_size: u64,
    /// Scratchpad buffers the controller needs.
    pub max_scratch: u64,
    pub op_base: u64,
    pub rt_base: u64,
    pub db_base: u64,
}

/// Scratchpad buffers: HCSPARAMS2 bits 21-25 are the high five bits,
/// bits 27-31 the low five.
pub open spec fn scratchpad_count(hcs_params2: u32) -> u64 {
    ((((hcs_params2 >> 21u32) & 0x1F) << 5u32) | ((hcs_params2 >> 27u32) & 0x1F)) as u64
}

/// Decode the capability registers of a controller at `bar0`: CAPLENGTH,
/// HCSPARAMS1/2, HCCPARAMS1, DBOFF and RTSOFF as read.
pub fn decode_capabilities(bar0: u64, caplength: u32, hcs_params1: u32, hcs_params2: u32, hcc_params1: u32, dboff: u32, rtsoff: u32) -> (r: Capabilities)
    requires
        bar0 + 0xFFFF_FFFF <= u64::MAX,
    ensures
        r.cap_length == caplength & 0xFF,
        r.max_slots == hcs_params1 & 0xFF,
        r.max_ports == (hcs_params1 >> 24u32) & 0xFF,
        r.ctx_size == (if (hcc_params1 >> 2u32) & 1 == 1 { 64u64 } else { 32u64 }),
        r.max_scratch == scratchpad_count(hcs_params2),
        r.op_base == bar0 + (caplength & 0xFF),
        r.rt_base == bar0 + rtsoff,
        r.db_base == bar0 + dboff,
{
    let cap_length = (caplength & 0xFF) as u64;
    let ctx_size: u64 = if (hcc_params1 >> 2) & 1 == 1 { 64 } else { 32 };
    let max_scratch = ((((hcs_params2 >> 21) & 0x1F) << 5) | ((hcs_params2 >> 27) & 0x1F)) as u64;
    Capabilities {
        cap_length,
        max_slots: hcs_params1 & 0xFF,
        max_ports: (hcs_params1 >> 24) & 0xFF,
        ctx_size,
        max_scratch,
        op_base: bar0 + cap_length,
        rt_base: bar0 + rtsoff as u64,
        db_base: bar0 + dboff as u64,
    }
}

/// Law: the scratchpad count is the high field times 32 plus the low field.
pub proof fn law_scratchpad_count(hcs_params2: u32)
    ensures
        scratchpad_count(hcs_params2) == ((hcs_params2 >> 21u32) & 0x1F) * 32 + ((hcs_params2 >> 27u32) & 0x1F),
        scratchpad_count(hcs_params2) < 1024,
{
    lemma_register_bits(hcs_params2, 0, 0);
}

/// Field extraction facts for the registers the driver reads.
proof fn lemma_register_bits(x: u32, portsc: u32, ep_addr: u8)
    by (bit_vector)
    ensures
        ((((x >> 21u32) & 0x1F) << 5u32) | ((x >> 27u32) & 0x1F)) == ((x >> 21u32) & 0x1F) * 32 + ((x >> 27u32)
            & 0x1F),
        ((x >> 21u32) & 0x1F) * 32 + ((x >> 27u32) & 0x1F) < 1024,
        ((portsc & !0x00FF_F1FEu32) | (1u32 << 4u32)) & 0x00FE_0000u32 == 0,
        ((portsc & !0x00FF_F1FEu32) | (1u32 << 4u32)) & (1u32 << 4u32) != 0,
        ((portsc & !0x00FF_F1FEu32) | 0x00FE_0000u32) & (1u32 << 4u32) == 0,
        (portsc >> 10u32) & 0xF < 16,
        ep_addr & 0xF <= 15,
{
}

/// CONFIG with MaxSlotsEn set to `max_slots`.
pub fn config_max_slots(config: u32, max_slots: u32) -> (r: u32)
    ensures
        r == (config & !0xFFu32) | (max_slots & 0xFF),
{
    (config & !0xFF) | (max_slots & 0xFF)
}

/// Address of the PORTSC register of port `port` (0-based).
pub fn portsc_addr(op_base: u64, port: u32) -> (r: u64)
    requires
        op_base + 0x400 + 0x10 * 256 <= u64::MAX,
        port < 256,
    ensures
        r == op_base + 0x400 + 0x10 * port,
{
    op_base + 0x400 + port as u64 * 0x10
}

// ---------------------------------------------------------------------------
// Root-port registers
// ---------------------------------------------------------------------------

/// Status and change bits of PORTSC that a write must not touch (the
/// change bits clear when written with 1).
pub const PORTSC_PRESERVE_MASK: u32 = 0x00FF_F1FE;
/// Port power.
pub const PORTSC_PP: u32 = 1 << 9;
/// Port reset.
pub const PORTSC_PR: u32 = 1 << 4;
/// All change bits (17 to 23).
pub const PORTSC_CHANGES: u32 = 0x00FE_0000;

/// PORTSC with port power on.
pub fn port_power_on(portsc: u32) -> (r: u32)
    ensures
        r == portsc | PORTSC_PP,
{
    portsc | PORTSC_PP
}

/// PORTSC that starts a port reset without clearing any change bit.
pub fn port_reset_value(portsc: u32) -> (r: u32)
    ensures
        r == (portsc & !PORTSC_PRESERVE_MASK) | PORTSC_PR,
{
    (portsc & !PORTSC_PRESERVE_MASK) | PORTSC_PR
}

/// PORTSC that clears every change bit.
pub fn port_clear_changes_value(portsc: u32) -> (r: u32)
    ensures
        r == (portsc & !PORTSC_PRESERVE_MASK) | PORTSC_CHANGES,
{
    (portsc & !PORTSC_PRESERVE_MASK) | PORTSC_CHANGES
}

/// Law: neither write sets a change bit other than the ones it means to
/// clear, and a reset write sets the reset bit.
pub proof fn law_portsc_writes(portsc: u32)
    ensures
        ((portsc & !PORTSC_PRESERVE_MASK) | PORTSC_PR) & PORTSC_CHANGES == 0,
        ((portsc & !PORTSC_PRESERVE_MASK) | PORTSC_PR) & PORTSC_PR != 0,
        ((portsc & !PORTSC_PRESERVE_MASK) | PORTSC_CHANGES) & PORTSC_PR == 0,
{
    lemma_register_bits(0, portsc, 0);
}

/// A device is connected (CCS).
pub fn port_connected(portsc: u32) -> (r: bool)
    ensures
        r == (portsc & 1 != 0),
{
    portsc & 1 != 0
}

/// The port is enabled (PED).
pub fn port_enabled(portsc: u32) -> (r: bool)
    ensures
        r == (portsc & 2 != 0),
{
    portsc & 2 != 0
}

/// The reset is still going on (PR).
pub fn port_in_reset(portsc: u32) -> (r: bool)
    ensures
        r == (portsc & PORTSC_PR != 0),
{
    portsc & PORTSC_PR != 0
}

/// Speed of the device on the port (bits 10 to 13).
pub fn port_speed(portsc: u32) -> (r: u32)
    ensures
        r == (portsc >> 10u32) & 0xF,
        r < 16,
{
    proof {
        lemma_register_bits(0, portsc, 0);
    }
    (portsc >> 10) & 0xF
}

// ---------------------------------------------------------------------------
// Device contexts
// ---------------------------------------------------------------------------

/// EP0 max packet size for a speed (1 FS, 2 LS, 3 HS, 4 SS).
pub open spec fn spec_ep0_max_packet(speed: u32) -> u32 {
    if speed == 3 {
        64
    } else if speed == 4 {
        512
    } else {
        8
    }
}

/// EP0 max packet size for a speed (1 FS, 2 LS, 3 HS, 4 SS).
pub fn ep0_max_packet(speed: u32) -> (r: u32)
    ensures
        r == spec_ep0_max_packet(speed),
{
    if speed == 3 {
        64
    } else if speed == 4 {
        512
    } else {
        8
    }
}

/// The first three words of a slot context.
#[derive(Clone, Copy, PartialEq, Eq, Structural, Debug)]
pub struct SlotContext {
    pub dw0: u32,
    pub dw1: u32,
    pub dw2: u32,
}

/// The slot context of a device that Address Device sets up: route string
/// (20 bits), speed, one context entry, root hub port, and the hub slot
/// and port of its transaction translator (0 for none).
pub fn slot_context(route: u32, speed: u32, root_port: u32, tt_hub_slot: u32, tt_port: u32) -> (r: SlotContext)
    ensures
        r.dw0 == (route & 0xF_FFFF) | (speed << 20u32) | (1u32 << 27u32),
        r.dw1 == root_port << 16u32,
        r.dw2 == (tt_hub_slot & 0xFF) | ((tt_port & 0xFF) << 8u32),
{
    SlotContext {
        dw0: (route & 0xF_FFFF) | (speed << 20) | (1 << 27),
        dw1: root_port << 16,
        dw2: (tt_hub_slot & 0xFF) | ((tt_port & 0xFF) << 8),
    }
}

/// Word 1 of the EP0 context: max packet size, control endpoint (type 4),
/// three retries.
pub fn ep0_context_dw1(speed: u32) -> (r: u32)
    ensures
        r == (spec_ep0_max_packet(speed) << 16u32) | (4u32 << 3u32) | (3u32 << 1u32),
{
    (ep0_max_packet(speed) << 16) | (4 << 3) | (3 << 1)
}

/// TR dequeue pointer of a fresh ring: its address with cycle 1.
pub fn dequeue_pointer(ring: u64) -> (r: u64)
    ensures
        r == ring | 1,
{
    ring | 1
}

/// Device context index of an endpoint address: number times two, plus one
/// for IN.
pub open spec fn spec_ep_index(ep_addr: u8) -> u64 {
    ((ep_addr & 0xF) * 2 + if ep_addr & 0x80 != 0 { 1int } else { 0int }) as u64
}

/// Device context index of an endpoint address.
pub fn ep_index(ep_addr: u8) -> (r: u64)
    ensures
        r == spec_ep_index(ep_addr),
        r <= 31,
{
    proof {
        lemma_register_bits(0, 0, ep_addr);
    }
    ((ep_addr & 0xF) as u64) * 2 + if ep_addr & 0x80 != 0 { 1 } else { 0 }
}

/// Floor of the base-2 logarithm.
pub open spec fn log2(v: nat) -> nat
    decreases v,
{
    if v <= 1 {
        0
    } else {
        1 + log2(v / 2)
    }
}

/// The Interval field of an endpoint context from `bInterval`: at high and
/// super speed `bInterval - 1`; at full and low speed (frames) the
/// logarithm plus 3; never above 15.
pub open spec fn spec_xhci_interval(interval: u8, speed: u32) -> u32 {
    let iv = if interval < 1 { 1 } else { interval as int };
    if speed == 3 || speed == 4 {
        if iv - 1 < 15 { (iv - 1) as u32 } else { 15 }
    } else {
        if log2(iv as nat) + 3 < 15 { (log2(iv as nat) + 3) as u32 } else { 15 }
    }
}

/// The Interval field of an endpoint context from `bInterval`.
pub fn xhci_interval(interval: u8, speed: u32) -> (r: u32)
    ensures
        r == spec_xhci_interval(interval, speed),
        r <= 15,
{
    let iv0: u32 = if interval < 1 { 1 } else { interval as u32 };
    if speed == 3 || speed == 4 {
        if iv0 - 1 < 15 { iv0 - 1 } else { 15 }
    } else {
        let mut iv = iv0;
        let mut log: u32 = 0;
        proof {
            lemma_log2_bound(iv0 as nat);
        }
        while iv > 1
            invariant
                1 <= iv <= 255,
                log <= 8,
                log + log2(iv as nat) == log2(iv0 as nat),
                log2(iv as nat) + log <= 8,
            decreases iv,
        {
            proof {
                lemma_log2_bound(iv as nat);
            }
            iv = iv / 2;
            log += 1;
        }
        proof {
            lemma_log2_bound(iv0 as nat);
        }
        if log + 3 < 15 { log + 3 } else { 15 }
    }
}

proof fn lemma_log2_bound(v: nat)
    requires
        1 <= v <= 255,
    ensures
        log2(v) <= 7,
{
    lemma_log2_pow(v);
    vstd::arithmetic::power2::lemma2_to64();
    if log2(v) > 8 {
        vstd::arithmetic::power2::lemma_pow2_strictly_increases(8, log2(v));
    }
}

/// Law: interrupt intervals at full and low speed come out as
/// 2^Interval microframes of 125 us no longer than `bInterval`
/// milliseconds: the Interval is the largest with 2^(Interval-3) <= bInterval.
pub proof fn law_fs_interval(interval: u8)
    requires
        1 <= interval,
    ensures
        spec_xhci_interval(interval, 1) == log2(interval as nat) + 3,
        vstd::arithmetic::power2::pow2(log2(interval as nat)) <= interval,
        interval < vstd::arithmetic::power2::pow2(log2(interval as nat) + 1),
{
    lemma_log2_bound(interval as nat);
    lemma_log2_pow(interval as nat);
}

proof fn lemma_log2_pow(v: nat)
    requires
        v >= 1,
    ensures
        vstd::arithmetic::power2::pow2(log2(v)) <= v,
        v < vstd::arithmetic::power2::pow2(log2(v) + 1),
    decreases v,
{
    vstd::arithmetic::power2::lemma2_to64();
    if v > 1 {
        lemma_log2_pow(v / 2);
        vstd::arithmetic::power2::lemma_pow2_unfold(log2(v));
        vstd::arithmetic::power2::lemma_pow2_unfold(log2(v) + 1);
    }
}

/// An interrupt IN endpoint context: words 0, 1 and 4 and the dequeue
/// pointer.
#[derive(Clone, Copy, PartialEq, Eq, Structural, Debug)]
pub struct EndpointContext {
    pub dw0: u32,
    pub dw1: u32,
    pub dequeue: u64,
    pub dw4: u32,
}

/// The context of an interrupt IN endpoint: its interval, max packet size,
/// type 7 with three retries, the ring with cycle 1, and the average TRB
/// length set to the packet size.
pub fn hid_endpoint_context(max_packet: u16, interval: u8, speed: u32, ring: u64) -> (r: EndpointContext)
    ensures
        r.dw0 == spec_xhci_interval(interval, speed) << 16u32,
        r.dw1 == ((max_packet as u32) << 16u32) | (7u32 << 3u32) | (3u32 << 1u32),
        r.dequeue == ring | 1,
        r.dw4 == max_packet as u32,
{
    let xi = xhci_interval(interval, speed);
    EndpointContext {
        dw0: xi << 16,
        dw1: ((max_packet as u32) << 16) | (7 << 3) | (3 << 1),
        dequeue: ring | 1,
        dw4: max_packet as u32,
    }
}

/// Add flags of an input context that adds the slot and endpoint `ep_idx`.
pub fn add_flags(ep_idx: u64) -> (r: u32)
    requires
        ep_idx < 32,
    ensures
        r == (1u32 << (ep_idx as u32)) | 1,
{
    (1u32 << (ep_idx as u32)) | 1
}

/// Slot word 0 with Context Entries set to `ep_idx`.
pub fn with_context_entries(dw0: u32, ep_idx: u64) -> (r: u32)
    requires
        ep_idx < 32,
    ensures
        r == (dw0 & !(0x1Fu32 << 27u32)) | ((ep_idx as u32) << 27u32),
{
    (dw0 & !(0x1F << 27)) | ((ep_idx as u32) << 27)
}

/// The slot context of a hub: the Hub flag, its number of ports, and its
/// TT think time.
pub fn hub_slot_context(ctx: SlotContext, nbr_ports: u32, think_time: u32) -> (r: SlotContext)
    ensures
        r.dw0 == ctx.dw0 | (1u32 << 26u32),
        r.dw1 == (ctx.dw1 & 0x00FF_FFFF) | (nbr_ports << 24u32),
        r.dw2 == (ctx.dw2 & !(3u32 << 16u32)) | ((think_time & 3) << 16u32),
{
    SlotContext {
        dw0: ctx.dw0 | (1 << 26),
        dw1: (ctx.dw1 & 0x00FF_FFFF) | (nbr_ports << 24),
        dw2: (ctx.dw2 & !(3 << 16)) | ((think_time & 3) << 16),
    }
}

// ---------------------------------------------------------------------------
// Enumeration decisions
// ---------------------------------------------------------------------------

/// After the 8-byte probe of a full-speed device: the real EP0 max packet
/// size when it differs from the one Address Device assumed.
pub fn fs_max_packet_fix(speed: u32, probe_code: u32, max_packet0: u8) -> (r: Option<u32>)
    ensures
        r == (if speed == 1 && (probe_code == 1 || probe_code == 13) && max_packet0 != 0 && max_packet0
            != spec_ep0_max_packet(speed) {
            Some(max_packet0 as u32)
        } else {
            None::<u32>
        }),
{
    if speed == 1 && (probe_code == 1 || probe_code == 13) {
        let mps0 = max_packet0 as u32;
        if mps0 != 0 && mps0 != ep0_max_packet(speed) {
            return Some(mps0);
        }
    }
    None
}

/// What an addressed device turns out to be.
#[derive(Clone, Copy, PartialEq, Eq, Structural, Debug)]
pub enum DeviceRole {
    /// A HID interface: set it up as the keyboard.
    Keyboard,
    /// A hub within the depth limit: walk its ports.
    Hub,
    /// Anything else.
    Ignore,
}

/// The role of a device from its class, the class of its interface and
/// the tier it sits on.
pub fn classify(dev_class: u8, iface_class: u8, depth: u32) -> (r: DeviceRole)
    ensures
        r == (if iface_class == 3 {
            DeviceRole::Keyboard
        } else if (dev_class == 9 || iface_class == 9) && depth < MAX_HUB_DEPTH {
            DeviceRole::Hub
        } else {
            DeviceRole::Ignore
        }),
{
    if iface_class == 3 {
        DeviceRole::Keyboard
    } else if (dev_class == 9 || iface_class == 9) && depth < MAX_HUB_DEPTH {
        DeviceRole::Hub
    } else {
        DeviceRole::Ignore
    }
}

/// Speed of a device behind a hub port from the port status: low speed
/// (bit 9) is 2, high speed (bit 10) is 3, else full speed 1.
pub open spec fn spec_child_speed(status: u32) -> u32 {
    if status & (1u32 << 9u32) != 0 {
        2u32
    } else if status & (1u32 << 10u32) != 0 {
        3u32
    } else {
        1u32
    }
}

/// Speed of a device behind a hub port from the port status.
pub fn child_speed(status: u32) -> (r: u32)
    ensures
        r == spec_child_speed(status),
{
    if status & (1 << 9) != 0 {
        2
    } else if status & (1 << 10) != 0 {
        3
    } else {
        1
    }
}

/// Route string of the device on port `port` of a hub on tier `depth`:
/// the port (at most 15) in the nibble of that tier.
pub open spec fn spec_child_route(route: u32, port: u32, depth: u32) -> u32 {
    route | ((if port > 15 { 15u32 } else { port }) << ((4 * depth) as u32))
}

/// Route string of the device on port `port` of a hub on tier `depth`.
pub fn child_route(route: u32, port: u32, depth: u32) -> (r: u32)
    requires
        depth < 8,
    ensures
        r == spec_child_route(route, port, depth),
{
    let nib = if port > 15 { 15 } else { port };
    route | (nib << (4 * depth))
}

/// Law: the devices on two different ports (below 16) of one hub get
/// different route strings, when the hub's own route leaves its tier's
/// nibble empty.
pub proof fn law_child_routes_differ(route: u32, p1: u32, p2: u32, depth: u32)
    requires
        depth < 5,
        p1 < 16,
        p2 < 16,
        p1 != p2,
        (route >> ((4 * depth) as u32)) & 0xF == 0,
    ensures
        spec_child_route(route, p1, depth) != spec_child_route(route, p2, depth),
        (spec_child_route(route, p1, depth) >> ((4 * depth) as u32)) & 0xF == p1,
{
    let sh = (4 * depth) as u32;
    assert(sh < 20);
    lemma_nibble(route, p1, sh);
    lemma_nibble(route, p2, sh);
}

proof fn lemma_nibble(route: u32, p: u32, sh: u32)
    by (bit_vector)
    requires
        sh < 20,
        p < 16,
        (route >> sh) & 0xF == 0,
    ensures
        (route | (p << sh)) >> sh & 0xF == p,
{
}

/// The transaction translator of the device on a hub port: none for a
/// high-speed device; the hub itself (slot, port) when the hub is high
/// speed; else the one the hub inherited.
pub open spec fn spec_child_tt(child_speed: u32, hub_speed: u32, hub_slot: u32, port: u32, parent_tt_slot: u32, parent_tt_port: u32) -> (u32, u32) {
    if child_speed == 3 {
        (0u32, 0u32)
    } else if hub_speed == 3 {
        (hub_slot, port)
    } else {
        (parent_tt_slot, parent_tt_port)
    }
}

/// The transaction translator of the device on a hub port.
pub fn child_tt(child_speed: u32, hub_speed: u32, hub_slot: u32, port: u32, parent_tt_slot: u32, parent_tt_port: u32) -> (r: (u32, u32))
    ensures
        r == spec_child_tt(child_speed, hub_speed, hub_slot, port, parent_tt_slot, parent_tt_port),
{
    if child_speed == 3 {
        (0, 0)
    } else if hub_speed == 3 {
        (hub_slot, port)
    } else {
        (parent_tt_slot, parent_tt_port)
    }
}

/// A hub port has left reset and is enabled.
pub open spec fn spec_hub_port_ready(status: u32) -> bool {
    status & (1u32 << 4u32) == 0 && status & (1u32 << 1u32) != 0
}

/// A hub port has left reset and is enabled.
pub fn hub_port_ready(status: u32) -> (r: bool)
    ensures
        r == spec_hub_port_ready(status),
{
    status & (1 << 4) == 0 && status & (1 << 1) != 0
}

// ---------------------------------------------------------------------------
// Waiting for an event
// ---------------------------------------------------------------------------

/// What to do after a poll of the event ring.
#[derive(Clone, Copy, PartialEq, Eq, Structural, Debug)]
pub enum WaitStep {
    /// The awaited event came: its completion code and slot.
    Done { code: u32, slot_id: u32 },
    /// The budget ran out: report code `CODE_TIMEOUT`.
    Timeout,
    /// Poll again.
    Continue,
}

/// A wait for an event of one type, with a budget of polls.
pub struct Waiter {
    expected: u32,
    budget: u32,
}

impl Waiter {
    pub closed spec fn spec_budget(&self) -> u32 {
        self.budget
    }

    pub closed spec fn spec_expected(&self) -> u32 {
        self.expected
    }

    /// Wait for an event of type `expected`.
    pub fn new(expected: u32) -> (r: Self)
        ensures
            r.spec_expected() == expected,
            r.spec_budget() == WAIT_BUDGET,
    {
        Waiter { expected, budget: WAIT_BUDGET }
    }

    /// Take the result of one poll.  The awaited event ends the wait; any
    /// other event, or none, costs one poll of the budget, and the wait
    /// times out when the budget is spent.
    pub fn step(&mut self, polled: Option<Event>) -> (r: WaitStep)
        requires
            old(self).spec_budget() > 0,
        ensures
            final(self).spec_expected() == old(self).spec_expected(),
            match polled {
                Some(e) if e.trb_type == old(self).spec_expected() => r == (WaitStep::Done { code: e.code, slot_id: e.slot_id })
                    && final(self).spec_budget() == old(self).spec_budget(),
                _ => final(self).spec_budget() == old(self).spec_budget() - 1 && (if final(self).spec_budget() == 0 {
                    r == WaitStep::Timeout
                } else {
                    r == WaitStep::Continue
                }),
            },
            r == WaitStep::Continue ==> final(self).spec_budget() > 0 && final(self).spec_budget() < old(self).spec_budget(),
    {
        match polled {
            Some(e) => {
                if e.trb_type == self.expected {
                    return WaitStep::Done { code: e.code, slot_id: e.slot_id };
                }
            },
            None => {},
        }
        self.budget = self.budget - 1;
        if self.budget == 0 {
            WaitStep::Timeout
        } else {
            WaitStep::Continue
        }
    }
}

} // verus!
