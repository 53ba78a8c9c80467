use tomorrow::hid::{hid_keycode_to_char, HidKeyboard, HidPoll, PollStep};
use tomorrow::hub::{HubAction, HubScan};
use tomorrow::pci::{
    bar0, bios_owned, claim_ownership, config_address, first_ext_cap, is_xhci, smi_disabled, CapStep, CapWalk,
    PciHeader, PciScan, ScanStep,
};
use tomorrow::usb::{
    completion_ok, get_config_descriptor_setup, get_device_descriptor_setup, get_hub_descriptor_setup,
    hub_clear_port_feature, hub_get_port_status, hub_set_port_feature, parse_config_descriptor,
    parse_device_descriptor, parse_hub_descriptor, set_configuration, set_protocol, setup_packet, ConfigInfo,
};
use tomorrow::xhci::{
    add_flags, child_route, child_speed, child_tt, classify, decode_capabilities, ep0_context_dw1,
    ep0_max_packet, ep_index, fs_max_packet_fix, hid_endpoint_context, hub_port_ready, hub_slot_context,
    port_clear_changes_value, port_reset_value, port_speed, slot_context, with_context_entries, xhci_interval,
    DeviceRole, SlotContext, WaitStep, Waiter,
};
use tomorrow::xhci_ring::{
    Event, EventRing, ProducerRing, Trb, EVT_CMD_COMPL, EVT_TRANSFER, LINK_INDEX, TRB_ENABLE_SLOT, TRB_LINK,
    TRB_NOOP,
};

#[test]
fn setup_packets_match_the_requests() {
    assert_eq!(get_device_descriptor_setup(18), 0x0012_0000_0100_0680);
    assert_eq!(get_device_descriptor_setup(8), 0x0008_0000_0100_0680);
    assert_eq!(get_config_descriptor_setup(), 0x0200_0000_0200_0680);
    assert_eq!(get_hub_descriptor_setup(), 0x0008_0000_2900_06A0);
    assert_eq!(set_configuration(1), 0x0000_0000_0001_0900);
    assert_eq!(set_protocol(), 0x0B21);
    assert_eq!(hub_set_port_feature(8, 3), 0x0000_0003_0008_0323);
    assert_eq!(hub_clear_port_feature(16, 2), 0x0000_0002_0010_0123);
    assert_eq!(hub_get_port_status(4), 0x0004_0004_0000_00A3);
    assert_eq!(setup_packet(0x80, 6, 0x0100, 0, 18), 0x0012_0000_0100_0680);
}

#[test]
fn completion_codes() {
    assert!(completion_ok(1));
    assert!(completion_ok(13));
    assert!(!completion_ok(4));
    assert!(!completion_ok(0xFF));
}

#[test]
fn device_descriptor_fields() {
    let d = [18u8, 1, 0x00, 0x02, 9, 0, 1, 64, 0x09, 0x21, 0x11, 0x54, 0, 1, 0, 0, 0, 1];
    let r = parse_device_descriptor(&d);
    assert_eq!(r.class, 9);
    assert_eq!(r.max_packet0, 64);
    assert_eq!(r.vendor, 0x2109);
    assert_eq!(r.product, 0x5411);
}

fn keyboard_config() -> Vec<u8> {
    let mut v = vec![9u8, 2, 34, 0, 1, 1, 0, 0xA0, 50];
    v.extend_from_slice(&[9, 4, 0, 0, 1, 3, 1, 1, 0]); // interface: HID boot keyboard
    v.extend_from_slice(&[9, 0x21, 0x11, 0x01, 0, 1, 0x22, 63, 0]); // HID descriptor
    v.extend_from_slice(&[7, 5, 0x81, 3, 8, 0, 10]); // interrupt IN, 8 bytes, 10 ms
    v.resize(4096, 0);
    v
}

#[test]
fn config_descriptor_finds_the_interrupt_endpoint() {
    let c = parse_config_descriptor(&keyboard_config());
    assert_eq!(c, ConfigInfo { config_value: 1, ep_addr: 0x81, interval: 10, max_packet: 8, iface_class: 3 });
}

#[test]
fn config_descriptor_without_interrupt_endpoint() {
    let mut v = vec![9u8, 2, 25, 0, 1, 2, 0, 0xA0, 50];
    v.extend_from_slice(&[9, 4, 0, 0, 1, 8, 6, 80, 0]); // mass storage
    v.extend_from_slice(&[7, 5, 0x81, 2, 0, 2, 0]); // bulk IN
    v.resize(4096, 0);
    let c = parse_config_descriptor(&v);
    assert_eq!(c, ConfigInfo { config_value: 2, ep_addr: 0, interval: 0, max_packet: 0, iface_class: 8 });
}

#[test]
fn hub_descriptor_fields() {
    let h = parse_hub_descriptor(&[9, 0x29, 4, 0x69, 0x00, 50, 0, 0]);
    assert_eq!(h.nbr_ports, 4);
    assert_eq!(h.think_time, 3);
}

#[test]
fn command_ring_laps() {
    let mut r = ProducerRing::new(0x5000);
    assert_eq!(r.trb(LINK_INDEX as usize), Trb { param: 0x5000, status: 0, control: TRB_LINK | 2 | 1 });
    for i in 0..30 {
        assert_eq!(r.post(0, 0, TRB_ENABLE_SLOT), i);
    }
    assert_eq!(r.trb(29).control, TRB_ENABLE_SLOT | 1);
    assert_eq!(r.post(0x77, 0, TRB_ENABLE_SLOT), 30);
    // The lap closed: back to slot 0, cycle 0, Link TRB with cycle 1.
    assert_eq!((r.enq(), r.pcs()), (0, 0));
    assert_eq!(r.trb(LINK_INDEX as usize).control, TRB_LINK | 2 | 1);
    assert_eq!(r.post(0, 0, TRB_ENABLE_SLOT), 0);
    assert_eq!(r.trb(0).control, TRB_ENABLE_SLOT);
}

#[test]
fn control_transfers_fit_before_the_link() {
    let mut r = ProducerRing::new(0x6000);
    let at = r.control_in(0x0012_0000_0100_0680, 0x9000, 18);
    assert_eq!(at, 0);
    assert_eq!(r.trb(0), Trb { param: 0x0012_0000_0100_0680, status: 8, control: (2 << 10) | (1 << 6) | (3 << 16) | 1 });
    assert_eq!(r.trb(1), Trb { param: 0x9000, status: 18, control: (3 << 10) | (1 << 16) | 1 });
    assert_eq!(r.trb(2), Trb { param: 0, status: 0, control: (4 << 10) | (1 << 5) | 1 });
    for _ in 0..9 {
        r.control_in(0, 0x9000, 8);
    }
    assert_eq!(r.enq(), 30);
    // Two TRBs do not fit in slot 30: No-Op, close the lap, start over.
    let at = r.control_out_nodata(0x0B21);
    assert_eq!(at, 0);
    assert_eq!(r.trb(30).control, TRB_NOOP | 1);
    assert_eq!(r.trb(LINK_INDEX as usize).control, TRB_LINK | 2 | 1);
    assert_eq!(r.pcs(), 0);
    assert_eq!(r.trb(0), Trb { param: 0x0B21, status: 8, control: (2 << 10) | (1 << 6) });
    assert_eq!(r.trb(1), Trb { param: 0, status: 0, control: (4 << 10) | (1 << 16) | (1 << 5) });
}

#[test]
fn reserve_leaves_room_alone_when_it_fits() {
    let mut r = ProducerRing::new(0x6000);
    r.reserve(3);
    assert_eq!((r.enq(), r.pcs()), (0, 1));
    let at = r.queue_normal(0xA000);
    assert_eq!(at, 0);
    assert_eq!(r.trb(0), Trb { param: 0xA000, status: 8, control: (1 << 10) | (1 << 5) | 1 });
}

#[test]
fn event_ring_takes_only_written_events() {
    let mut e = EventRing::new();
    assert_eq!(e.consume(0, 0), None);
    assert_eq!(e.deq(), 0);
    let ev = e.consume((EVT_CMD_COMPL << 10) | (5 << 24) | 1, 1 << 24);
    assert_eq!(ev, Some(Event { trb_type: EVT_CMD_COMPL, code: 1, slot_id: 5 }));
    assert_eq!(e.deq(), 1);
    assert_eq!(e.erdp(0x8000), 0x8010 | 8);
    for _ in 1..256 {
        assert!(e.consume(1, 0).is_some());
    }
    // One lap: the consumer cycle is now 0.
    assert_eq!(e.deq(), 0);
    assert_eq!(e.consume(1, 0), None);
    assert!(e.consume(0, 0).is_some());
}

#[test]
fn waiting_ends_on_the_event_or_the_budget() {
    let mut w = Waiter::new(EVT_TRANSFER);
    assert_eq!(w.step(None), WaitStep::Continue);
    assert_eq!(w.step(Some(Event { trb_type: 34, code: 1, slot_id: 0 })), WaitStep::Continue);
    assert_eq!(w.step(Some(Event { trb_type: EVT_TRANSFER, code: 13, slot_id: 2 })), WaitStep::Done { code: 13, slot_id: 2 });
    let mut w = Waiter::new(EVT_CMD_COMPL);
    let mut n = 0u64;
    loop {
        n += 1;
        match w.step(None) {
            WaitStep::Continue => {},
            WaitStep::Timeout => break,
            WaitStep::Done { .. } => panic!("no event was handed in"),
        }
    }
    assert_eq!(n, 10_000_000);
}

#[test]
fn capability_registers() {
    let c = decode_capabilities(0xF000_0000, 0x0100_0020, 0x0400_0840, (3 << 21) | (5 << 27), 1 << 2, 0x2000, 0x3000);
    assert_eq!(c.cap_length, 0x20);
    assert_eq!(c.max_slots, 0x40);
    assert_eq!(c.max_ports, 4);
    assert_eq!(c.ctx_size, 64);
    assert_eq!(c.max_scratch, 3 * 32 + 5);
    assert_eq!(c.op_base, 0xF000_0020);
    assert_eq!(c.db_base, 0xF000_2000);
    assert_eq!(c.rt_base, 0xF000_3000);
}

#[test]
fn port_register_values() {
    assert_eq!(port_reset_value(0x0020_0203), (0x0020_0203 & !0x00FF_F1FE) | (1 << 4));
    assert_eq!(port_reset_value(0x0020_0203), 0x211);
    assert_eq!(port_clear_changes_value(0x0022_1603), 0x00FE_0001 | 0x600);
    assert_eq!(port_speed(0x0000_1203), 4);
}

#[test]
fn device_contexts() {
    assert_eq!(ep0_max_packet(1), 8);
    assert_eq!(ep0_max_packet(2), 8);
    assert_eq!(ep0_max_packet(3), 64);
    assert_eq!(ep0_max_packet(4), 512);
    assert_eq!(slot_context(0x21, 2, 3, 5, 1), SlotContext { dw0: 0x21 | (2 << 20) | (1 << 27), dw1: 3 << 16, dw2: 5 | (1 << 8) });
    assert_eq!(ep0_context_dw1(3), (64 << 16) | (4 << 3) | (3 << 1));
    assert_eq!(ep_index(0x81), 3);
    assert_eq!(ep_index(0x02), 4);
    assert_eq!(add_flags(3), 0b1001);
    assert_eq!(with_context_entries(0xF800_1234, 3), 0x1800_1234);
    let h = hub_slot_context(SlotContext { dw0: 0x0810_0000, dw1: 0x0003_0000, dw2: 0x0003_0000 }, 4, 2);
    assert_eq!(h, SlotContext { dw0: 0x0C10_0000, dw1: 0x0403_0000, dw2: 0x0002_0000 });
}

#[test]
fn endpoint_intervals() {
    // Full speed: 10 ms -> 2^(3+3) microframes of 125 us = 8 ms.
    assert_eq!(xhci_interval(10, 1), 6);
    assert_eq!(xhci_interval(1, 2), 3);
    assert_eq!(xhci_interval(255, 1), 10);
    assert_eq!(xhci_interval(0, 1), 3);
    // High speed: bInterval - 1, at most 15.
    assert_eq!(xhci_interval(4, 3), 3);
    assert_eq!(xhci_interval(0, 3), 0);
    assert_eq!(xhci_interval(40, 4), 15);
    let e = hid_endpoint_context(8, 10, 1, 0xB000);
    assert_eq!(e.dw0, 6 << 16);
    assert_eq!(e.dw1, (8 << 16) | (7 << 3) | (3 << 1));
    assert_eq!(e.dequeue, 0xB001);
    assert_eq!(e.dw4, 8);
}

#[test]
fn enumeration_decisions() {
    assert_eq!(classify(0, 3, 0), DeviceRole::Keyboard);
    assert_eq!(classify(9, 9, 0), DeviceRole::Hub);
    assert_eq!(classify(9, 0, 4), DeviceRole::Ignore);
    assert_eq!(classify(0, 8, 0), DeviceRole::Ignore);
    assert_eq!(fs_max_packet_fix(1, 1, 64), Some(64));
    assert_eq!(fs_max_packet_fix(1, 1, 8), None);
    assert_eq!(fs_max_packet_fix(1, 4, 64), None);
    assert_eq!(fs_max_packet_fix(3, 1, 64), None);
    assert_eq!(child_speed(1 << 9), 2);
    assert_eq!(child_speed(1 << 10), 3);
    assert_eq!(child_speed(0x103), 1);
    assert_eq!(child_route(0x3, 2, 1), 0x23);
    assert_eq!(child_route(0, 20, 0), 15);
    assert_eq!(child_tt(3, 3, 4, 2, 0, 0), (0, 0));
    assert_eq!(child_tt(1, 3, 4, 2, 0, 0), (4, 2));
    assert_eq!(child_tt(1, 1, 4, 2, 7, 3), (7, 3));
    assert!(hub_port_ready(0x0103));
    assert!(!hub_port_ready(0x0113));
    assert!(!hub_port_ready(0x0101));
}

#[test]
fn hid_keys_map_to_ascii() {
    assert_eq!(hid_keycode_to_char(0x04, false), Some(b'a'));
    assert_eq!(hid_keycode_to_char(0x04, true), Some(b'A'));
    assert_eq!(hid_keycode_to_char(0x1E, true), Some(b'!'));
    assert_eq!(hid_keycode_to_char(0x27, false), Some(b'0'));
    assert_eq!(hid_keycode_to_char(0x28, false), Some(b'\n'));
    assert_eq!(hid_keycode_to_char(0x2A, true), Some(8));
    assert_eq!(hid_keycode_to_char(0x38, true), Some(b'?'));
    assert_eq!(hid_keycode_to_char(0x29, false), None);
    assert_eq!(hid_keycode_to_char(0x00, false), None);
}

#[test]
fn held_keys_repeat_nothing() {
    let mut k = HidKeyboard::new();
    assert_eq!(k.report(&[0, 0, 0x0B, 0, 0, 0, 0, 0]), b"h".to_vec());
    assert_eq!(k.report(&[0, 0, 0x0B, 0, 0, 0, 0, 0]), Vec::<u8>::new());
    assert_eq!(k.report(&[0x02, 0, 0x0B, 0x0C, 0, 0, 0, 0]), b"I".to_vec());
    assert_eq!(k.report(&[0, 0, 0, 0, 0, 0, 0, 0]), Vec::<u8>::new());
    assert_eq!(k.report(&[0x20, 0, 0x0B, 0x0C, 0x2C, 0, 0, 0]), b"HI ".to_vec());
}

#[test]
fn pci_helpers() {
    assert_eq!(config_address(0xE000_0000, 0, 3, 0), 0xE001_8000);
    assert_eq!(config_address(0xE000_0000, 1, 0, 2), 0xE010_2000);
    assert!(is_xhci(0x0C, 0x03, 0x30));
    assert!(!is_xhci(0x0C, 0x03, 0x20));
    assert_eq!(bar0(0xF000_0004, 0x1), 0x1_F000_0000);
    assert_eq!(first_ext_cap(0x0500_0000), 0x1400);
    assert_eq!(claim_ownership(0x0001_0001), 0x0101_0001);
    assert!(bios_owned(0x0001_0001));
    assert!(!bios_owned(0x0100_0001));
    assert_eq!(smi_disabled(0xE01F_FF1F), 0xE000_001F);
}

fn header(vendor: u16, class: u8, subclass: u8, progif: u8) -> PciHeader {
    PciHeader { vendor, class, subclass, progif, bar0_lo: 0xFE00_0004, bar0_hi: 0 }
}

#[test]
fn pci_scan_stops_at_the_controller() {
    let (mut s, first) = PciScan::new();
    assert_eq!(first, ScanStep::Read { bus: 0, dev: 0, fun: 0 });
    assert_eq!(s.step(header(0x8086, 6, 0, 0)), ScanStep::Read { bus: 0, dev: 0, fun: 1 });
    for f in 2..8 {
        assert_eq!(s.step(header(0xFFFF, 0, 0, 0)), ScanStep::Read { bus: 0, dev: 0, fun: f });
    }
    assert_eq!(s.step(header(0xFFFF, 0, 0, 0)), ScanStep::Read { bus: 0, dev: 1, fun: 0 });
    assert_eq!(s.step(header(0x1B36, 0x0C, 0x03, 0x30)), ScanStep::Found { bus: 0, bar0: 0xFE00_0000 });
}

#[test]
fn pci_scan_without_controller() {
    let (mut s, _) = PciScan::new();
    let mut reads = 1u32;
    loop {
        match s.step(header(0xFFFF, 0x0C, 0x03, 0x30)) {
            ScanStep::Read { .. } => reads += 1,
            ScanStep::NotFound => break,
            ScanStep::Found { .. } => panic!("absent functions are not controllers"),
        }
    }
    assert_eq!(reads, 256 * 32 * 8);
}

#[test]
fn extended_capability_walk() {
    let (mut w, first) = CapWalk::new(0x0020_0000);
    assert_eq!(first, CapStep::Read { off: 0x80 });
    // A capability with ID 2 pointing 4 dwords on.
    assert_eq!(w.step(0x0000_0402), CapStep::Read { off: 0x90 });
    assert_eq!(w.step(0x0000_0001), CapStep::Legacy { off: 0x90 });
    let (mut w, _) = CapWalk::new(0x0020_0000);
    assert_eq!(w.step(0x0000_0002), CapStep::Done);
    let (_, first) = CapWalk::new(0);
    assert_eq!(first, CapStep::Done);
}

#[test]
fn hub_walk_powers_resets_and_enumerates() {
    let (mut h, a) = HubScan::start(2, 0, 1, 3, 4, 0, 0, 0);
    assert_eq!(a, HubAction::SetPortFeature { feature: 8, port: 1 });
    assert_eq!(h.step(0), HubAction::SetPortFeature { feature: 8, port: 2 });
    assert_eq!(h.step(0), HubAction::Sleep { ms: 100 });
    assert_eq!(h.step(0), HubAction::ClearPortFeature { feature: 16, port: 1 });
    assert_eq!(h.step(0), HubAction::GetPortStatus { port: 1 });
    // Nothing on port 1.
    assert_eq!(h.step(0x100), HubAction::ClearPortFeature { feature: 16, port: 2 });
    assert_eq!(h.step(0), HubAction::GetPortStatus { port: 2 });
    assert_eq!(h.step(0x101), HubAction::SetPortFeature { feature: 4, port: 2 });
    assert_eq!(h.step(0), HubAction::Sleep { ms: 50 });
    assert_eq!(h.step(0), HubAction::GetPortStatus { port: 2 });
    // Still resetting.
    assert_eq!(h.step(0x111), HubAction::Sleep { ms: 10 });
    assert_eq!(h.step(0), HubAction::GetPortStatus { port: 2 });
    assert_eq!(h.step(0x103), HubAction::ClearPortFeature { feature: 20, port: 2 });
    assert_eq!(h.step(0), HubAction::Sleep { ms: 10 });
    assert_eq!(h.step(0), HubAction::GetPortStatus { port: 2 });
    // A low-speed keyboard behind a high-speed hub gets the hub as its TT.
    assert_eq!(
        h.step(0x303),
        HubAction::EnumerateChild { port: 2, route: 2, speed: 2, tt_hub_slot: 4, tt_port: 2, depth: 1 }
    );
    assert_eq!(h.step(1), HubAction::Finished { keyboard: true });
    assert_eq!(h.step(0), HubAction::Finished { keyboard: true });
}

#[test]
fn hub_walk_gives_up_a_port_that_never_leaves_reset() {
    let (mut h, _) = HubScan::start(1, 0, 1, 2, 4, 0, 0, 0);
    assert_eq!(h.step(0), HubAction::Sleep { ms: 100 });
    assert_eq!(h.step(0), HubAction::ClearPortFeature { feature: 16, port: 1 });
    assert_eq!(h.step(0), HubAction::GetPortStatus { port: 1 });
    assert_eq!(h.step(0x101), HubAction::SetPortFeature { feature: 4, port: 1 });
    assert_eq!(h.step(0), HubAction::Sleep { ms: 50 });
    assert_eq!(h.step(0), HubAction::GetPortStatus { port: 1 });
    let mut polls = 0;
    loop {
        polls += 1;
        match h.step(0x111) {
            HubAction::Sleep { ms: 10 } => {
                assert_eq!(h.step(0), HubAction::GetPortStatus { port: 1 });
            },
            HubAction::ClearPortFeature { feature: 20, port: 1 } => break,
            other => panic!("unexpected {:?}", other),
        }
    }
    assert_eq!(polls, 20);
}

#[test]
fn hub_walk_without_ports() {
    let (mut h, a) = HubScan::start(0, 0, 1, 3, 4, 0, 0, 0);
    assert_eq!(a, HubAction::Sleep { ms: 100 });
    assert_eq!(h.step(0), HubAction::Finished { keyboard: false });
}

#[test]
fn poll_reads_each_transfer_and_requeues_once() {
    let (mut p, s) = HidPoll::start(true);
    assert_eq!(s, PollStep::TakeEvent);
    // A port change is let go.
    assert_eq!(p.step(Some(34)), PollStep::TakeEvent);
    assert_eq!(p.step(Some(32)), PollStep::ReadReport);
    assert_eq!(p.step(None), PollStep::TakeEvent);
    assert_eq!(p.step(Some(32)), PollStep::ReadReport);
    assert_eq!(p.step(None), PollStep::TakeEvent);
    assert_eq!(p.step(None), PollStep::Requeue);
    assert_eq!(p.step(None), PollStep::Done);
}

#[test]
fn poll_without_transfers_queues_nothing() {
    let (mut p, _) = HidPoll::start(true);
    assert_eq!(p.step(Some(33)), PollStep::TakeEvent);
    assert_eq!(p.step(None), PollStep::Done);
    let (_, s) = HidPoll::start(false);
    assert_eq!(s, PollStep::Done);
}

#[test]
fn only_the_layout_usages_give_characters() {
    let mut with = 0;
    for code in 0u8..=255 {
        let some = hid_keycode_to_char(code, false).is_some();
        let expected = (0x04..=0x28).contains(&code)
            || code == 0x2A
            || (0x2C..=0x30).contains(&code)
            || (0x33..=0x38).contains(&code);
        assert_eq!(some, expected, "usage {:#x}", code);
        if let Some(c) = hid_keycode_to_char(code, true) {
            assert!(c < 0x80);
            with += 1;
        }
    }
    assert_eq!(with, 49);
    assert_eq!(hid_keycode_to_char(0x28, true), Some(b'\n'));
    assert_eq!(hid_keycode_to_char(0x2A, true), Some(8));
    assert_eq!(hid_keycode_to_char(0x2C, true), Some(b' '));
    assert_eq!(hid_keycode_to_char(0x29, false), None);
    assert_eq!(hid_keycode_to_char(0x2B, true), None);
}
