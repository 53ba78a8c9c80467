use tomorrow::controller::{ControllerReset, ControllerRun, RegAction};
use tomorrow::enumerate::{DeviceAction, DeviceScan};
use tomorrow::root_ports::{RootAction, RootScan};
use tomorrow::xhci::SlotContext;

/// A configuration descriptor set: configuration 1, one interface of
/// `class`, a HID descriptor, and interrupt IN endpoint 1 with 8-byte
/// packets polled every 10 ms.
fn config_set(class: u8) -> Vec<u8> {
    let mut v = vec![9, 2, 34, 0, 1, 1, 0, 0xA0, 50];
    v.extend_from_slice(&[9, 4, 0, 0, 1, class, 1, 1, 0]);
    v.extend_from_slice(&[9, 0x21, 0x11, 1, 0, 1, 0x22, 63, 0]);
    v.extend_from_slice(&[7, 5, 0x81, 3, 8, 0, 10]);
    v.resize(4096, 0);
    v
}

fn device_descriptor(class: u8) -> Vec<u8> {
    let mut v = vec![18, 1, 0, 2, class, 0, 0, 64, 0x6D, 0x04, 0x1C, 0xC3, 0, 1, 1, 2, 0, 1];
    v.resize(4096, 0);
    v
}

#[test]
fn high_speed_keyboard_is_set_up() {
    let (mut s, a) = DeviceScan::start(0, 1, 3, 0, 0, 0);
    assert_eq!(a, DeviceAction::EnableSlot);
    let a = s.step(1, 5, &[]);
    assert_eq!(
        a,
        DeviceAction::AddressDevice {
            slot_id: 5,
            slot: SlotContext { dw0: (3 << 20) | (1 << 27), dw1: 1 << 16, dw2: 0 },
            ep0_dw1: (64 << 16) | (4 << 3) | (3 << 1),
        }
    );
    let a = s.step(1, 0, &[]);
    assert_eq!(a, DeviceAction::ControlIn { setup: 0x0012_0000_0100_0680, length: 18 });
    let a = s.step(1, 0, &device_descriptor(0));
    assert_eq!(s.dev_class, 0);
    assert_eq!(a, DeviceAction::ControlIn { setup: 0x0200_0000_0200_0680, length: 512 });
    let a = s.step(13, 0, &config_set(3));
    assert_eq!(a, DeviceAction::ControlOut { setup: 0x0000_0000_0001_0900 });
    let a = s.step(1, 0, &[]);
    assert_eq!(a, DeviceAction::ControlOut { setup: 0x0B21 });
    // A refused boot protocol does not stop the set-up.
    let a = s.step(6, 0, &[]);
    assert_eq!(
        a,
        DeviceAction::ConfigureEndpoint { slot_id: 5, ep_idx: 3, max_packet: 8, interval: 10, speed: 3 }
    );
    let a = s.step(1, 0, &[]);
    assert_eq!(a, DeviceAction::QueueTransfer { slot_id: 5, ep_idx: 3 });
    let a = s.step(0, 0, &[]);
    assert_eq!(a, DeviceAction::Finished { keyboard: true });
    assert_eq!(s.step(0, 0, &[]), DeviceAction::Finished { keyboard: true });
}

#[test]
fn full_speed_device_is_probed_for_its_packet_size() {
    let (mut s, _) = DeviceScan::start(0x12, 2, 1, 7, 3, 1);
    let a = s.step(1, 9, &[]);
    assert_eq!(
        a,
        DeviceAction::AddressDevice {
            slot_id: 9,
            slot: SlotContext { dw0: 0x12 | (1 << 20) | (1 << 27), dw1: 2 << 16, dw2: 7 | (3 << 8) },
            ep0_dw1: (8 << 16) | (4 << 3) | (3 << 1),
        }
    );
    let a = s.step(1, 0, &[]);
    assert_eq!(a, DeviceAction::ControlIn { setup: 0x0008_0000_0100_0680, length: 8 });
    let a = s.step(1, 0, &device_descriptor(0)[..8]);
    assert_eq!(a, DeviceAction::EvaluateEp0 { slot_id: 9, ep0_max_packet: 64 });
    let a = s.step(1, 0, &[]);
    assert_eq!(a, DeviceAction::ControlIn { setup: 0x0012_0000_0100_0680, length: 18 });
}

#[test]
fn full_speed_probe_that_fails_skips_the_fix() {
    let (mut s, _) = DeviceScan::start(0, 1, 1, 0, 0, 0);
    s.step(1, 4, &[]);
    s.step(1, 0, &[]);
    let a = s.step(4, 0, &device_descriptor(0)[..8]);
    assert_eq!(a, DeviceAction::ControlIn { setup: 0x0012_0000_0100_0680, length: 18 });
}

#[test]
fn failed_descriptor_reads_leave_the_device_unknown() {
    let (mut s, _) = DeviceScan::start(0, 1, 3, 0, 0, 0);
    s.step(1, 4, &[]);
    s.step(1, 0, &[]);
    s.step(4, 0, &device_descriptor(9));
    assert_eq!(s.dev_class, 0xFF);
    let a = s.step(4, 0, &config_set(3));
    assert_eq!(s.config.iface_class, 0);
    assert_eq!(a, DeviceAction::Finished { keyboard: false });
}

#[test]
fn timed_out_command_recovers_the_ring() {
    let (mut s, _) = DeviceScan::start(0, 1, 3, 0, 0, 0);
    assert_eq!(s.step(0xFF, 0, &[]), DeviceAction::RecoverCommandRing);
    assert_eq!(s.step(0, 0, &[]), DeviceAction::Finished { keyboard: false });
    let (mut s, _) = DeviceScan::start(0, 1, 3, 0, 0, 0);
    assert_eq!(s.step(9, 0, &[]), DeviceAction::Finished { keyboard: false });
    let (mut s, _) = DeviceScan::start(0, 1, 3, 0, 0, 0);
    s.step(1, 2, &[]);
    assert_eq!(s.step(0xFF, 0, &[]), DeviceAction::RecoverCommandRing);
}

#[test]
fn refused_configuration_ends_the_keyboard() {
    let (mut s, _) = DeviceScan::start(0, 1, 3, 0, 0, 0);
    s.step(1, 2, &[]);
    s.step(1, 0, &[]);
    s.step(1, 0, &device_descriptor(0));
    s.step(1, 0, &config_set(3));
    assert_eq!(s.step(6, 0, &[]), DeviceAction::Finished { keyboard: false });
}

#[test]
fn hub_is_configured_then_walked() {
    let (mut s, _) = DeviceScan::start(0, 3, 3, 0, 0, 0);
    s.step(1, 6, &[]);
    s.step(1, 0, &[]);
    s.step(1, 0, &device_descriptor(9));
    let a = s.step(1, 0, &config_set(9));
    assert_eq!(a, DeviceAction::ControlOut { setup: 0x0000_0000_0001_0900 });
    let a = s.step(1, 0, &[]);
    assert_eq!(a, DeviceAction::ControlIn { setup: 0x0008_0000_2900_06A0, length: 8 });
    let hub = [9u8, 0x29, 4, 0x60, 0x00, 50, 0, 0];
    let a = s.step(1, 0, &hub);
    assert_eq!(a, DeviceAction::ConfigureHub { slot_id: 6, nbr_ports: 4, think_time: 3 });
    let a = s.step(1, 0, &[]);
    assert_eq!(a, DeviceAction::WalkHub { slot_id: 6, nbr_ports: 4 });
    assert_eq!(s.step(1, 0, &[]), DeviceAction::Finished { keyboard: true });
}

#[test]
fn hub_too_deep_is_ignored() {
    let (mut s, _) = DeviceScan::start(0x1111, 3, 3, 0, 0, 4);
    s.step(1, 6, &[]);
    s.step(1, 0, &[]);
    s.step(1, 0, &device_descriptor(9));
    assert_eq!(s.step(1, 0, &config_set(9)), DeviceAction::Finished { keyboard: false });
}

#[test]
fn root_ports_are_powered_reset_and_enumerated() {
    let (mut r, a) = RootScan::start(2);
    assert_eq!(a, RootAction::ReadPortsc { port: 0 });
    assert_eq!(r.step(0), RootAction::WritePortsc { port: 0, value: 0x200 });
    assert_eq!(r.step(0), RootAction::ReadPortsc { port: 1 });
    assert_eq!(r.step(1), RootAction::WritePortsc { port: 1, value: 0x201 });
    assert_eq!(r.step(0), RootAction::Sleep { ms: 200 });
    assert_eq!(r.step(0), RootAction::ConsumeEvent);
    assert_eq!(r.step(34), RootAction::ConsumeEvent);
    assert_eq!(r.step(0), RootAction::ReadPortsc { port: 0 });
    // Nothing on port 0.
    assert_eq!(r.step(0x200), RootAction::ReadPortsc { port: 1 });
    // A device on port 1, with a connect change pending that the reset
    // write must not clear.
    assert_eq!(r.step(0x0002_0201), RootAction::WritePortsc { port: 1, value: 0x211 });
    assert_eq!(r.step(0), RootAction::Sleep { ms: 50 });
    assert_eq!(r.step(0), RootAction::ReadPortsc { port: 1 });
    assert_eq!(r.step(0x211), RootAction::ReadPortsc { port: 1 });
    assert_eq!(r.step(0x0010_0E03), RootAction::WritePortsc { port: 1, value: 0x00FE_0E01 });
    assert_eq!(r.step(0), RootAction::ReadPortsc { port: 1 });
    assert_eq!(
        r.step(0x0E03),
        RootAction::EnumerateDevice { route: 0, root_port: 2, speed: 3, tt_slot: 0, tt_port: 0, depth: 0 }
    );
    assert_eq!(r.step(1), RootAction::Finished { keyboard: true });
}

#[test]
fn root_port_that_stays_disabled_is_passed_over() {
    let (mut r, _) = RootScan::start(1);
    r.step(0);
    r.step(0);
    r.step(0);
    assert_eq!(r.step(0), RootAction::ReadPortsc { port: 0 });
    r.step(1);
    r.step(0);
    r.step(0);
    assert_eq!(r.step(1), RootAction::Finished { keyboard: false });
}

#[test]
fn startup_events_are_let_go_at_most_sixty_four_times() {
    let (mut r, a) = RootScan::start(0);
    assert_eq!(a, RootAction::Sleep { ms: 200 });
    assert_eq!(r.step(0), RootAction::ConsumeEvent);
    for _ in 0..63 {
        assert_eq!(r.step(34), RootAction::ConsumeEvent);
    }
    assert_eq!(r.step(34), RootAction::Finished { keyboard: false });
}

#[test]
fn no_keyboard_on_any_root_port() {
    let (mut r, _) = RootScan::start(1);
    r.step(0);
    r.step(0);
    r.step(0);
    r.step(0);
    r.step(1);
    r.step(0);
    r.step(0);
    r.step(0x0603);
    r.step(0);
    assert_eq!(
        r.step(0x0603),
        RootAction::EnumerateDevice { route: 0, root_port: 1, speed: 1, tt_slot: 0, tt_port: 0, depth: 0 }
    );
    assert_eq!(r.step(0), RootAction::Finished { keyboard: false });
}

#[test]
fn running_controller_is_stopped_then_reset() {
    let (mut c, a) = ControllerReset::start();
    assert_eq!(a, RegAction::ReadUsbsts);
    // Running: HCH clear.
    assert_eq!(c.step(0), RegAction::ReadUsbcmd);
    assert_eq!(c.step(0x0000_0005), RegAction::WriteUsbcmd { value: 0x0000_0004 });
    assert_eq!(c.step(0), RegAction::ReadUsbsts);
    assert_eq!(c.step(0), RegAction::ReadUsbsts);
    // Halted now.
    assert_eq!(c.step(1), RegAction::ReadUsbcmd);
    assert_eq!(c.step(0x0000_0004), RegAction::WriteUsbcmd { value: 0x0000_0006 });
    assert_eq!(c.step(0), RegAction::ReadUsbcmd);
    assert_eq!(c.step(0x0000_0002), RegAction::ReadUsbcmd);
    assert_eq!(c.step(0), RegAction::ReadUsbsts);
    assert_eq!(c.step(0x0000_0801), RegAction::ReadUsbsts);
    assert_eq!(c.step(0x0000_0001), RegAction::Finished { ok: true });
    assert_eq!(c.step(0), RegAction::Finished { ok: true });
}

#[test]
fn halted_controller_is_reset_at_once() {
    let (mut c, _) = ControllerReset::start();
    assert_eq!(c.step(1), RegAction::ReadUsbcmd);
    assert_eq!(c.step(0), RegAction::WriteUsbcmd { value: 2 });
}

#[test]
fn controller_that_stays_not_ready_ends_the_wait() {
    let (mut c, _) = ControllerReset::start();
    c.step(1);
    c.step(0);
    c.step(0);
    assert_eq!(c.step(0), RegAction::ReadUsbsts);
    let mut reads = 0u32;
    let mut a = c.step(0x800);
    while a == RegAction::ReadUsbsts {
        reads += 1;
        a = c.step(0x800);
    }
    assert_eq!(reads, 5_000_000);
    assert_eq!(a, RegAction::Finished { ok: false });
}

#[test]
fn controller_is_set_running() {
    let (mut r, a) = ControllerRun::start();
    assert_eq!(a, RegAction::ReadUsbcmd);
    assert_eq!(r.step(0x0000_0004), RegAction::WriteUsbcmd { value: 0x0000_0005 });
    assert_eq!(r.step(0), RegAction::ReadUsbsts);
    assert_eq!(r.step(1), RegAction::ReadUsbsts);
    assert_eq!(r.step(0), RegAction::Finished { ok: true });
}

#[test]
fn keyboard_without_an_interrupt_endpoint_is_given_up() {
    let mut cfg = vec![9u8, 2, 18, 0, 1, 1, 0, 0xA0, 50];
    cfg.extend_from_slice(&[9, 4, 0, 0, 0, 3, 1, 1, 0]);
    cfg.resize(4096, 0);
    let (mut s, _) = DeviceScan::start(0, 1, 3, 0, 0, 0);
    s.step(1, 5, &[]);
    s.step(1, 0, &[]);
    s.step(1, 0, &device_descriptor(0));
    assert_eq!(s.step(1, 0, &cfg), DeviceAction::ControlOut { setup: 0x0000_0000_0001_0900 });
    s.step(1, 0, &[]);
    assert_eq!(
        s.step(1, 0, &[]),
        DeviceAction::ConfigureEndpoint { slot_id: 5, ep_idx: 0, max_packet: 0, interval: 0, speed: 3 }
    );
    assert_eq!(s.step(1, 0, &[]), DeviceAction::Finished { keyboard: false });
}
