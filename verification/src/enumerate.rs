//! Enumerating one USB device: address it, read its descriptors, and set
//! it up as the keyboard or as a hub whose ports are then walked.
//!
//! The enumeration is a state machine: the kernel performs each action on
//! the controller and hands back the completion code, the slot id and the
//! bytes it read, and the machine says what to do next.
use vstd::prelude::*;
use crate::usb::{
    ConfigInfo, spec_completion_ok, spec_parse_config, completion_ok, parse_device_descriptor,
    parse_config_descriptor, parse_hub_descriptor, get_device_descriptor_setup, get_config_descriptor_setup,
    get_hub_descriptor_setup, set_configuration, set_protocol, setup, REQ_GET_DESCRIPTOR,
    REQ_SET_CONFIGURATION, REQ_SET_PROTOCOL,
};
use crate::xhci::{
    SlotContext, slot_context, ep0_context_dw1, fs_max_packet_fix, classify, DeviceRole, ep_index,
    spec_ep_index, spec_ep0_max_packet, CODE_TIMEOUT, MAX_HUB_DEPTH,
};
use crate::bytes::u16_at;

verus! {

/// Completion code of a command that succeeded.
pub const CODE_SUCCESS: u32 = 1;
/// Bytes of the probe that a full-speed device answers before its EP0 max
/// packet size is known.
pub const PROBE_LEN: u16 = 8;
/// Bytes of a device descriptor.
pub const DEVICE_DESCRIPTOR_LEN: u16 = 18;
/// Bytes asked for of the configuration descriptor set.
pub const CONFIG_LEN: u16 = 512;
/// Bytes asked for of a hub descriptor.
pub const HUB_DESCRIPTOR_LEN: u16 = 8;
/// Device class that a failed read of the device descriptor stands for.
pub const CLASS_UNKNOWN: u8 = 0xFF;

/// What the kernel does next for the device.
#[derive(Clone, Copy, PartialEq, Eq, Structural, Debug)]
pub enum DeviceAction {
    /// Drop pending events, post Enable Slot and wait for its completion;
    /// hand back the code and the slot id.
    EnableSlot,
    /// Post Address Device for the slot, with this slot context and an EP0
    /// context of word 1 `ep0_dw1` on a fresh transfer ring; hand back the
    /// code.
    AddressDevice { slot_id: u32, slot: SlotContext, ep0_dw1: u32 },
    /// A control IN transfer on EP0 with this setup packet into a buffer of
    /// `length` bytes; hand back the code and the buffer.
    ControlIn { setup: u64, length: u16 },
    /// A control OUT transfer without data; hand back the code.
    ControlOut { setup: u64 },
    /// Post Evaluate Context setting the EP0 max packet size.
    EvaluateEp0 { slot_id: u32, ep0_max_packet: u32 },
    /// Post Configure Endpoint for the interrupt IN endpoint at context
    /// index `ep_idx`, with its max packet size and raw interval, at the
    /// device's speed; hand back the code.
    ConfigureEndpoint { slot_id: u32, ep_idx: u64, max_packet: u16, interval: u8, speed: u32 },
    /// Queue the first transfer of the keyboard's endpoint.
    QueueTransfer { slot_id: u32, ep_idx: u64 },
    /// Post Configure Endpoint marking the slot as a hub with this number
    /// of ports and TT think time; hand back the code.
    ConfigureHub { slot_id: u32, nbr_ports: u8, think_time: u32 },
    /// Walk the ports of the hub; hand back 1 if a keyboard was found
    /// behind it, else 0.
    WalkHub { slot_id: u32, nbr_ports: u8 },
    /// Bring the command ring back after a command that timed out.
    RecoverCommandRing,
    /// The enumeration is over.
    Finished { keyboard: bool },
}

/// The action last asked for.
#[derive(Clone, Copy, PartialEq, Eq, Structural, Debug)]
pub enum DevicePhase {
    EnableSlot,
    AddressDevice,
    Probe,
    Evaluate,
    DeviceDescriptor,
    ConfigDescriptor,
    SetConfiguration,
    SetProtocol,
    ConfigureEndpoint,
    QueueTransfer,
    HubSetConfiguration,
    HubDescriptor,
    HubSlot,
    Hub,
    Recover,
    Done { keyboard: bool },
}

/// Bytes the kernel hands back after the action of `phase`.
pub open spec fn reply_len(phase: DevicePhase) -> nat {
    match phase {
        DevicePhase::Probe => PROBE_LEN as nat,
        DevicePhase::DeviceDescriptor => DEVICE_DESCRIPTOR_LEN as nat,
        DevicePhase::ConfigDescriptor => 6,
        DevicePhase::HubDescriptor => HUB_DESCRIPTOR_LEN as nat,
        _ => 0,
    }
}

/// The enumeration of one device.
#[derive(Clone, Copy, PartialEq, Eq, Structural, Debug)]
pub struct DeviceScan {
    pub phase: DevicePhase,
    /// Where the device sits: route string, root hub port, speed, the
    /// transaction translator it uses and its tier.
    pub route: u32,
    pub root_port: u32,
    pub speed: u32,
    pub tt_slot: u32,
    pub tt_port: u32,
    pub depth: u32,
    /// What has been learnt: the slot, the device class and the
    /// configuration.
    pub slot_id: u32,
    pub dev_class: u8,
    pub config: ConfigInfo,
    /// Downstream ports of a hub, from its descriptor.
    pub nbr_ports: u8,
}

/// Steps left at most: the enumeration ends within this many actions.
pub open spec fn phase_rank(phase: DevicePhase) -> nat {
    match phase {
        DevicePhase::EnableSlot => 14,
        DevicePhase::AddressDevice => 13,
        DevicePhase::Probe => 12,
        DevicePhase::Evaluate => 11,
        DevicePhase::DeviceDescriptor => 10,
        DevicePhase::ConfigDescriptor => 9,
        DevicePhase::SetConfiguration => 8,
        DevicePhase::SetProtocol => 7,
        DevicePhase::ConfigureEndpoint => 6,
        DevicePhase::HubSetConfiguration => 5,
        DevicePhase::HubDescriptor => 4,
        DevicePhase::HubSlot => 3,
        DevicePhase::QueueTransfer => 2,
        DevicePhase::Hub => 2,
        DevicePhase::Recover => 1,
        DevicePhase::Done { .. } => 0,
    }
}

/// The action that follows a failed command: recover the ring after a
/// timeout, else give up.
pub open spec fn after_failed_command(code: u32) -> (DevicePhase, DeviceAction) {
    if code == CODE_TIMEOUT {
        (DevicePhase::Recover, DeviceAction::RecoverCommandRing)
    } else {
        (DevicePhase::Done { keyboard: false }, DeviceAction::Finished { keyboard: false })
    }
}

/// The request for the device descriptor.
pub open spec fn device_descriptor_request() -> DeviceAction {
    DeviceAction::ControlIn {
        setup: setup(0x80, REQ_GET_DESCRIPTOR, 0x0100, 0, DEVICE_DESCRIPTOR_LEN),
        length: DEVICE_DESCRIPTOR_LEN,
    }
}

/// An empty configuration: what a failed read of the configuration
/// descriptor set stands for.
pub open spec fn no_config() -> ConfigInfo {
    ConfigInfo { config_value: 0, ep_addr: 0, interval: 0, max_packet: 0, iface_class: 0 }
}

/// The slot context of a device at this place, and word 1 of its EP0
/// context.
pub open spec fn address_request(s: DeviceScan, slot_id: u32) -> DeviceAction {
    DeviceAction::AddressDevice {
        slot_id,
        slot: SlotContext {
            dw0: (s.route & 0xF_FFFF) | (s.speed << 20u32) | (1u32 << 27u32),
            dw1: s.root_port << 16u32,
            dw2: (s.tt_slot & 0xFF) | ((s.tt_port & 0xFF) << 8u32),
        },
        ep0_dw1: (spec_ep0_max_packet(s.speed) << 16u32) | (4u32 << 3u32) | (3u32 << 1u32),
    }
}

/// The enumeration ends, with or without a keyboard.
pub open spec fn device_done(s: DeviceScan, keyboard: bool) -> (DeviceScan, DeviceAction) {
    (DeviceScan { phase: DevicePhase::Done { keyboard }, ..s }, DeviceAction::Finished { keyboard })
}

/// A command did not succeed: recover the command ring after a timeout,
/// else give up.
pub open spec fn device_failed(s: DeviceScan, code: u32) -> (DeviceScan, DeviceAction) {
    let (phase, action) = after_failed_command(code);
    (DeviceScan { phase, ..s }, action)
}

/// One step of the enumeration of a device: the state after the reply to
/// the last action (`code`, the slot that Enable Slot gave, the bytes a
/// control IN transfer read) and the next action.  Enable Slot, then
/// Address Device; a full-speed device is probed for its EP0 packet size
/// (and the context fixed when it differs); then the device descriptor
/// (its class) and the configuration descriptor set, which decide: an
/// interface of class 3 is set up as the keyboard (configuration, boot
/// protocol whose refusal is let pass, its interrupt IN endpoint, the
/// first transfer); a hub within the depth limit is configured, its
/// descriptor read, its slot marked, and its ports walked; anything else
/// is left.  A command that fails ends it, after recovering the ring on a
/// timeout.
pub open spec fn device_next(s: DeviceScan, code: u32, slot_id: u32, data: Seq<u8>) -> (DeviceScan, DeviceAction) {
    match s.phase {
        DevicePhase::EnableSlot => if code == CODE_SUCCESS {
            (DeviceScan { phase: DevicePhase::AddressDevice, slot_id, ..s }, address_request(s, slot_id))
        } else {
            device_failed(s, code)
        },
        DevicePhase::AddressDevice => if code != CODE_SUCCESS {
            device_failed(s, code)
        } else if s.speed == 1 {
            (
                DeviceScan { phase: DevicePhase::Probe, ..s },
                DeviceAction::ControlIn { setup: setup(0x80, REQ_GET_DESCRIPTOR, 0x0100, 0, PROBE_LEN), length: PROBE_LEN },
            )
        } else {
            (DeviceScan { phase: DevicePhase::DeviceDescriptor, ..s }, device_descriptor_request())
        },
        DevicePhase::Probe => if s.speed == 1 && spec_completion_ok(code) && data[7] != 0 && data[7]
            != spec_ep0_max_packet(s.speed) {
            (
                DeviceScan { phase: DevicePhase::Evaluate, ..s },
                DeviceAction::EvaluateEp0 { slot_id: s.slot_id, ep0_max_packet: data[7] as u32 },
            )
        } else {
            (DeviceScan { phase: DevicePhase::DeviceDescriptor, ..s }, device_descriptor_request())
        },
        DevicePhase::Evaluate => (DeviceScan { phase: DevicePhase::DeviceDescriptor, ..s }, device_descriptor_request()),
        DevicePhase::DeviceDescriptor => (
            DeviceScan {
                phase: DevicePhase::ConfigDescriptor,
                dev_class: if spec_completion_ok(code) { data[4] } else { CLASS_UNKNOWN },
                ..s
            },
            DeviceAction::ControlIn { setup: setup(0x80, REQ_GET_DESCRIPTOR, 0x0200, 0, CONFIG_LEN), length: CONFIG_LEN },
        ),
        DevicePhase::ConfigDescriptor => {
            let cfg = if spec_completion_ok(code) { spec_parse_config(data) } else { no_config() };
            let set_config = DeviceAction::ControlOut {
                setup: setup(0x00, REQ_SET_CONFIGURATION, cfg.config_value as u16, 0, 0),
            };
            if cfg.iface_class == 3 {
                (DeviceScan { phase: DevicePhase::SetConfiguration, config: cfg, ..s }, set_config)
            } else if (s.dev_class == 9 || cfg.iface_class == 9) && s.depth < MAX_HUB_DEPTH {
                (DeviceScan { phase: DevicePhase::HubSetConfiguration, config: cfg, ..s }, set_config)
            } else {
                device_done(DeviceScan { config: cfg, ..s }, false)
            }
        },
        DevicePhase::SetConfiguration => if spec_completion_ok(code) {
            (
                DeviceScan { phase: DevicePhase::SetProtocol, ..s },
                DeviceAction::ControlOut { setup: setup(0x21, REQ_SET_PROTOCOL, 0, 0, 0) },
            )
        } else {
            device_done(s, false)
        },
        DevicePhase::SetProtocol => (
            DeviceScan { phase: DevicePhase::ConfigureEndpoint, ..s },
            DeviceAction::ConfigureEndpoint {
                slot_id: s.slot_id,
                ep_idx: spec_ep_index(s.config.ep_addr),
                max_packet: s.config.max_packet,
                interval: s.config.interval,
                speed: s.speed,
            },
        ),
        DevicePhase::ConfigureEndpoint => if code != CODE_SUCCESS {
            device_failed(s, code)
        } else if spec_ep_index(s.config.ep_addr) == 0 {
            device_done(s, false)
        } else {
            (
                DeviceScan { phase: DevicePhase::QueueTransfer, ..s },
                DeviceAction::QueueTransfer { slot_id: s.slot_id, ep_idx: spec_ep_index(s.config.ep_addr) },
            )
        },
        DevicePhase::QueueTransfer => device_done(s, true),
        DevicePhase::HubSetConfiguration => if spec_completion_ok(code) {
            (
                DeviceScan { phase: DevicePhase::HubDescriptor, ..s },
                DeviceAction::ControlIn {
                    setup: setup(0xA0, REQ_GET_DESCRIPTOR, 0x2900, 0, HUB_DESCRIPTOR_LEN),
                    length: HUB_DESCRIPTOR_LEN,
                },
            )
        } else {
            device_done(s, false)
        },
        DevicePhase::HubDescriptor => if spec_completion_ok(code) {
            (
                DeviceScan { phase: DevicePhase::HubSlot, nbr_ports: data[2], ..s },
                DeviceAction::ConfigureHub {
                    slot_id: s.slot_id,
                    nbr_ports: data[2],
                    think_time: ((u16_at(data, 3) as u32) >> 5u32) & 3,
                },
            )
        } else {
            device_done(s, false)
        },
        DevicePhase::HubSlot => if code == CODE_SUCCESS {
            (
                DeviceScan { phase: DevicePhase::Hub, ..s },
                DeviceAction::WalkHub { slot_id: s.slot_id, nbr_ports: s.nbr_ports },
            )
        } else {
            device_failed(s, code)
        },
        DevicePhase::Hub => device_done(s, code != 0),
        DevicePhase::Recover => device_done(s, false),
        DevicePhase::Done { keyboard } => (s, DeviceAction::Finished { keyboard }),
    }
}

impl DeviceScan {
    pub open spec fn same_place(&self, other: &Self) -> bool {
        &&& self.route == other.route
        &&& self.root_port == other.root_port
        &&& self.speed == other.speed
        &&& self.tt_slot == other.tt_slot
        &&& self.tt_port == other.tt_port
        &&& self.depth == other.depth
    }

    /// Start enumerating the device at this place: enable a slot.
    pub fn start(route: u32, root_port: u32, speed: u32, tt_slot: u32, tt_port: u32, depth: u32) -> (r: (
        Self,
        DeviceAction,
    ))
        ensures
            r.0.phase == DevicePhase::EnableSlot,
            r.0.route == route && r.0.root_port == root_port && r.0.speed == speed,
            r.0.tt_slot == tt_slot && r.0.tt_port == tt_port && r.0.depth == depth,
            r.1 == DeviceAction::EnableSlot,
    {
        let s = DeviceScan {
            phase: DevicePhase::EnableSlot,
            route,
            root_port,
            speed,
            tt_slot,
            tt_port,
            depth,
            slot_id: 0,
            dev_class: CLASS_UNKNOWN,
            config: ConfigInfo { config_value: 0, ep_addr: 0, interval: 0, max_packet: 0, iface_class: 0 },
            nbr_ports: 0,
        };
        (s, DeviceAction::EnableSlot)
    }

    /// Ask for the device descriptor.
    fn read_device_descriptor(&mut self) -> (r: DeviceAction)
        ensures
            *final(self) == (DeviceScan { phase: DevicePhase::DeviceDescriptor, ..*old(self) }),
            r == device_descriptor_request(),
    {
        self.phase = DevicePhase::DeviceDescriptor;
        DeviceAction::ControlIn {
            setup: get_device_descriptor_setup(DEVICE_DESCRIPTOR_LEN),
            length: DEVICE_DESCRIPTOR_LEN,
        }
    }

    /// After a command that did not succeed.
    fn command_failed(&mut self, code: u32) -> (r: DeviceAction)
        ensures
            (final(self).phase, r) == after_failed_command(code),
            (*final(self), r) == device_failed(*old(self), code),
            final(self).same_place(old(self)),
            final(self).slot_id == old(self).slot_id,
    {
        if code == CODE_TIMEOUT {
            self.phase = DevicePhase::Recover;
            DeviceAction::RecoverCommandRing
        } else {
            self.phase = DevicePhase::Done { keyboard: false };
            DeviceAction::Finished { keyboard: false }
        }
    }

    /// Take the reply to the last action and say what to do next.  `code`
    /// is its completion code, `slot_id` the slot that Enable Slot gave,
    /// and `data` the buffer of a control IN transfer; each is looked at
    /// only after the actions that produce it.
    pub fn step(&mut self, code: u32, slot_id: u32, data: &[u8]) -> (r: DeviceAction)
        requires
            data@.len() >= reply_len(old(self).phase),
        ensures
            final(self).same_place(old(self)),
            // The enumeration ends, or gets closer to its end.
            r is Finished || phase_rank(final(self).phase) < phase_rank(old(self).phase),
            final(self).phase is Done <==> r is Finished,
            (*final(self), r) == device_next(*old(self), code, slot_id, data@),
            // A slot is addressed with its place in the tree and the EP0
            // packet size of its speed.
            old(self).phase == DevicePhase::EnableSlot ==> if code == CODE_SUCCESS {
                &&& final(self).slot_id == slot_id
                &&& r == (DeviceAction::AddressDevice {
                    slot_id,
                    slot: SlotContext {
                        dw0: (old(self).route & 0xF_FFFF) | (old(self).speed << 20u32) | (1u32 << 27u32),
                        dw1: old(self).root_port << 16u32,
                        dw2: (old(self).tt_slot & 0xFF) | ((old(self).tt_port & 0xFF) << 8u32),
                    },
                    ep0_dw1: (spec_ep0_max_packet(old(self).speed) << 16u32) | (4u32 << 3u32) | (3u32 << 1u32),
                })
            } else {
                (final(self).phase, r) == after_failed_command(code)
            },
            // A full-speed device is probed for its EP0 packet size first.
            old(self).phase == DevicePhase::AddressDevice ==> if code != CODE_SUCCESS {
                (final(self).phase, r) == after_failed_command(code)
            } else if old(self).speed == 1 {
                final(self).phase == DevicePhase::Probe && r == (DeviceAction::ControlIn {
                    setup: setup(0x80, REQ_GET_DESCRIPTOR, 0x0100, 0, PROBE_LEN),
                    length: PROBE_LEN,
                })
            } else {
                final(self).phase == DevicePhase::DeviceDescriptor && r == device_descriptor_request()
            },
            old(self).phase == DevicePhase::Probe ==> if old(self).speed == 1 && spec_completion_ok(code) && data@[7] != 0 && data@[7]
                != spec_ep0_max_packet(old(self).speed) {
                final(self).phase == DevicePhase::Evaluate && r == (DeviceAction::EvaluateEp0 {
                    slot_id: old(self).slot_id,
                    ep0_max_packet: data@[7] as u32,
                })
            } else {
                final(self).phase == DevicePhase::DeviceDescriptor && r == device_descriptor_request()
            },
            old(self).phase == DevicePhase::Evaluate ==> final(self).phase == DevicePhase::DeviceDescriptor && r
                == device_descriptor_request(),
            // The class comes from a descriptor that was read; else it is
            // unknown.
            old(self).phase == DevicePhase::DeviceDescriptor ==> {
                &&& final(self).dev_class == (if spec_completion_ok(code) {
                    data@[4]
                } else {
                    CLASS_UNKNOWN
                })
                &&& final(self).phase == DevicePhase::ConfigDescriptor
                &&& r == (DeviceAction::ControlIn {
                    setup: setup(0x80, REQ_GET_DESCRIPTOR, 0x0200, 0, CONFIG_LEN),
                    length: CONFIG_LEN,
                })
            },
            // The configuration decides what the device is.
            old(self).phase == DevicePhase::ConfigDescriptor ==> {
                let cfg = if spec_completion_ok(code) {
                    spec_parse_config(data@)
                } else {
                    ConfigInfo { config_value: 0, ep_addr: 0, interval: 0, max_packet: 0, iface_class: 0 }
                };
                &&& final(self).config == cfg
                &&& if cfg.iface_class == 3 {
                    final(self).phase == DevicePhase::SetConfiguration && r == (DeviceAction::ControlOut {
                        setup: setup(0x00, REQ_SET_CONFIGURATION, cfg.config_value as u16, 0, 0),
                    })
                } else if (old(self).dev_class == 9 || cfg.iface_class == 9) && old(self).depth < MAX_HUB_DEPTH {
                    final(self).phase == DevicePhase::HubSetConfiguration && r == (DeviceAction::ControlOut {
                        setup: setup(0x00, REQ_SET_CONFIGURATION, cfg.config_value as u16, 0, 0),
                    })
                } else {
                    r == (DeviceAction::Finished { keyboard: false })
                }
            },
            // The keyboard: a configuration that failed ends it; a failed
            // switch to the boot protocol does not.
            old(self).phase == DevicePhase::SetConfiguration ==> if spec_completion_ok(code) {
                final(self).phase == DevicePhase::SetProtocol && r == (DeviceAction::ControlOut {
                    setup: setup(0x21, REQ_SET_PROTOCOL, 0, 0, 0),
                })
            } else {
                r == (DeviceAction::Finished { keyboard: false })
            },
            old(self).phase == DevicePhase::SetProtocol ==> final(self).phase == DevicePhase::ConfigureEndpoint && r
                == (DeviceAction::ConfigureEndpoint {
                slot_id: old(self).slot_id,
                ep_idx: spec_ep_index(old(self).config.ep_addr),
                max_packet: old(self).config.max_packet,
                interval: old(self).config.interval,
                speed: old(self).speed,
            }),
            old(self).phase == DevicePhase::ConfigureEndpoint ==> if code == CODE_SUCCESS && spec_ep_index(old(self).config.ep_addr) != 0 {
                final(self).phase == DevicePhase::QueueTransfer && r == (DeviceAction::QueueTransfer {
                    slot_id: old(self).slot_id,
                    ep_idx: spec_ep_index(old(self).config.ep_addr),
                })
            } else if code == CODE_SUCCESS {
                r == (DeviceAction::Finished { keyboard: false })
            } else {
                (final(self).phase, r) == after_failed_command(code)
            },
            old(self).phase == DevicePhase::QueueTransfer ==> r == (DeviceAction::Finished { keyboard: true }),
            // The hub: configure it, read its descriptor, mark its slot,
            // then walk its ports; any failure on the way ends it.
            old(self).phase == DevicePhase::HubSetConfiguration ==> if spec_completion_ok(code) {
                final(self).phase == DevicePhase::HubDescriptor && r == (DeviceAction::ControlIn {
                    setup: setup(0xA0, REQ_GET_DESCRIPTOR, 0x2900, 0, HUB_DESCRIPTOR_LEN),
                    length: HUB_DESCRIPTOR_LEN,
                })
            } else {
                r == (DeviceAction::Finished { keyboard: false })
            },
            old(self).phase == DevicePhase::HubDescriptor ==> if spec_completion_ok(code) {
                final(self).phase == DevicePhase::HubSlot && final(self).nbr_ports == data@[2] && r == (DeviceAction::ConfigureHub {
                    slot_id: old(self).slot_id,
                    nbr_ports: data@[2],
                    think_time: ((u16_at(data@, 3) as u32) >> 5u32) & 3,
                })
            } else {
                r == (DeviceAction::Finished { keyboard: false })
            },
            old(self).phase == DevicePhase::HubSlot ==> if code == CODE_SUCCESS {
                final(self).phase == DevicePhase::Hub && r == (DeviceAction::WalkHub {
                    slot_id: old(self).slot_id,
                    nbr_ports: old(self).nbr_ports,
                })
            } else {
                (final(self).phase, r) == after_failed_command(code)
            },
            old(self).phase == DevicePhase::Hub ==> r == (DeviceAction::Finished { keyboard: code != 0 }),
            old(self).phase == DevicePhase::Recover ==> r == (DeviceAction::Finished { keyboard: false }),
            old(self).phase matches DevicePhase::Done { keyboard } ==> r == (DeviceAction::Finished { keyboard }),
    {
        match self.phase {
            DevicePhase::EnableSlot => {
                if code != CODE_SUCCESS {
                    return self.command_failed(code);
                }
                self.slot_id = slot_id;
                self.phase = DevicePhase::AddressDevice;
                DeviceAction::AddressDevice {
                    slot_id,
                    slot: slot_context(self.route, self.speed, self.root_port, self.tt_slot, self.tt_port),
                    ep0_dw1: ep0_context_dw1(self.speed),
                }
            },
            DevicePhase::AddressDevice => {
                if code != CODE_SUCCESS {
                    self.command_failed(code)
                } else if self.speed == 1 {
                    self.phase = DevicePhase::Probe;
                    DeviceAction::ControlIn { setup: get_device_descriptor_setup(PROBE_LEN), length: PROBE_LEN }
                } else {
                    self.read_device_descriptor()
                }
            },
            DevicePhase::Probe => {
                match fs_max_packet_fix(self.speed, code, data[7]) {
                    Some(mps) => {
                        self.phase = DevicePhase::Evaluate;
                        DeviceAction::EvaluateEp0 { slot_id: self.slot_id, ep0_max_packet: mps }
                    },
                    None => self.read_device_descriptor(),
                }
            },
            DevicePhase::Evaluate => self.read_device_descriptor(),
            DevicePhase::DeviceDescriptor => {
                self.dev_class = if completion_ok(code) {
                    parse_device_descriptor(data).class
                } else {
                    CLASS_UNKNOWN
                };
                self.phase = DevicePhase::ConfigDescriptor;
                DeviceAction::ControlIn { setup: get_config_descriptor_setup(), length: CONFIG_LEN }
            },
            DevicePhase::ConfigDescriptor => {
                self.config = if completion_ok(code) {
                    parse_config_descriptor(data)
                } else {
                    ConfigInfo { config_value: 0, ep_addr: 0, interval: 0, max_packet: 0, iface_class: 0 }
                };
                match classify(self.dev_class, self.config.iface_class, self.depth) {
                    DeviceRole::Keyboard => {
                        self.phase = DevicePhase::SetConfiguration;
                        DeviceAction::ControlOut { setup: set_configuration(self.config.config_value) }
                    },
                    DeviceRole::Hub => {
                        self.phase = DevicePhase::HubSetConfiguration;
                        DeviceAction::ControlOut { setup: set_configuration(self.config.config_value) }
                    },
                    DeviceRole::Ignore => {
                        self.phase = DevicePhase::Done { keyboard: false };
                        DeviceAction::Finished { keyboard: false }
                    },
                }
            },
            DevicePhase::SetConfiguration => {
                if completion_ok(code) {
                    self.phase = DevicePhase::SetProtocol;
                    DeviceAction::ControlOut { setup: set_protocol() }
                } else {
                    self.phase = DevicePhase::Done { keyboard: false };
                    DeviceAction::Finished { keyboard: false }
                }
            },
            DevicePhase::SetProtocol => {
                self.phase = DevicePhase::ConfigureEndpoint;
                DeviceAction::ConfigureEndpoint {
                    slot_id: self.slot_id,
                    ep_idx: ep_index(self.config.ep_addr),
                    max_packet: self.config.max_packet,
                    interval: self.config.interval,
                    speed: self.speed,
                }
            },
            DevicePhase::ConfigureEndpoint => {
                if code != CODE_SUCCESS {
                    self.command_failed(code)
                } else if ep_index(self.config.ep_addr) == 0 {
                    self.phase = DevicePhase::Done { keyboard: false };
                    DeviceAction::Finished { keyboard: false }
                } else {
                    self.phase = DevicePhase::QueueTransfer;
                    DeviceAction::QueueTransfer { slot_id: self.slot_id, ep_idx: ep_index(self.config.ep_addr) }
                }
            },
            DevicePhase::QueueTransfer => {
                self.phase = DevicePhase::Done { keyboard: true };
                DeviceAction::Finished { keyboard: true }
            },
            DevicePhase::HubSetConfiguration => {
                if completion_ok(code) {
                    self.phase = DevicePhase::HubDescriptor;
                    DeviceAction::ControlIn { setup: get_hub_descriptor_setup(), length: HUB_DESCRIPTOR_LEN }
                } else {
                    self.phase = DevicePhase::Done { keyboard: false };
                    DeviceAction::Finished { keyboard: false }
                }
            },
            DevicePhase::HubDescriptor => {
                if completion_ok(code) {
                    let hub = parse_hub_descriptor(data);
                    self.phase = DevicePhase::HubSlot;
                    self.nbr_ports = hub.nbr_ports;
                    DeviceAction::ConfigureHub {
                        slot_id: self.slot_id,
                        nbr_ports: hub.nbr_ports,
                        think_time: hub.think_time,
                    }
                } else {
                    self.phase = DevicePhase::Done { keyboard: false };
                    DeviceAction::Finished { keyboard: false }
                }
            },
            DevicePhase::HubSlot => {
                if code != CODE_SUCCESS {
                    self.command_failed(code)
                } else {
                    self.phase = DevicePhase::Hub;
                    DeviceAction::WalkHub { slot_id: self.slot_id, nbr_ports: self.nbr_ports }
                }
            },
            DevicePhase::Hub => {
                let keyboard = code != 0;
                self.phase = DevicePhase::Done { keyboard };
                DeviceAction::Finished { keyboard }
            },
            DevicePhase::Recover => {
                self.phase = DevicePhase::Done { keyboard: false };
                DeviceAction::Finished { keyboard: false }
            },
            DevicePhase::Done { keyboard } => DeviceAction::Finished { keyboard },
        }
    }
}

} // verus!
