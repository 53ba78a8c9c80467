//! Walking the ports of a USB hub: power them, and for each connected one
//! reset it, read the speed of the device, and enumerate it, until a
//! keyboard turns up.
//!
//! The walk is a state machine: the kernel performs each action on the
//! hub and hands back what it read, and the machine says what to do next.
use vstd::prelude::*;
use crate::usb::{PORT_POWER, PORT_RESET, C_PORT_CONNECTION, C_PORT_RESET};
use crate::xhci::{
    child_speed, child_route, child_tt, hub_port_ready, spec_child_route, spec_child_speed, spec_child_tt,
    spec_hub_port_ready,
};

verus! {

/// Milliseconds for power to become good on every port.
pub const POWER_SETTLE_MS: u32 = 100;
/// Milliseconds a port reset takes.
pub const RESET_MS: u32 = 50;
/// Milliseconds between polls of a resetting port, and of reset recovery.
pub const POLL_MS: u32 = 10;
/// Polls of a resetting port before going on anyway.
pub const RESET_POLLS: u32 = 20;

/// What the kernel does next for the hub.
#[derive(Clone, Copy, PartialEq, Eq, Structural, Debug)]
pub enum HubAction {
    SetPortFeature { feature: u16, port: u32 },
    ClearPortFeature { feature: u16, port: u32 },
    /// Read the port status and hand it back.
    GetPortStatus { port: u32 },
    Sleep { ms: u32 },
    /// Enumerate the device on the port and hand back whether it turned
    /// out to be the keyboard (1) or not (0).
    EnumerateChild { port: u32, route: u32, speed: u32, tt_hub_slot: u32, tt_port: u32, depth: u32 },
    /// The walk is over.
    Finished { keyboard: bool },
}

/// The action last asked for.
#[derive(Clone, Copy, PartialEq, Eq, Structural, Debug)]
pub enum HubPhase {
    Power,
    PowerSettle,
    ClearConnect,
    ReadConnect,
    StartReset,
    ResetSettle,
    /// A status poll of a resetting port, with polls left.
    Poll { left: u32 },
    PollWait { left: u32 },
    ClearReset,
    Recover,
    ReadSpeed,
    Child,
    Done { keyboard: bool },
}

/// The walk over the ports of one hub.
#[derive(Clone, Copy, PartialEq, Eq, Structural, Debug)]
pub struct HubScan {
    pub nbr_ports: u32,
    /// The port being handled (from 1).
    pub port: u32,
    pub phase: HubPhase,
    /// Where the hub sits: its route string, root port, speed, slot, the
    /// transaction translator it inherited, and its tier.
    pub route: u32,
    pub root_port: u32,
    pub hub_speed: u32,
    pub hub_slot: u32,
    pub parent_tt_slot: u32,
    pub parent_tt_port: u32,
    pub depth: u32,
}

/// The walk moved on from port `s.port`: to the next port's connection
/// change, or to its end without a keyboard after the last port.
pub open spec fn hub_next_port(s: HubScan) -> (HubScan, HubAction) {
    if s.port < s.nbr_ports {
        (
            HubScan { port: (s.port + 1) as u32, phase: HubPhase::ClearConnect, ..s },
            HubAction::ClearPortFeature { feature: C_PORT_CONNECTION, port: (s.port + 1) as u32 },
        )
    } else {
        (HubScan { phase: HubPhase::Done { keyboard: false }, ..s }, HubAction::Finished { keyboard: false })
    }
}

/// One step of the walk over a hub's ports: the state after the reply
/// `input` to the last action, and the next action.  Power goes to every
/// port in turn, then the hub settles; each port then has its connection
/// change cleared and its status read; a connected port is reset, polled
/// until it is enabled and out of reset (at most `RESET_POLLS` reads), has
/// its reset change cleared, recovers, and has its status read for the
/// speed; its device is then enumerated one tier down with its own route
/// string and transaction translator, and the first keyboard ends the
/// walk.
pub open spec fn hub_next(s: HubScan, input: u32) -> (HubScan, HubAction) {
    match s.phase {
        HubPhase::Power => if s.port < s.nbr_ports {
            (
                HubScan { port: (s.port + 1) as u32, ..s },
                HubAction::SetPortFeature { feature: PORT_POWER, port: (s.port + 1) as u32 },
            )
        } else {
            (HubScan { port: 1, phase: HubPhase::PowerSettle, ..s }, HubAction::Sleep { ms: POWER_SETTLE_MS })
        },
        HubPhase::PowerSettle => if s.nbr_ports > 0 {
            (
                HubScan { port: 1, phase: HubPhase::ClearConnect, ..s },
                HubAction::ClearPortFeature { feature: C_PORT_CONNECTION, port: 1 },
            )
        } else {
            (HubScan { phase: HubPhase::Done { keyboard: false }, ..s }, HubAction::Finished { keyboard: false })
        },
        HubPhase::ClearConnect => (
            HubScan { phase: HubPhase::ReadConnect, ..s },
            HubAction::GetPortStatus { port: s.port },
        ),
        HubPhase::ReadConnect => if input & 1 == 0 {
            hub_next_port(s)
        } else {
            (
                HubScan { phase: HubPhase::StartReset, ..s },
                HubAction::SetPortFeature { feature: PORT_RESET, port: s.port },
            )
        },
        HubPhase::StartReset => (HubScan { phase: HubPhase::ResetSettle, ..s }, HubAction::Sleep { ms: RESET_MS }),
        HubPhase::ResetSettle => (
            HubScan { phase: HubPhase::Poll { left: RESET_POLLS }, ..s },
            HubAction::GetPortStatus { port: s.port },
        ),
        HubPhase::Poll { left } => if spec_hub_port_ready(input) || left == 1 {
            (
                HubScan { phase: HubPhase::ClearReset, ..s },
                HubAction::ClearPortFeature { feature: C_PORT_RESET, port: s.port },
            )
        } else {
            (HubScan { phase: HubPhase::PollWait { left: (left - 1) as u32 }, ..s }, HubAction::Sleep { ms: POLL_MS })
        },
        HubPhase::PollWait { left } => (
            HubScan { phase: HubPhase::Poll { left }, ..s },
            HubAction::GetPortStatus { port: s.port },
        ),
        HubPhase::ClearReset => (HubScan { phase: HubPhase::Recover, ..s }, HubAction::Sleep { ms: POLL_MS }),
        HubPhase::Recover => (
            HubScan { phase: HubPhase::ReadSpeed, ..s },
            HubAction::GetPortStatus { port: s.port },
        ),
        HubPhase::ReadSpeed => {
            let speed = spec_child_speed(input);
            let tt = spec_child_tt(speed, s.hub_speed, s.hub_slot, s.port, s.parent_tt_slot, s.parent_tt_port);
            (
                HubScan { phase: HubPhase::Child, ..s },
                HubAction::EnumerateChild {
                    port: s.port,
                    route: spec_child_route(s.route, s.port, s.depth),
                    speed,
                    tt_hub_slot: tt.0,
                    tt_port: tt.1,
                    depth: (s.depth + 1) as u32,
                },
            )
        },
        HubPhase::Child => if input != 0 {
            (HubScan { phase: HubPhase::Done { keyboard: true }, ..s }, HubAction::Finished { keyboard: true })
        } else {
            hub_next_port(s)
        },
        HubPhase::Done { keyboard } => (s, HubAction::Finished { keyboard }),
    }
}

impl HubScan {
    pub open spec fn wf(&self) -> bool {
        &&& self.nbr_ports <= 255
        &&& 1 <= self.port
        &&& (self.nbr_ports > 0 ==> self.port <= self.nbr_ports)
        &&& self.depth < 8
        &&& (self.nbr_ports == 0 ==> self.phase is PowerSettle || self.phase is Done)
        &&& match self.phase {
            HubPhase::Poll { left } => 0 < left <= RESET_POLLS,
            HubPhase::PollWait { left } => 0 < left <= RESET_POLLS,
            _ => true,
        }
    }

    /// Steps left at most: the walk ends within this many actions.
    pub open spec fn measure(&self) -> nat {
        let per_port = 100int;
        let rest = (self.nbr_ports - self.port) * per_port;
        let local: int = match self.phase {
            HubPhase::Power => per_port * self.nbr_ports + 4 + (self.nbr_ports - self.port),
            HubPhase::PowerSettle => per_port * self.nbr_ports + 2,
            HubPhase::ClearConnect => rest + 95,
            HubPhase::ReadConnect => rest + 94,
            HubPhase::StartReset => rest + 93,
            HubPhase::ResetSettle => rest + 92,
            HubPhase::Poll { left } => rest + 10 + 2 * left,
            HubPhase::PollWait { left } => rest + 11 + 2 * left,
            HubPhase::ClearReset => rest + 4,
            HubPhase::Recover => rest + 3,
            HubPhase::ReadSpeed => rest + 2,
            HubPhase::Child => rest + 1,
            HubPhase::Done { .. } => 0,
        };
        if local >= 0 { local as nat } else { 0 }
    }

    /// Start the walk over a hub with `nbr_ports` ports: power the first
    /// port, or, with none, wait for power anyway.
    pub fn start(
        nbr_ports: u8,
        route: u32,
        root_port: u32,
        hub_speed: u32,
        hub_slot: u32,
        parent_tt_slot: u32,
        parent_tt_port: u32,
        depth: u32,
    ) -> (r: (Self, HubAction))
        requires
            depth < 8,
        ensures
            r.0.wf(),
            r.0.nbr_ports == nbr_ports,
            r.0.route == route && r.0.root_port == root_port && r.0.hub_speed == hub_speed,
            r.0.hub_slot == hub_slot && r.0.parent_tt_slot == parent_tt_slot && r.0.parent_tt_port
                == parent_tt_port && r.0.depth == depth,
            r.0.port == 1,
            nbr_ports > 0 ==> r.0.phase == HubPhase::Power && r.1 == (HubAction::SetPortFeature {
                feature: PORT_POWER,
                port: 1,
            }),
            nbr_ports == 0 ==> r.0.phase == HubPhase::PowerSettle && r.1 == (HubAction::Sleep { ms: POWER_SETTLE_MS }),
    {
        let n = nbr_ports as u32;
        let s = HubScan {
            nbr_ports: n,
            port: 1,
            phase: if n > 0 { HubPhase::Power } else { HubPhase::PowerSettle },
            route,
            root_port,
            hub_speed,
            hub_slot,
            parent_tt_slot,
            parent_tt_port,
            depth,
        };
        if n > 0 {
            (s, HubAction::SetPortFeature { feature: PORT_POWER, port: 1 })
        } else {
            (s, HubAction::Sleep { ms: POWER_SETTLE_MS })
        }
    }

    /// Move to the next port, or end the walk without a keyboard.
    fn next_port(&mut self) -> (r: HubAction)
        requires
            old(self).wf(),
            old(self).nbr_ports > 0,
        ensures
            final(self).wf(),
            old(self).port < old(self).nbr_ports ==> final(self).port == old(self).port + 1 && final(self).phase
                == HubPhase::ClearConnect && r == (HubAction::ClearPortFeature {
                feature: C_PORT_CONNECTION,
                port: final(self).port,
            }),
            old(self).port >= old(self).nbr_ports ==> final(self).port == old(self).port && final(self).phase
                == (HubPhase::Done { keyboard: false }) && r == (HubAction::Finished { keyboard: false }),
            final(self).nbr_ports == old(self).nbr_ports && final(self).route == old(self).route,
            final(self).root_port == old(self).root_port && final(self).hub_speed == old(self).hub_speed,
            final(self).hub_slot == old(self).hub_slot && final(self).depth == old(self).depth,
            final(self).parent_tt_slot == old(self).parent_tt_slot,
            final(self).parent_tt_port == old(self).parent_tt_port,
    {
        if self.port < self.nbr_ports {
            self.port = self.port + 1;
            self.phase = HubPhase::ClearConnect;
            HubAction::ClearPortFeature { feature: C_PORT_CONNECTION, port: self.port }
        } else {
            self.phase = HubPhase::Done { keyboard: false };
            HubAction::Finished { keyboard: false }
        }
    }

    /// Take the result of the last action and say what to do next.
    /// `input` is the port status after `GetPortStatus`, and 1 or 0 after
    /// `EnumerateChild` (keyboard or not); after any other action it is
    /// not looked at.
    pub fn step(&mut self, input: u32) -> (r: HubAction)
        requires
            old(self).wf(),
        ensures
            final(self).wf(),
            final(self).nbr_ports == old(self).nbr_ports && final(self).route == old(self).route,
            final(self).root_port == old(self).root_port && final(self).hub_speed == old(self).hub_speed,
            final(self).hub_slot == old(self).hub_slot && final(self).depth == old(self).depth,
            final(self).parent_tt_slot == old(self).parent_tt_slot,
            final(self).parent_tt_port == old(self).parent_tt_port,
            // The walk ends, or gets closer to its end.
            r is Finished || final(self).measure() < old(self).measure(),
            (*final(self), r) == hub_next(*old(self), input),
            // A keyboard is reported exactly when the child just enumerated
            // was one (or the walk had already ended on one).
            r == (HubAction::Finished { keyboard: true }) <==> (old(self).phase == HubPhase::Child && input != 0)
                || old(self).phase == (HubPhase::Done { keyboard: true }),
            // Power goes to every port in turn, then the hub settles.
            old(self).phase == HubPhase::Power ==> if old(self).port < old(self).nbr_ports {
                r == (HubAction::SetPortFeature { feature: PORT_POWER, port: (old(self).port + 1) as u32 })
            } else {
                r == (HubAction::Sleep { ms: POWER_SETTLE_MS })
            },
            // A port that shows no device is not reset: the walk goes on.
            old(self).phase == HubPhase::ReadConnect && input & 1 == 0 ==> final(self).phase != HubPhase::StartReset
                && !(r is SetPortFeature),
            old(self).phase == HubPhase::ReadConnect && input & 1 != 0 ==> r == (HubAction::SetPortFeature {
                feature: PORT_RESET,
                port: old(self).port,
            }),
            // The device is enumerated with the speed of the last status,
            // its own route and transaction translator, one tier down.
            old(self).phase == HubPhase::ReadSpeed ==> {
                let sp = if input & (1u32 << 9u32) != 0 {
                    2u32
                } else if input & (1u32 << 10u32) != 0 {
                    3u32
                } else {
                    1u32
                };
                let tt = if sp == 3 {
                    (0u32, 0u32)
                } else if old(self).hub_speed == 3 {
                    (old(self).hub_slot, old(self).port)
                } else {
                    (old(self).parent_tt_slot, old(self).parent_tt_port)
                };
                r == (HubAction::EnumerateChild {
                    port: old(self).port,
                    route: spec_child_route(old(self).route, old(self).port, old(self).depth),
                    speed: sp,
                    tt_hub_slot: tt.0,
                    tt_port: tt.1,
                    depth: (old(self).depth + 1) as u32,
                })
            },
            // The first keyboard ends the walk.
            old(self).phase == HubPhase::Child && input != 0 ==> r == (HubAction::Finished { keyboard: true }),
            old(self).phase == HubPhase::Child && input == 0 ==> r == (if old(self).port < old(self).nbr_ports {
                HubAction::ClearPortFeature { feature: C_PORT_CONNECTION, port: (old(self).port + 1) as u32 }
            } else {
                HubAction::Finished { keyboard: false }
            }),
            // A resetting port is polled until it is enabled and out of
            // reset, at most `RESET_POLLS` times.
            old(self).phase matches HubPhase::Poll { left } ==> if input & (1u32 << 4u32) == 0 && input & (1u32
                << 1u32) != 0 || left == 1 {
                r == (HubAction::ClearPortFeature { feature: C_PORT_RESET, port: old(self).port })
            } else {
                r == (HubAction::Sleep { ms: POLL_MS }) && final(self).phase == (HubPhase::PollWait { left: (left - 1) as u32 })
            },
    {
        match self.phase {
            HubPhase::Power => {
                if self.port < self.nbr_ports {
                    self.port = self.port + 1;
                    HubAction::SetPortFeature { feature: PORT_POWER, port: self.port }
                } else {
                    self.port = 1;
                    self.phase = HubPhase::PowerSettle;
                    HubAction::Sleep { ms: POWER_SETTLE_MS }
                }
            },
            HubPhase::PowerSettle => {
                if self.nbr_ports > 0 {
                    self.port = 1;
                    self.phase = HubPhase::ClearConnect;
                    HubAction::ClearPortFeature { feature: C_PORT_CONNECTION, port: 1 }
                } else {
                    self.phase = HubPhase::Done { keyboard: false };
                    HubAction::Finished { keyboard: false }
                }
            },
            HubPhase::ClearConnect => {
                self.phase = HubPhase::ReadConnect;
                HubAction::GetPortStatus { port: self.port }
            },
            HubPhase::ReadConnect => {
                if input & 1 == 0 {
                    self.next_port()
                } else {
                    self.phase = HubPhase::StartReset;
                    HubAction::SetPortFeature { feature: PORT_RESET, port: self.port }
                }
            },
            HubPhase::StartReset => {
                self.phase = HubPhase::ResetSettle;
                HubAction::Sleep { ms: RESET_MS }
            },
            HubPhase::ResetSettle => {
                self.phase = HubPhase::Poll { left: RESET_POLLS };
                HubAction::GetPortStatus { port: self.port }
            },
            HubPhase::Poll { left } => {
                if hub_port_ready(input) || left == 1 {
                    self.phase = HubPhase::ClearReset;
                    HubAction::ClearPortFeature { feature: C_PORT_RESET, port: self.port }
                } else {
                    self.phase = HubPhase::PollWait { left: left - 1 };
                    HubAction::Sleep { ms: POLL_MS }
                }
            },
            HubPhase::PollWait { left } => {
                self.phase = HubPhase::Poll { left };
                HubAction::GetPortStatus { port: self.port }
            },
            HubPhase::ClearReset => {
                self.phase = HubPhase::Recover;
                HubAction::Sleep { ms: POLL_MS }
            },
            HubPhase::Recover => {
                self.phase = HubPhase::ReadSpeed;
                HubAction::GetPortStatus { port: self.port }
            },
            HubPhase::ReadSpeed => {
                let speed = child_speed(input);
                let route = child_route(self.route, self.port, self.depth);
                let (tt_slot, tt_port) = child_tt(
                    speed,
                    self.hub_speed,
                    self.hub_slot,
                    self.port,
                    self.parent_tt_slot,
                    self.parent_tt_port,
                );
                self.phase = HubPhase::Child;
                HubAction::EnumerateChild {
                    port: self.port,
                    route,
                    speed,
                    tt_hub_slot: tt_slot,
                    tt_port,
                    depth: self.depth + 1,
                }
            },
            HubPhase::Child => {
                if input != 0 {
                    self.phase = HubPhase::Done { keyboard: true };
                    HubAction::Finished { keyboard: true }
                } else {
                    self.next_port()
                }
            },
            HubPhase::Done { keyboard } => HubAction::Finished { keyboard },
        }
    }
}

} // verus!
