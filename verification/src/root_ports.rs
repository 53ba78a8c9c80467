//! Bringing the root ports of a running controller up: power every port,
//! let the start-up port events go, then reset each connected port in
//! turn and enumerate its device, until a keyboard turns up.
//!
//! The walk is a state machine: the kernel performs each action on the
//! controller and hands back what it read, and the machine says what to do
//! next.
use vstd::prelude::*;
use crate::xhci::{
    port_power_on, port_reset_value, port_clear_changes_value, port_connected, port_enabled, port_in_reset,
    port_speed, PORTSC_PP, PORTSC_PR, PORTSC_PRESERVE_MASK, PORTSC_CHANGES,
};
use crate::xhci_ring::EVT_PORT_CHANGE;

verus! {

/// Milliseconds for power to become good on the root ports.
pub const ROOT_POWER_MS: u32 = 200;
/// Milliseconds a root port reset takes.
pub const ROOT_RESET_MS: u32 = 50;
/// Reads of a resetting port before its state is taken as it is.
pub const ROOT_RESET_POLLS: u32 = 2_000_000;
/// Start-up events taken off the event ring at most.
pub const STARTUP_EVENTS: u32 = 64;

/// What the kernel does next on the root ports.
#[derive(Clone, Copy, PartialEq, Eq, Structural, Debug)]
pub enum RootAction {
    /// Read PORTSC of the port (from 0) and hand it back.
    ReadPortsc { port: u32 },
    /// Write `value` to PORTSC of the port.
    WritePortsc { port: u32, value: u32 },
    Sleep { ms: u32 },
    /// Take the next event off the event ring and hand back its TRB type,
    /// or 0 when there is none.
    ConsumeEvent,
    /// Enumerate the device on a root port and hand back whether it turned
    /// out to be the keyboard (1) or not (0).
    EnumerateDevice { route: u32, root_port: u32, speed: u32, tt_slot: u32, tt_port: u32, depth: u32 },
    /// The walk is over.
    Finished { keyboard: bool },
}

/// The action last asked for.
#[derive(Clone, Copy, PartialEq, Eq, Structural, Debug)]
pub enum RootPhase {
    PowerRead,
    PowerWrite,
    PowerSettle,
    /// An event was taken; `left` counts it and the ones that may follow.
    Drain { left: u32 },
    ReadConnect,
    StartReset,
    ResetSettle,
    /// A read of a resetting port, with `left` more reads allowed.
    Poll { left: u32 },
    ClearChanges,
    ReadSpeed,
    Child,
    Done { keyboard: bool },
}

/// The walk over the root ports.
#[derive(Clone, Copy, PartialEq, Eq, Structural, Debug)]
pub struct RootScan {
    pub max_ports: u32,
    /// The port being handled (from 0).
    pub port: u32,
    pub phase: RootPhase,
}

/// The start of the walk over the ports, or its end when there are none.
pub open spec fn first_port(max_ports: u32) -> (RootPhase, RootAction) {
    if max_ports > 0 {
        (RootPhase::ReadConnect, RootAction::ReadPortsc { port: 0 })
    } else {
        (RootPhase::Done { keyboard: false }, RootAction::Finished { keyboard: false })
    }
}

/// The walk moved on from port `s.port`: to reading the next port, or to
/// its end without a keyboard after the last one.
pub open spec fn root_next_port(s: RootScan) -> (RootScan, RootAction) {
    if s.port + 1 < s.max_ports {
        (
            RootScan { port: (s.port + 1) as u32, phase: RootPhase::ReadConnect, ..s },
            RootAction::ReadPortsc { port: (s.port + 1) as u32 },
        )
    } else {
        (RootScan { phase: RootPhase::Done { keyboard: false }, ..s }, RootAction::Finished { keyboard: false })
    }
}

/// One step of the walk over the root ports: the state after the reply
/// `input` to the last action, and the next action.  Every port is
/// powered, keeping its other bits, then the controller settles and lets
/// go of at most `STARTUP_EVENTS` port change events; then each port is
/// read: an empty one is passed over; a connected one is reset (without
/// clearing change bits), read until the reset is over or the reads run
/// out, passed over if it is not enabled, else has its change bits cleared
/// and its device enumerated at the root of the tree with the speed the
/// port reports; the first keyboard ends the walk.
pub open spec fn root_next(s: RootScan, input: u32) -> (RootScan, RootAction) {
    match s.phase {
        RootPhase::PowerRead => (
            RootScan { phase: RootPhase::PowerWrite, ..s },
            RootAction::WritePortsc { port: s.port, value: input | PORTSC_PP },
        ),
        RootPhase::PowerWrite => if s.port + 1 < s.max_ports {
            (
                RootScan { port: (s.port + 1) as u32, phase: RootPhase::PowerRead, ..s },
                RootAction::ReadPortsc { port: (s.port + 1) as u32 },
            )
        } else {
            (RootScan { port: 0, phase: RootPhase::PowerSettle, ..s }, RootAction::Sleep { ms: ROOT_POWER_MS })
        },
        RootPhase::PowerSettle => (
            RootScan { phase: RootPhase::Drain { left: STARTUP_EVENTS }, ..s },
            RootAction::ConsumeEvent,
        ),
        RootPhase::Drain { left } => if input == EVT_PORT_CHANGE && left > 1 {
            (RootScan { phase: RootPhase::Drain { left: (left - 1) as u32 }, ..s }, RootAction::ConsumeEvent)
        } else {
            let (phase, action) = first_port(s.max_ports);
            (RootScan { port: 0, phase, ..s }, action)
        },
        RootPhase::ReadConnect => if input & 1 == 0 {
            root_next_port(s)
        } else {
            (
                RootScan { phase: RootPhase::StartReset, ..s },
                RootAction::WritePortsc { port: s.port, value: (input & !PORTSC_PRESERVE_MASK) | PORTSC_PR },
            )
        },
        RootPhase::StartReset => (RootScan { phase: RootPhase::ResetSettle, ..s }, RootAction::Sleep { ms: ROOT_RESET_MS }),
        RootPhase::ResetSettle => (
            RootScan { phase: RootPhase::Poll { left: ROOT_RESET_POLLS }, ..s },
            RootAction::ReadPortsc { port: s.port },
        ),
        RootPhase::Poll { left } => if input & PORTSC_PR != 0 && left > 0 {
            (RootScan { phase: RootPhase::Poll { left: (left - 1) as u32 }, ..s }, RootAction::ReadPortsc { port: s.port })
        } else if input & 2 == 0 {
            root_next_port(s)
        } else {
            (
                RootScan { phase: RootPhase::ClearChanges, ..s },
                RootAction::WritePortsc { port: s.port, value: (input & !PORTSC_PRESERVE_MASK) | PORTSC_CHANGES },
            )
        },
        RootPhase::ClearChanges => (
            RootScan { phase: RootPhase::ReadSpeed, ..s },
            RootAction::ReadPortsc { port: s.port },
        ),
        RootPhase::ReadSpeed => (
            RootScan { phase: RootPhase::Child, ..s },
            RootAction::EnumerateDevice {
                route: 0,
                root_port: (s.port + 1) as u32,
                speed: (input >> 10u32) & 0xF,
                tt_slot: 0,
                tt_port: 0,
                depth: 0,
            },
        ),
        RootPhase::Child => if input != 0 {
            (RootScan { phase: RootPhase::Done { keyboard: true }, ..s }, RootAction::Finished { keyboard: true })
        } else {
            root_next_port(s)
        },
        RootPhase::Done { keyboard } => (s, RootAction::Finished { keyboard }),
    }
}

impl RootScan {
    pub open spec fn wf(&self) -> bool {
        &&& self.max_ports <= 255
        &&& (self.max_ports > 0 ==> self.port < self.max_ports)
        &&& (self.max_ports == 0 ==> self.port == 0 && (self.phase is PowerSettle || self.phase is Drain
            || self.phase is Done))
        &&& match self.phase {
            RootPhase::Drain { left } => 0 < left <= STARTUP_EVENTS,
            RootPhase::Poll { left } => left <= ROOT_RESET_POLLS,
            _ => true,
        }
    }

    /// Steps left at most: the walk ends within this many actions.
    pub open spec fn measure(&self) -> nat {
        let per_port = ROOT_RESET_POLLS + 10;
        let all_ports = self.max_ports * per_port;
        let rest = (self.max_ports - 1 - self.port) * per_port;
        let m: int = match self.phase {
            RootPhase::PowerRead => all_ports + STARTUP_EVENTS + 2 + 2 * (self.max_ports - self.port),
            RootPhase::PowerWrite => all_ports + STARTUP_EVENTS + 1 + 2 * (self.max_ports - self.port),
            RootPhase::PowerSettle => all_ports + STARTUP_EVENTS + 1,
            RootPhase::Drain { left } => all_ports + left,
            RootPhase::ReadConnect => rest + ROOT_RESET_POLLS + 9,
            RootPhase::StartReset => rest + ROOT_RESET_POLLS + 8,
            RootPhase::ResetSettle => rest + ROOT_RESET_POLLS + 7,
            RootPhase::Poll { left } => rest + left + 4,
            RootPhase::ClearChanges => rest + 3,
            RootPhase::ReadSpeed => rest + 2,
            RootPhase::Child => rest + 1,
            RootPhase::Done { .. } => 0,
        };
        if m >= 0 { m as nat } else { 0 }
    }

    /// Start the walk over `max_ports` root ports: read the first one to
    /// power it, or, with none, wait for power anyway.
    pub fn start(max_ports: u32) -> (r: (Self, RootAction))
        requires
            max_ports <= 255,
        ensures
            r.0.wf(),
            r.0.max_ports == max_ports,
            r.0.port == 0,
            max_ports > 0 ==> r.0.phase == RootPhase::PowerRead && r.1 == (RootAction::ReadPortsc { port: 0 }),
            max_ports == 0 ==> r.0.phase == RootPhase::PowerSettle && r.1 == (RootAction::Sleep { ms: ROOT_POWER_MS }),
    {
        if max_ports > 0 {
            (RootScan { max_ports, port: 0, phase: RootPhase::PowerRead }, RootAction::ReadPortsc { port: 0 })
        } else {
            (RootScan { max_ports, port: 0, phase: RootPhase::PowerSettle }, RootAction::Sleep { ms: ROOT_POWER_MS })
        }
    }

    /// Move to the next port, or end the walk without a keyboard.
    fn next_port(&mut self) -> (r: RootAction)
        requires
            old(self).wf(),
            old(self).max_ports > 0,
        ensures
            final(self).wf(),
            final(self).max_ports == old(self).max_ports,
            old(self).port + 1 < old(self).max_ports ==> final(self).port == old(self).port + 1 && final(self).phase
                == RootPhase::ReadConnect && r == (RootAction::ReadPortsc { port: final(self).port }),
            old(self).port + 1 >= old(self).max_ports ==> final(self).port == old(self).port && final(self).phase
                == (RootPhase::Done { keyboard: false }) && r == (RootAction::Finished { keyboard: false }),
    {
        if self.port + 1 < self.max_ports {
            self.port = self.port + 1;
            self.phase = RootPhase::ReadConnect;
            RootAction::ReadPortsc { port: self.port }
        } else {
            self.phase = RootPhase::Done { keyboard: false };
            RootAction::Finished { keyboard: false }
        }
    }

    /// Take the result of the last action and say what to do next.
    /// `input` is PORTSC after `ReadPortsc`, the TRB type (0 for none)
    /// after `ConsumeEvent`, and 1 or 0 after `EnumerateDevice` (keyboard
    /// or not); after any other action it is not looked at.
    pub fn step(&mut self, input: u32) -> (r: RootAction)
        requires
            old(self).wf(),
        ensures
            final(self).wf(),
            final(self).max_ports == old(self).max_ports,
            // The walk ends, or gets closer to its end.
            r is Finished || final(self).measure() < old(self).measure(),
            (*final(self), r) == root_next(*old(self), input),
            // Every port is powered, keeping its other bits, before the
            // controller settles.
            old(self).phase == RootPhase::PowerRead ==> r == (RootAction::WritePortsc {
                port: old(self).port,
                value: input | PORTSC_PP,
            }),
            old(self).phase == RootPhase::PowerWrite ==> if old(self).port + 1 < old(self).max_ports {
                r == (RootAction::ReadPortsc { port: (old(self).port + 1) as u32 })
            } else {
                r == (RootAction::Sleep { ms: ROOT_POWER_MS })
            },
            old(self).phase == RootPhase::PowerSettle ==> r == RootAction::ConsumeEvent && final(self).phase
                == (RootPhase::Drain { left: STARTUP_EVENTS }),
            // Port change events are let go, at most `STARTUP_EVENTS` of
            // them; any other event, or none, ends that.
            old(self).phase matches RootPhase::Drain { left } ==> if input == EVT_PORT_CHANGE && left > 1 {
                r == RootAction::ConsumeEvent && final(self).phase == (RootPhase::Drain { left: (left - 1) as u32 })
            } else {
                (final(self).phase, r) == first_port(old(self).max_ports) && final(self).port == 0
            },
            // A port without a device is not reset.
            old(self).phase == RootPhase::ReadConnect ==> if input & 1 == 0 {
                !(r is WritePortsc)
            } else {
                r == (RootAction::WritePortsc {
                    port: old(self).port,
                    value: (input & !PORTSC_PRESERVE_MASK) | PORTSC_PR,
                })
            },
            old(self).phase == RootPhase::StartReset ==> r == (RootAction::Sleep { ms: ROOT_RESET_MS }),
            old(self).phase == RootPhase::ResetSettle ==> r == (RootAction::ReadPortsc { port: old(self).port })
                && final(self).phase == (RootPhase::Poll { left: ROOT_RESET_POLLS }),
            // A resetting port is read until the reset is over or the reads
            // run out; then a port that is not enabled is passed over, and
            // an enabled one has its change bits cleared.
            old(self).phase matches RootPhase::Poll { left } ==> if input & PORTSC_PR != 0 && left > 0 {
                r == (RootAction::ReadPortsc { port: old(self).port }) && final(self).phase == (RootPhase::Poll {
                    left: (left - 1) as u32,
                })
            } else if input & 2 == 0 {
                !(r is WritePortsc) && !(r is EnumerateDevice)
            } else {
                r == (RootAction::WritePortsc {
                    port: old(self).port,
                    value: (input & !PORTSC_PRESERVE_MASK) | PORTSC_CHANGES,
                })
            },
            old(self).phase == RootPhase::ClearChanges ==> r == (RootAction::ReadPortsc { port: old(self).port }),
            // The device is enumerated at the root of the tree with the
            // speed the port reports.
            old(self).phase == RootPhase::ReadSpeed ==> r == (RootAction::EnumerateDevice {
                route: 0,
                root_port: (old(self).port + 1) as u32,
                speed: (input >> 10u32) & 0xF,
                tt_slot: 0,
                tt_port: 0,
                depth: 0,
            }),
            // The first keyboard ends the walk.
            old(self).phase == RootPhase::Child && input != 0 ==> r == (RootAction::Finished { keyboard: true }),
            old(self).phase == RootPhase::Child && input == 0 ==> r == (if old(self).port + 1 < old(self).max_ports {
                RootAction::ReadPortsc { port: (old(self).port + 1) as u32 }
            } else {
                RootAction::Finished { keyboard: false }
            }),
            old(self).phase matches RootPhase::Done { keyboard } ==> r == (RootAction::Finished { keyboard }),
    {
        match self.phase {
            RootPhase::PowerRead => {
                self.phase = RootPhase::PowerWrite;
                RootAction::WritePortsc { port: self.port, value: port_power_on(input) }
            },
            RootPhase::PowerWrite => {
                if self.port + 1 < self.max_ports {
                    self.port = self.port + 1;
                    self.phase = RootPhase::PowerRead;
                    RootAction::ReadPortsc { port: self.port }
                } else {
                    self.port = 0;
                    self.phase = RootPhase::PowerSettle;
                    RootAction::Sleep { ms: ROOT_POWER_MS }
                }
            },
            RootPhase::PowerSettle => {
                self.phase = RootPhase::Drain { left: STARTUP_EVENTS };
                RootAction::ConsumeEvent
            },
            RootPhase::Drain { left } => {
                if input == EVT_PORT_CHANGE && left > 1 {
                    self.phase = RootPhase::Drain { left: left - 1 };
                    RootAction::ConsumeEvent
                } else if self.max_ports > 0 {
                    self.port = 0;
                    self.phase = RootPhase::ReadConnect;
                    RootAction::ReadPortsc { port: 0 }
                } else {
                    self.phase = RootPhase::Done { keyboard: false };
                    RootAction::Finished { keyboard: false }
                }
            },
            RootPhase::ReadConnect => {
                if !port_connected(input) {
                    self.next_port()
                } else {
                    self.phase = RootPhase::StartReset;
                    RootAction::WritePortsc { port: self.port, value: port_reset_value(input) }
                }
            },
            RootPhase::StartReset => {
                self.phase = RootPhase::ResetSettle;
                RootAction::Sleep { ms: ROOT_RESET_MS }
            },
            RootPhase::ResetSettle => {
                self.phase = RootPhase::Poll { left: ROOT_RESET_POLLS };
                RootAction::ReadPortsc { port: self.port }
            },
            RootPhase::Poll { left } => {
                if port_in_reset(input) && left > 0 {
                    self.phase = RootPhase::Poll { left: left - 1 };
                    RootAction::ReadPortsc { port: self.port }
                } else if !port_enabled(input) {
                    self.next_port()
                } else {
                    self.phase = RootPhase::ClearChanges;
                    RootAction::WritePortsc { port: self.port, value: port_clear_changes_value(input) }
                }
            },
            RootPhase::ClearChanges => {
                self.phase = RootPhase::ReadSpeed;
                RootAction::ReadPortsc { port: self.port }
            },
            RootPhase::ReadSpeed => {
                let speed = port_speed(input);
                self.phase = RootPhase::Child;
                RootAction::EnumerateDevice {
                    route: 0,
                    root_port: self.port + 1,
                    speed,
                    tt_slot: 0,
                    tt_port: 0,
                    depth: 0,
                }
            },
            RootPhase::Child => {
                if input != 0 {
                    self.phase = RootPhase::Done { keyboard: true };
                    RootAction::Finished { keyboard: true }
                } else {
                    self.next_port()
                }
            },
            RootPhase::Done { keyboard } => RootAction::Finished { keyboard },
        }
    }
}

} // verus!
