//! Taking the xHCI controller from whatever state the firmware left it in
//! to a clean reset, and later setting it running.
//!
//! Both are state machines over the USBCMD and USBSTS registers: the
//! kernel performs each read or write and hands back what it read, and the
//! machine says what to do next.  Every wait is bounded.
use vstd::prelude::*;

verus! {

/// USBCMD: Run/Stop.
pub const USBCMD_RS: u32 = 1;
/// USBCMD: Host Controller Reset.
pub const USBCMD_HCRST: u32 = 1 << 1;
/// USBSTS: HC Halted.
pub const USBSTS_HCH: u32 = 1;
/// USBSTS: Controller Not Ready.
pub const USBSTS_CNR: u32 = 1 << 11;
/// Reads while waiting for the controller to halt or to start.
pub const HALT_POLLS: u32 = 1_000_000;
/// Reads while waiting for the reset to end, and for the controller to be
/// ready after it.
pub const RESET_POLLS: u32 = 5_000_000;

/// A register access the kernel performs.
#[derive(Clone, Copy, PartialEq, Eq, Structural, Debug)]
pub enum RegAction {
    /// Read USBCMD and hand it back.
    ReadUsbcmd,
    /// Read USBSTS and hand it back.
    ReadUsbsts,
    /// Write `value` to USBCMD.
    WriteUsbcmd { value: u32 },
    /// The sequence is over; `ok` tells whether the last wait ended on the
    /// state it waited for rather than on its budget.
    Finished { ok: bool },
}

/// The action last asked for in a reset.
#[derive(Clone, Copy, PartialEq, Eq, Structural, Debug)]
pub enum ResetPhase {
    /// USBSTS was asked for, to see whether the controller runs.
    CheckHalted,
    /// USBCMD was asked for, to clear Run/Stop.
    ReadForStop,
    /// Run/Stop was cleared.
    Stopped,
    /// USBSTS was asked for while waiting for the halt; `left` more reads
    /// allowed.
    WaitHalt { left: u32 },
    /// USBCMD was asked for, to set the reset bit.
    ReadForReset,
    /// The reset bit was set.
    ResetStarted,
    /// USBCMD was asked for while waiting for the reset bit to clear.
    WaitReset { left: u32 },
    /// USBSTS was asked for while waiting for Controller Not Ready to clear.
    WaitReady { left: u32 },
    Done { ok: bool },
}

/// The reset of a controller: halt it if it runs, reset it, wait until
/// it is ready.
#[derive(Clone, Copy, PartialEq, Eq, Structural, Debug)]
pub struct ControllerReset {
    pub phase: ResetPhase,
}

/// One step of the reset: the state after the register value `input`
/// read by the last action (not looked at after a write), and the next
/// access.  A running controller has Run/Stop cleared (other USBCMD bits
/// kept) and its halt is waited for; then HCRST is set (other bits kept)
/// and waited on until the controller clears it; then Controller Not Ready
/// is waited on until it clears.  Each wait takes at most its budget of
/// reads, and the reset reports whether the last one ended on its state.
pub open spec fn reset_next(s: ControllerReset, input: u32) -> (ControllerReset, RegAction) {
    match s.phase {
        ResetPhase::CheckHalted => if input & USBSTS_HCH == 0 {
            (ControllerReset { phase: ResetPhase::ReadForStop }, RegAction::ReadUsbcmd)
        } else {
            (ControllerReset { phase: ResetPhase::ReadForReset }, RegAction::ReadUsbcmd)
        },
        ResetPhase::ReadForStop => (
            ControllerReset { phase: ResetPhase::Stopped },
            RegAction::WriteUsbcmd { value: input & !USBCMD_RS },
        ),
        ResetPhase::Stopped => (ControllerReset { phase: ResetPhase::WaitHalt { left: HALT_POLLS } }, RegAction::ReadUsbsts),
        ResetPhase::WaitHalt { left } => if input & USBSTS_HCH == 0 && left > 0 {
            (ControllerReset { phase: ResetPhase::WaitHalt { left: (left - 1) as u32 } }, RegAction::ReadUsbsts)
        } else {
            (ControllerReset { phase: ResetPhase::ReadForReset }, RegAction::ReadUsbcmd)
        },
        ResetPhase::ReadForReset => (
            ControllerReset { phase: ResetPhase::ResetStarted },
            RegAction::WriteUsbcmd { value: input | USBCMD_HCRST },
        ),
        ResetPhase::ResetStarted => (
            ControllerReset { phase: ResetPhase::WaitReset { left: RESET_POLLS } },
            RegAction::ReadUsbcmd,
        ),
        ResetPhase::WaitReset { left } => if input & USBCMD_HCRST != 0 && left > 0 {
            (ControllerReset { phase: ResetPhase::WaitReset { left: (left - 1) as u32 } }, RegAction::ReadUsbcmd)
        } else {
            (ControllerReset { phase: ResetPhase::WaitReady { left: RESET_POLLS } }, RegAction::ReadUsbsts)
        },
        ResetPhase::WaitReady { left } => if input & USBSTS_CNR != 0 && left > 0 {
            (ControllerReset { phase: ResetPhase::WaitReady { left: (left - 1) as u32 } }, RegAction::ReadUsbsts)
        } else {
            let ok = input & USBSTS_CNR == 0;
            (ControllerReset { phase: ResetPhase::Done { ok } }, RegAction::Finished { ok })
        },
        ResetPhase::Done { ok } => (s, RegAction::Finished { ok }),
    }
}

impl ControllerReset {
    pub open spec fn wf(&self) -> bool {
        match self.phase {
            ResetPhase::WaitHalt { left } => left <= HALT_POLLS,
            ResetPhase::WaitReset { left } => left <= RESET_POLLS,
            ResetPhase::WaitReady { left } => left <= RESET_POLLS,
            _ => true,
        }
    }

    /// Steps left at most: the reset ends within this many actions.
    pub open spec fn measure(&self) -> nat {
        let m: int = match self.phase {
            ResetPhase::CheckHalted => HALT_POLLS + 2 * RESET_POLLS + 10,
            ResetPhase::ReadForStop => HALT_POLLS + 2 * RESET_POLLS + 9,
            ResetPhase::Stopped => HALT_POLLS + 2 * RESET_POLLS + 8,
            ResetPhase::WaitHalt { left } => left + 2 * RESET_POLLS + 6,
            ResetPhase::ReadForReset => 2 * RESET_POLLS + 5,
            ResetPhase::ResetStarted => 2 * RESET_POLLS + 4,
            ResetPhase::WaitReset { left } => left + RESET_POLLS + 2,
            ResetPhase::WaitReady { left } => left + 1,
            ResetPhase::Done { .. } => 0,
        };
        m as nat
    }

    /// Start: look at USBSTS.
    pub fn start() -> (r: (Self, RegAction))
        ensures
            r.0.wf(),
            r.0.phase == ResetPhase::CheckHalted,
            r.1 == RegAction::ReadUsbsts,
    {
        (ControllerReset { phase: ResetPhase::CheckHalted }, RegAction::ReadUsbsts)
    }

    /// Ask for USBCMD to set the reset bit in it.
    fn begin_reset(&mut self) -> (r: RegAction)
        ensures
            final(self).phase == ResetPhase::ReadForReset,
            r == RegAction::ReadUsbcmd,
    {
        self.phase = ResetPhase::ReadForReset;
        RegAction::ReadUsbcmd
    }

    /// Take what the last action read (USBCMD or USBSTS; after a write it
    /// is not looked at) and say what to do next.
    pub fn step(&mut self, input: u32) -> (r: RegAction)
        requires
            old(self).wf(),
        ensures
            final(self).wf(),
            // The reset ends, or gets closer to its end.
            r is Finished || final(self).measure() < old(self).measure(),
            final(self).phase is Done <==> r is Finished,
            *final(self) == reset_next(*old(self), input).0,
            r == reset_next(*old(self), input).1,
            // A controller that runs is stopped first, keeping the other
            // bits of USBCMD; a halted one is reset at once.
            old(self).phase == ResetPhase::CheckHalted ==> if input & USBSTS_HCH == 0 {
                r == RegAction::ReadUsbcmd && final(self).phase == ResetPhase::ReadForStop
            } else {
                r == RegAction::ReadUsbcmd && final(self).phase == ResetPhase::ReadForReset
            },
            old(self).phase == ResetPhase::ReadForStop ==> r == (RegAction::WriteUsbcmd { value: input & !USBCMD_RS }),
            old(self).phase == ResetPhase::Stopped ==> r == RegAction::ReadUsbsts && final(self).phase == (
            ResetPhase::WaitHalt { left: HALT_POLLS }),
            // The halt is waited for, at most `HALT_POLLS` more reads.
            old(self).phase matches ResetPhase::WaitHalt { left } ==> if input & USBSTS_HCH == 0 && left > 0 {
                r == RegAction::ReadUsbsts && final(self).phase == (ResetPhase::WaitHalt { left: (left - 1) as u32 })
            } else {
                r == RegAction::ReadUsbcmd && final(self).phase == ResetPhase::ReadForReset
            },
            old(self).phase == ResetPhase::ReadForReset ==> r == (RegAction::WriteUsbcmd {
                value: input | USBCMD_HCRST,
            }),
            old(self).phase == ResetPhase::ResetStarted ==> r == RegAction::ReadUsbcmd && final(self).phase == (
            ResetPhase::WaitReset { left: RESET_POLLS }),
            // The controller clears the reset bit when the reset is over.
            old(self).phase matches ResetPhase::WaitReset { left } ==> if input & USBCMD_HCRST != 0 && left > 0 {
                r == RegAction::ReadUsbcmd && final(self).phase == (ResetPhase::WaitReset {
                    left: (left - 1) as u32,
                })
            } else {
                r == RegAction::ReadUsbsts && final(self).phase == (ResetPhase::WaitReady { left: RESET_POLLS })
            },
            // Then it clears Controller Not Ready.
            old(self).phase matches ResetPhase::WaitReady { left } ==> if input & USBSTS_CNR != 0 && left > 0 {
                r == RegAction::ReadUsbsts && final(self).phase == (ResetPhase::WaitReady {
                    left: (left - 1) as u32,
                })
            } else {
                r == (RegAction::Finished { ok: input & USBSTS_CNR == 0 })
            },
            old(self).phase matches ResetPhase::Done { ok } ==> r == (RegAction::Finished { ok }),
    {
        match self.phase {
            ResetPhase::CheckHalted => {
                if input & USBSTS_HCH == 0 {
                    self.phase = ResetPhase::ReadForStop;
                    RegAction::ReadUsbcmd
                } else {
                    self.begin_reset()
                }
            },
            ResetPhase::ReadForStop => {
                self.phase = ResetPhase::Stopped;
                RegAction::WriteUsbcmd { value: input & !USBCMD_RS }
            },
            ResetPhase::Stopped => {
                self.phase = ResetPhase::WaitHalt { left: HALT_POLLS };
                RegAction::ReadUsbsts
            },
            ResetPhase::WaitHalt { left } => {
                if input & USBSTS_HCH == 0 && left > 0 {
                    self.phase = ResetPhase::WaitHalt { left: left - 1 };
                    RegAction::ReadUsbsts
                } else {
                    self.begin_reset()
                }
            },
            ResetPhase::ReadForReset => {
                self.phase = ResetPhase::ResetStarted;
                RegAction::WriteUsbcmd { value: input | USBCMD_HCRST }
            },
            ResetPhase::ResetStarted => {
                self.phase = ResetPhase::WaitReset { left: RESET_POLLS };
                RegAction::ReadUsbcmd
            },
            ResetPhase::WaitReset { left } => {
                if input & USBCMD_HCRST != 0 && left > 0 {
                    self.phase = ResetPhase::WaitReset { left: left - 1 };
                    RegAction::ReadUsbcmd
                } else {
                    self.phase = ResetPhase::WaitReady { left: RESET_POLLS };
                    RegAction::ReadUsbsts
                }
            },
            ResetPhase::WaitReady { left } => {
                if input & USBSTS_CNR != 0 && left > 0 {
                    self.phase = ResetPhase::WaitReady { left: left - 1 };
                    RegAction::ReadUsbsts
                } else {
                    let ok = input & USBSTS_CNR == 0;
                    self.phase = ResetPhase::Done { ok };
                    RegAction::Finished { ok }
                }
            },
            ResetPhase::Done { ok } => RegAction::Finished { ok },
        }
    }
}

/// The action last asked for in a start.
#[derive(Clone, Copy, PartialEq, Eq, Structural, Debug)]
pub enum RunPhase {
    /// USBCMD was asked for, to set Run/Stop.
    ReadCommand,
    /// Run/Stop was set.
    Started,
    /// USBSTS was asked for while waiting for the halt bit to clear.
    WaitRunning { left: u32 },
    Done { ok: bool },
}

/// Setting a configured controller running.
#[derive(Clone, Copy, PartialEq, Eq, Structural, Debug)]
pub struct ControllerRun {
    pub phase: RunPhase,
}

/// One step of the start: Run/Stop is set (other USBCMD bits kept), then
/// HC Halted is waited on until it clears, at most `HALT_POLLS` reads; the
/// start reports whether the controller runs.
pub open spec fn run_next(s: ControllerRun, input: u32) -> (ControllerRun, RegAction) {
    match s.phase {
        RunPhase::ReadCommand => (
            ControllerRun { phase: RunPhase::Started },
            RegAction::WriteUsbcmd { value: input | USBCMD_RS },
        ),
        RunPhase::Started => (ControllerRun { phase: RunPhase::WaitRunning { left: HALT_POLLS } }, RegAction::ReadUsbsts),
        RunPhase::WaitRunning { left } => if input & USBSTS_HCH != 0 && left > 0 {
            (ControllerRun { phase: RunPhase::WaitRunning { left: (left - 1) as u32 } }, RegAction::ReadUsbsts)
        } else {
            let ok = input & USBSTS_HCH == 0;
            (ControllerRun { phase: RunPhase::Done { ok } }, RegAction::Finished { ok })
        },
        RunPhase::Done { ok } => (s, RegAction::Finished { ok }),
    }
}

impl ControllerRun {
    pub open spec fn wf(&self) -> bool {
        match self.phase {
            RunPhase::WaitRunning { left } => left <= HALT_POLLS,
            _ => true,
        }
    }

    /// Steps left at most.
    pub open spec fn measure(&self) -> nat {
        let m: int = match self.phase {
            RunPhase::ReadCommand => HALT_POLLS + 3,
            RunPhase::Started => HALT_POLLS + 2,
            RunPhase::WaitRunning { left } => left + 1,
            RunPhase::Done { .. } => 0,
        };
        m as nat
    }

    /// Start: read USBCMD.
    pub fn start() -> (r: (Self, RegAction))
        ensures
            r.0.wf(),
            r.0.phase == RunPhase::ReadCommand,
            r.1 == RegAction::ReadUsbcmd,
    {
        (ControllerRun { phase: RunPhase::ReadCommand }, RegAction::ReadUsbcmd)
    }

    /// Take what the last action read and say what to do next.
    pub fn step(&mut self, input: u32) -> (r: RegAction)
        requires
            old(self).wf(),
        ensures
            final(self).wf(),
            r is Finished || final(self).measure() < old(self).measure(),
            final(self).phase is Done <==> r is Finished,
            *final(self) == run_next(*old(self), input).0,
            r == run_next(*old(self), input).1,
            // Run/Stop is set, keeping the other bits of USBCMD.
            old(self).phase == RunPhase::ReadCommand ==> r == (RegAction::WriteUsbcmd { value: input | USBCMD_RS }),
            old(self).phase == RunPhase::Started ==> r == RegAction::ReadUsbsts && final(self).phase == (
            RunPhase::WaitRunning { left: HALT_POLLS }),
            // The halt bit clears once the controller runs.
            old(self).phase matches RunPhase::WaitRunning { left } ==> if input & USBSTS_HCH != 0 && left > 0 {
                r == RegAction::ReadUsbsts && final(self).phase == (RunPhase::WaitRunning {
                    left: (left - 1) as u32,
                })
            } else {
                r == (RegAction::Finished { ok: input & USBSTS_HCH == 0 })
            },
            old(self).phase matches RunPhase::Done { ok } ==> r == (RegAction::Finished { ok }),
    {
        match self.phase {
            RunPhase::ReadCommand => {
                self.phase = RunPhase::Started;
                RegAction::WriteUsbcmd { value: input | USBCMD_RS }
            },
            RunPhase::Started => {
                self.phase = RunPhase::WaitRunning { left: HALT_POLLS };
                RegAction::ReadUsbsts
            },
            RunPhase::WaitRunning { left } => {
                if input & USBSTS_HCH != 0 && left > 0 {
                    self.phase = RunPhase::WaitRunning { left: left - 1 };
                    RegAction::ReadUsbsts
                } else {
                    let ok = input & USBSTS_HCH == 0;
                    self.phase = RunPhase::Done { ok };
                    RegAction::Finished { ok }
                }
            },
            RunPhase::Done { ok } => RegAction::Finished { ok },
        }
    }
}

} // verus!
