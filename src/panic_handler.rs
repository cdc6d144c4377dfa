//! How a run ends: the exit codes reported to the host, and what a failure
//! does in each run mode.
use vstd::prelude::*;
use crate::vga::{pack_colors, Color, ColorCode};

verus! {

/// The I/O port that the host emulator watches for the exit code.
pub const EXIT_PORT: u16 = 0xf4;

/// The result of a run of the test harness, as reported to the host.
#[derive(Debug, Clone, Copy, PartialEq, Eq, Structural)]
pub enum OSExitCode {
    Success,
    Fail,
}

/// The value written to `EXIT_PORT` for an exit code.
pub open spec fn exit_code_value(code: OSExitCode) -> u32 {
    match code {
        OSExitCode::Success => 0x10,
        OSExitCode::Fail => 0x11,
    }
}

impl OSExitCode {
    /// The value written to `EXIT_PORT`: 0x10 for success, 0x11 for failure.
    pub fn code(self) -> (r: u32)
        ensures
            r == exit_code_value(self),
    {
        match self {
            OSExitCode::Success => 0x10,
            OSExitCode::Fail => 0x11,
        }
    }
}

/// Whether the system runs the test harness or boots normally.
#[derive(Debug, Clone, Copy, PartialEq, Eq, Structural)]
pub enum RunMode {
    Harness,
    Production,
}

/// What the failure path does.
#[derive(Debug, Clone, Copy, PartialEq, Eq, Structural)]
pub enum FailureAction {
    /// Report the failure on the serial line, then write `code` to the exit port.
    ReportAndExit { code: OSExitCode },
    /// Show the failure on the console in `color`, then halt for good.
    DisplayAndHalt { color: ColorCode },
}

/// The attribute of a failure shown on the console: black on light red.
pub open spec fn failure_color() -> u8 {
    pack_colors(Color::Black, Color::LightRed)
}

/// The single failure path: under the harness a failure is reported and ends
/// the run with `OSExitCode::Fail`; otherwise it is shown on the console and
/// the system halts, with nothing written to the exit port.
pub fn failure_action(mode: RunMode) -> (r: FailureAction)
    ensures
        mode == RunMode::Harness ==> r == (FailureAction::ReportAndExit { code: OSExitCode::Fail }),
        mode == RunMode::Production ==> (r matches FailureAction::DisplayAndHalt { color }
            && color@ == failure_color()),
{
    match mode {
        RunMode::Harness => FailureAction::ReportAndExit { code: OSExitCode::Fail },
        RunMode::Production => FailureAction::DisplayAndHalt {
            color: ColorCode::new(Color::Black, Color::LightRed),
        },
    }
}

} // verus!
