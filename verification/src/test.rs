//! The status the kernel's test harness reports to the emulator.

use vstd::prelude::*;

verus! {

/// The outcome written to the emulator's test device.
#[derive(Clone, Copy, Debug, PartialEq, Eq, Structural)]
pub enum QemuExitCode {
    Success,
    Failed,
}

impl QemuExitCode {
    /// The value written to the test device: pass `0x5555`, fail `0x3333`.
    pub fn code(self) -> (c: u32)
        ensures
            c == (match self {
                QemuExitCode::Success => 0x5555u32,
                QemuExitCode::Failed => 0x3333u32,
            }),
    {
        match self {
            QemuExitCode::Success => 0x5555,
            QemuExitCode::Failed => 0x3333,
        }
    }
}

} // verus!
