//! Core of a small single-core kernel: an interrupt-driven cooperative task
//! executor, the bounded queue and wake cell that bridge interrupt context to
//! scheduled context, and the line editor that consumes decoded key presses.

pub mod allocator;
pub mod memory;
pub mod task;
pub mod vga_buffer;

use vstd::prelude::*;

verus! {

/// The signal with which the kernel leaves the emulator.
#[derive(Debug, Clone, Copy, PartialEq, Eq, Structural)]
pub enum QemuExitCode {
    Success,
    Failed,
}

impl QemuExitCode {
    /// The value written to the emulator's exit port for this signal.
    pub open spec fn port_value(self) -> u32 {
        match self {
            QemuExitCode::Success => 0x10,
            QemuExitCode::Failed => 0x11,
        }
    }

    /// Computes the value written to the emulator's exit port.
    pub fn code(self) -> (value: u32)
        ensures
            value == self.port_value(),
    {
        match self {
            QemuExitCode::Success => 0x10,
            QemuExitCode::Failed => 0x11,
        }
    }
}

} // verus!
