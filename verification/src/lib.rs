//! Core subsystems of a minimal x86-64 kernel: the interrupt/exception
//! dispatch tables, the dual chained interrupt controller, the character-grid
//! diagnostic writer, and the virtual-memory manager with its physical frame
//! allocator.

use vstd::prelude::*;

pub mod gdt;
pub mod interrupts;
pub mod memory;
pub mod vga_buffer;

verus! {

/// The exit statuses the test harness requests from the emulator through
/// the privileged exit port.
#[derive(Debug, Clone, Copy, PartialEq, Eq)]
pub enum QemuExitCode {
    Success,
    Failed,
}

impl QemuExitCode {
    /// The status value written to the exit port.
    pub open spec fn spec_as_u32(self) -> u32 {
        match self {
            QemuExitCode::Success => 0x10,
            QemuExitCode::Failed => 0x11,
        }
    }

    /// The status value written to the exit port.
    pub fn as_u32(self) -> (v: u32)
        ensures
            v == self.spec_as_u32(),
    {
        match self {
            QemuExitCode::Success => 0x10,
            QemuExitCode::Failed => 0x11,
        }
    }
}

/// A testable unit: something that can be run once.
pub trait Testable {
    /// Runs the test.
    fn run(&self);
}

/// Runs every test in order. Once all of them have returned, the harness
/// is owed a successful exit request, which this yields.
pub fn test_runner<T: Testable>(tests: &Vec<T>) -> (code: QemuExitCode)
    ensures
        code == QemuExitCode::Success,
{
    let n = tests.len();
    for i in 0..n
        invariant
            n == tests@.len(),
    {
        tests[i].run();
    }
    QemuExitCode::Success
}

} // verus!
