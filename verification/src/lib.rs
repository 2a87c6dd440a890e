//! Verified core of a small x86-64 hobby kernel: the VGA text-mode writer,
//! the interrupt table layout and keyboard decoding, the task-state stack
//! table and the QEMU exit protocol used by the test harness.

pub mod gdt;
pub mod interrupts;
pub mod vga_buffer;

use vstd::prelude::*;

verus! {

/// Exit codes understood by QEMU's `isa-debug-exit` device.
#[derive(Clone, Copy, Debug, PartialEq, Eq, Structural)]
pub enum QemuExitCode {
    Success,
    Failed,
}

impl QemuExitCode {
    /// The value written to the exit port for this code.
    pub open spec fn spec_as_u32(self) -> u32 {
        match self {
            QemuExitCode::Success => 0x10,
            QemuExitCode::Failed => 0x11,
        }
    }

    /// The value written to the exit port for this code.
    #[verifier::when_used_as_spec(spec_as_u32)]
    pub fn as_u32(self) -> (v: u32)
        ensures
            v == self.spec_as_u32(),
    {
        match self {
            QemuExitCode::Success => 0x10,
            QemuExitCode::Failed => 0x11,
        }
    }
}

/// Something the test runner can run.
pub trait Testable {
    fn run(&self);
}

/// Runs every test once, in the order given, and answers the exit code that
/// the harness reports to QEMU once all of them have returned.
pub fn test_runner(tests: &[&dyn Testable]) -> (code: QemuExitCode)
    ensures
        code == QemuExitCode::Success,
{
    let n: usize = tests.len();
    for i in 0..n
        invariant
            n == tests@.len(),
    {
        tests[i].run();
    }
    QemuExitCode::Success
}

} // verus!
