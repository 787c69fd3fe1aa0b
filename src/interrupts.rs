//! Interrupt vector numbers of the two chained programmable interrupt
//! controllers.
use vstd::prelude::*;

verus! {

/// First vector of the primary controller.
pub const PIC1_OFFSET: u8 = 32;

/// First vector of the secondary controller.
pub const PIC2_OFFSET: u8 = 32 + 8;

/// Hardware interrupts the kernel handles, in controller line order.
#[derive(Clone, Copy, Debug, PartialEq, Eq, Structural)]
pub enum HardwareInterrupt {
    Timer,
    Keyboard,
}

impl HardwareInterrupt {
    /// Interrupt vector of this line.
    pub open spec fn vector(self) -> u8 {
        match self {
            HardwareInterrupt::Timer => PIC1_OFFSET,
            HardwareInterrupt::Keyboard => (PIC1_OFFSET + 1) as u8,
        }
    }

    /// Interrupt vector of this line.
    pub fn to_u8(self) -> (r: u8)
        ensures
            r == self.vector(),
    {
        match self {
            HardwareInterrupt::Timer => PIC1_OFFSET,
            HardwareInterrupt::Keyboard => PIC1_OFFSET + 1,
        }
    }

    /// Interrupt vector of this line, as an index into the descriptor table.
    pub fn to_usize(self) -> (r: usize)
        ensures
            r == self.vector() as usize,
    {
        self.to_u8() as usize
    }
}

/// Exit status written to the emulator's debug-exit port.
#[derive(Clone, Copy, Debug, PartialEq, Eq, Structural)]
pub enum QemuExitCode {
    Success,
    Fail,
}

impl QemuExitCode {
    /// The value written to the port.
    pub fn code(self) -> (r: u32)
        ensures
            self == QemuExitCode::Success ==> r == 0x10,
            self == QemuExitCode::Fail ==> r == 0x11,
    {
        match self {
            QemuExitCode::Success => 0x10,
            QemuExitCode::Fail => 0x11,
        }
    }
}

} // verus!
