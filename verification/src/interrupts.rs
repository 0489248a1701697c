//! Interrupt vectors of the two chained interrupt controllers.

use vstd::prelude::*;

verus! {

/// Vector of the first line of the primary interrupt controller.
pub const PIC1_OFFSET: u8 = 32;

/// Vector of the first line of the secondary interrupt controller.
pub const PIC2_OFFSET: u8 = PIC1_OFFSET + 8;

/// The sixteen lines of the two interrupt controllers, in line order.
#[derive(Clone, Copy, Debug, PartialEq, Eq, Structural)]
pub enum InterruptIndex {
    Timer,
    Keyboard,
    SecondaryIC,
    SerialPort2,
    SerialPort1,
    ParallelPort23,
    FloppyDisk,
    ParallelPort1,
    RealTimeClock,
    ACPI,
    Available1,
    Available2,
    Mouse,
    CoProcessor,
    PrimaryAta,
    SecondaryAta,
}

impl InterruptIndex {
    /// The number of the line, 0 to 15: lines 0 to 7 belong to the primary
    /// controller, lines 8 to 15 to the secondary one.
    pub open spec fn line(self) -> int {
        match self {
            InterruptIndex::Timer => 0,
            InterruptIndex::Keyboard => 1,
            InterruptIndex::SecondaryIC => 2,
            InterruptIndex::SerialPort2 => 3,
            InterruptIndex::SerialPort1 => 4,
            InterruptIndex::ParallelPort23 => 5,
            InterruptIndex::FloppyDisk => 6,
            InterruptIndex::ParallelPort1 => 7,
            InterruptIndex::RealTimeClock => 8,
            InterruptIndex::ACPI => 9,
            InterruptIndex::Available1 => 10,
            InterruptIndex::Available2 => 11,
            InterruptIndex::Mouse => 12,
            InterruptIndex::CoProcessor => 13,
            InterruptIndex::PrimaryAta => 14,
            InterruptIndex::SecondaryAta => 15,
        }
    }

    /// The interrupt vector that the line is delivered on.
    pub fn as_u8(self) -> (vector: u8)
        ensures
            vector == PIC1_OFFSET + self.line(),
    {
        match self {
            InterruptIndex::Timer => PIC1_OFFSET,
            InterruptIndex::Keyboard => PIC1_OFFSET + 1,
            InterruptIndex::SecondaryIC => PIC1_OFFSET + 2,
            InterruptIndex::SerialPort2 => PIC1_OFFSET + 3,
            InterruptIndex::SerialPort1 => PIC1_OFFSET + 4,
            InterruptIndex::ParallelPort23 => PIC1_OFFSET + 5,
            InterruptIndex::FloppyDisk => PIC1_OFFSET + 6,
            InterruptIndex::ParallelPort1 => PIC1_OFFSET + 7,
            InterruptIndex::RealTimeClock => PIC2_OFFSET,
            InterruptIndex::ACPI => PIC2_OFFSET + 1,
            InterruptIndex::Available1 => PIC2_OFFSET + 2,
            InterruptIndex::Available2 => PIC2_OFFSET + 3,
            InterruptIndex::Mouse => PIC2_OFFSET + 4,
            InterruptIndex::CoProcessor => PIC2_OFFSET + 5,
            InterruptIndex::PrimaryAta => PIC2_OFFSET + 6,
            InterruptIndex::SecondaryAta => PIC2_OFFSET + 7,
        }
    }

    /// The interrupt vector as an index into the descriptor table.
    pub fn as_usize(self) -> (vector: usize)
        ensures
            vector == PIC1_OFFSET + self.line(),
    {
        self.as_u8() as usize
    }
}

/// Every line has a vector of its own, outside the range of the processor's
/// exceptions and inside that of the two controllers.
pub proof fn lemma_vectors_distinct(a: InterruptIndex, b: InterruptIndex)
    ensures
        32 <= PIC1_OFFSET + a.line() < 48,
        a != b ==> a.line() != b.line(),
        (a.line() >= 8) == (PIC1_OFFSET + a.line() >= PIC2_OFFSET),
{
}

} // verus!
