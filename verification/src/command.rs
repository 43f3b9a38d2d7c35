//! Controller commands and their opcodes.

use vstd::prelude::*;

verus! {

/// The commands of the ILI9341 instruction set that this driver issues.
#[derive(Clone, Copy, Debug, PartialEq, Eq, Structural)]
pub enum Command {
    SoftwareReset,
    PowerControlA,
    PowerControlB,
    DriverTimingControlA,
    DriverTimingControlB,
    PowerOnSequenceControl,
    PumpRatioControl,
    PowerControl1,
    PowerControl2,
    VCOMControl1,
    VCOMControl2,
    MemoryAccessControl,
    PixelFormatSet,
    FrameControlNormal,
    DisplayFunctionControl,
    Enable3G,
    GammaSet,
    PositiveGammaCorrection,
    NegativeGammaCorrection,
    SleepOut,
    DisplayOn,
    ColumnAddressSet,
    PageAddressSet,
    MemoryWrite,
    InvertOff,
    InvertOn,
}

/// The opcode byte of each command, as given by the controller's datasheet.
pub open spec fn opcode(c: Command) -> u8 {
    match c {
        Command::SoftwareReset => 0x01,
        Command::PowerControlA => 0xcb,
        Command::PowerControlB => 0xcf,
        Command::DriverTimingControlA => 0xe8,
        Command::DriverTimingControlB => 0xea,
        Command::PowerOnSequenceControl => 0xed,
        Command::PumpRatioControl => 0xf7,
        Command::PowerControl1 => 0xc0,
        Command::PowerControl2 => 0xc1,
        Command::VCOMControl1 => 0xc5,
        Command::VCOMControl2 => 0xc7,
        Command::MemoryAccessControl => 0x36,
        Command::PixelFormatSet => 0x3a,
        Command::FrameControlNormal => 0xb1,
        Command::DisplayFunctionControl => 0xb6,
        Command::Enable3G => 0xf2,
        Command::GammaSet => 0x26,
        Command::PositiveGammaCorrection => 0xe0,
        Command::NegativeGammaCorrection => 0xe1,
        Command::SleepOut => 0x11,
        Command::DisplayOn => 0x29,
        Command::ColumnAddressSet => 0x2a,
        Command::PageAddressSet => 0x2b,
        Command::MemoryWrite => 0x2c,
        Command::InvertOff => 0x20,
        Command::InvertOn => 0x21,
    }
}

impl Command {
    /// The opcode byte sent on the bus for this command.
    pub fn code(self) -> (b: u8)
        ensures
            b == opcode(self),
    {
        match self {
            Command::SoftwareReset => 0x01,
            Command::PowerControlA => 0xcb,
            Command::PowerControlB => 0xcf,
            Command::DriverTimingControlA => 0xe8,
            Command::DriverTimingControlB => 0xea,
            Command::PowerOnSequenceControl => 0xed,
            Command::PumpRatioControl => 0xf7,
            Command::PowerControl1 => 0xc0,
            Command::PowerControl2 => 0xc1,
            Command::VCOMControl1 => 0xc5,
            Command::VCOMControl2 => 0xc7,
            Command::MemoryAccessControl => 0x36,
            Command::PixelFormatSet => 0x3a,
            Command::FrameControlNormal => 0xb1,
            Command::DisplayFunctionControl => 0xb6,
            Command::Enable3G => 0xf2,
            Command::GammaSet => 0x26,
            Command::PositiveGammaCorrection => 0xe0,
            Command::NegativeGammaCorrection => 0xe1,
            Command::SleepOut => 0x11,
            Command::DisplayOn => 0x29,
            Command::ColumnAddressSet => 0x2a,
            Command::PageAddressSet => 0x2b,
            Command::MemoryWrite => 0x2c,
            Command::InvertOff => 0x20,
            Command::InvertOn => 0x21,
        }
    }
}

/// Distinct commands are sent with distinct opcodes, so the controller can
/// always tell which command it received.
pub proof fn lemma_opcodes_distinct(a: Command, b: Command)
    requires
        a != b,
    ensures
        opcode(a) != opcode(b),
{
}

/// The opcodes are those of the ILI9341 datasheet's command list.
pub proof fn lemma_datasheet_opcodes()
    ensures
        opcode(Command::SoftwareReset) == 0x01u8,
        opcode(Command::SleepOut) == 0x11u8,
        opcode(Command::InvertOff) == 0x20u8,
        opcode(Command::InvertOn) == 0x21u8,
        opcode(Command::GammaSet) == 0x26u8,
        opcode(Command::DisplayOn) == 0x29u8,
        opcode(Command::ColumnAddressSet) == 0x2au8,
        opcode(Command::PageAddressSet) == 0x2bu8,
        opcode(Command::MemoryWrite) == 0x2cu8,
        opcode(Command::MemoryAccessControl) == 0x36u8,
        opcode(Command::PixelFormatSet) == 0x3au8,
        opcode(Command::FrameControlNormal) == 0xb1u8,
        opcode(Command::DisplayFunctionControl) == 0xb6u8,
        opcode(Command::PowerControl1) == 0xc0u8,
        opcode(Command::PowerControl2) == 0xc1u8,
        opcode(Command::VCOMControl1) == 0xc5u8,
        opcode(Command::VCOMControl2) == 0xc7u8,
        opcode(Command::PowerControlA) == 0xcbu8,
        opcode(Command::PowerControlB) == 0xcfu8,
        opcode(Command::PositiveGammaCorrection) == 0xe0u8,
        opcode(Command::NegativeGammaCorrection) == 0xe1u8,
        opcode(Command::DriverTimingControlA) == 0xe8u8,
        opcode(Command::DriverTimingControlB) == 0xeau8,
        opcode(Command::PowerOnSequenceControl) == 0xedu8,
        opcode(Command::Enable3G) == 0xf2u8,
        opcode(Command::PumpRatioControl) == 0xf7u8,
{
}

} // verus!
