//! The power-on sequence of the panel.
//!
//! Bringing the panel up mixes pin changes and pauses, which only the
//! caller's hardware can perform, with commands. The library states the
//! sequence as data; the caller performs the steps in order and stops at the
//! first one that fails.

use vstd::prelude::*;
use crate::command::Command;
use crate::display::{madctl, Orientation};

verus! {

/// One step of bringing the panel up.
#[derive(Debug, PartialEq, Eq)]
pub enum InitAction {
    /// Drive the reset pin high (normal operation).
    ResetHigh,
    /// Drive the reset pin low (hold the controller in reset).
    ResetLow,
    /// Wait for the given number of milliseconds.
    DelayMs(u16),
    /// Send a command with its argument bytes.
    Send(Command, Vec<u8>),
}

/// An [`InitAction`] with its argument bytes taken as a sequence.
#[verifier::ext_equal]
pub enum InitStep {
    ResetHigh,
    ResetLow,
    DelayMs(u16),
    Send(Command, Seq<u8>),
}

impl View for InitAction {
    type V = InitStep;

    open spec fn view(&self) -> InitStep {
        match self {
            InitAction::ResetHigh => InitStep::ResetHigh,
            InitAction::ResetLow => InitStep::ResetLow,
            InitAction::DelayMs(ms) => InitStep::DelayMs(*ms),
            InitAction::Send(c, args) => InitStep::Send(*c, args@),
        }
    }
}

/// The configuration commands sent between the software reset and leaving
/// sleep mode, with their arguments.
pub open spec fn configuration() -> Seq<InitStep> {
    seq![
        InitStep::Send(Command::PowerControlA, seq![0x39u8, 0x2c, 0x00, 0x34, 0x02]),
        InitStep::Send(Command::PowerControlB, seq![0x00u8, 0xc1, 0x30]),
        InitStep::Send(Command::DriverTimingControlA, seq![0x85u8, 0x00, 0x78]),
        InitStep::Send(Command::DriverTimingControlB, seq![0x00u8, 0x00]),
        InitStep::Send(Command::PowerOnSequenceControl, seq![0x64u8, 0x03, 0x12, 0x81]),
        InitStep::Send(Command::PumpRatioControl, seq![0x20u8]),
        InitStep::Send(Command::PowerControl1, seq![0x23u8]),
        InitStep::Send(Command::PowerControl2, seq![0x10u8]),
        InitStep::Send(Command::VCOMControl1, seq![0x3eu8, 0x28]),
        InitStep::Send(Command::VCOMControl2, seq![0x86u8]),
        InitStep::Send(Command::MemoryAccessControl, seq![0x48u8]),
        InitStep::Send(Command::PixelFormatSet, seq![0x55u8]),
        InitStep::Send(Command::FrameControlNormal, seq![0x00u8, 0x18]),
        InitStep::Send(Command::DisplayFunctionControl, seq![0x08u8, 0x82, 0x27]),
        InitStep::Send(Command::Enable3G, seq![0x00u8]),
        InitStep::Send(Command::GammaSet, seq![0x01u8]),
        InitStep::Send(
            Command::PositiveGammaCorrection,
            seq![0x0fu8, 0x31, 0x2b, 0x0c, 0x0e, 0x08, 0x4e, 0xf1, 0x37, 0x07, 0x10, 0x03, 0x0e, 0x09, 0x00],
        ),
        InitStep::Send(
            Command::NegativeGammaCorrection,
            seq![0x00u8, 0x0e, 0x14, 0x03, 0x11, 0x07, 0x31, 0xc1, 0x48, 0x08, 0x0f, 0x0c, 0x31, 0x36, 0x0f],
        ),
    ]
}

/// The whole power-on sequence: a hard reset (reset pin high, low, high,
/// 120 ms after each change), a software reset and 200 ms, the
/// configuration, leaving sleep mode and 120 ms, then switching the display
/// on.
pub open spec fn power_on_sequence() -> Seq<InitStep> {
    seq![
        InitStep::ResetHigh,
        InitStep::DelayMs(120),
        InitStep::ResetLow,
        InitStep::DelayMs(120),
        InitStep::ResetHigh,
        InitStep::DelayMs(120),
        InitStep::Send(Command::SoftwareReset, Seq::empty()),
        InitStep::DelayMs(200),
    ] + configuration() + seq![
        InitStep::Send(Command::SleepOut, Seq::empty()),
        InitStep::DelayMs(120),
        InitStep::Send(Command::DisplayOn, Seq::empty()),
    ]
}

/// The steps that bring the panel up, in the order they are to be performed.
pub fn init_sequence() -> (steps: Vec<InitAction>)
    ensures
        steps@.len() == power_on_sequence().len(),
        forall|i: int| 0 <= i < steps@.len() ==> #[trigger] steps@[i]@ == power_on_sequence()[i],
{
    let mut steps: Vec<InitAction> = Vec::new();
    steps.push(InitAction::ResetHigh);
    steps.push(InitAction::DelayMs(120));
    steps.push(InitAction::ResetLow);
    steps.push(InitAction::DelayMs(120));
    steps.push(InitAction::ResetHigh);
    steps.push(InitAction::DelayMs(120));
    steps.push(InitAction::Send(Command::SoftwareReset, vec![]));
    steps.push(InitAction::DelayMs(200));
    steps.push(InitAction::Send(Command::PowerControlA, vec![0x39, 0x2c, 0x00, 0x34, 0x02]));
    steps.push(InitAction::Send(Command::PowerControlB, vec![0x00, 0xc1, 0x30]));
    steps.push(InitAction::Send(Command::DriverTimingControlA, vec![0x85, 0x00, 0x78]));
    steps.push(InitAction::Send(Command::DriverTimingControlB, vec![0x00, 0x00]));
    steps.push(InitAction::Send(Command::PowerOnSequenceControl, vec![0x64, 0x03, 0x12, 0x81]));
    steps.push(InitAction::Send(Command::PumpRatioControl, vec![0x20]));
    steps.push(InitAction::Send(Command::PowerControl1, vec![0x23]));
    steps.push(InitAction::Send(Command::PowerControl2, vec![0x10]));
    steps.push(InitAction::Send(Command::VCOMControl1, vec![0x3e, 0x28]));
    steps.push(InitAction::Send(Command::VCOMControl2, vec![0x86]));
    steps.push(InitAction::Send(Command::MemoryAccessControl, vec![0x48]));
    steps.push(InitAction::Send(Command::PixelFormatSet, vec![0x55]));
    steps.push(InitAction::Send(Command::FrameControlNormal, vec![0x00, 0x18]));
    steps.push(InitAction::Send(Command::DisplayFunctionControl, vec![0x08, 0x82, 0x27]));
    steps.push(InitAction::Send(Command::Enable3G, vec![0x00]));
    steps.push(InitAction::Send(Command::GammaSet, vec![0x01]));
    steps.push(
        InitAction::Send(
            Command::PositiveGammaCorrection,
            vec![0x0f, 0x31, 0x2b, 0x0c, 0x0e, 0x08, 0x4e, 0xf1, 0x37, 0x07, 0x10, 0x03, 0x0e, 0x09, 0x00],
        ),
    );
    steps.push(
        InitAction::Send(
            Command::NegativeGammaCorrection,
            vec![0x00, 0x0e, 0x14, 0x03, 0x11, 0x07, 0x31, 0xc1, 0x48, 0x08, 0x0f, 0x0c, 0x31, 0x36, 0x0f],
        ),
    );
    steps.push(InitAction::Send(Command::SleepOut, vec![]));
    steps.push(InitAction::DelayMs(120));
    steps.push(InitAction::Send(Command::DisplayOn, vec![]));
    assert(steps@.map_values(|a: InitAction| a@) =~~= power_on_sequence());
    steps
}

/// The power-on sequence leaves the panel in portrait orientation, the one
/// that a freshly attached driver assumes: its memory access control
/// argument is that of `Orientation::Portrait`, and no later step changes it.
pub proof fn lemma_power_on_is_portrait()
    ensures
        power_on_sequence()[18] == InitStep::Send(
            Command::MemoryAccessControl,
            seq![madctl(Orientation::Portrait)],
        ),
        forall|i: int|
            18 < i < power_on_sequence().len() ==> !(#[trigger] power_on_sequence()[i] matches InitStep::Send(
                Command::MemoryAccessControl,
                _,
            )),
{
    assert(power_on_sequence()[18] == configuration()[10]);
    assert forall|i: int|
        18 < i < power_on_sequence().len() implies !(#[trigger] power_on_sequence()[i] matches InitStep::Send(
            Command::MemoryAccessControl,
            _,
        )) by {
        if i < 26 {
            assert(power_on_sequence()[i] == configuration()[i - 8]);
        }
    }
}

/// The power-on sequence, step by step: the hard reset, the software reset,
/// each configuration command with all of its arguments, sleep out and
/// display on, with their pauses.
pub proof fn lemma_power_on_steps()
    ensures
        power_on_sequence().len() == 29,
        power_on_sequence()[0] == InitStep::ResetHigh,
        power_on_sequence()[1] == InitStep::DelayMs(120),
        power_on_sequence()[2] == InitStep::ResetLow,
        power_on_sequence()[3] == InitStep::DelayMs(120),
        power_on_sequence()[4] == InitStep::ResetHigh,
        power_on_sequence()[5] == InitStep::DelayMs(120),
        power_on_sequence()[6] =~~= InitStep::Send(Command::SoftwareReset, seq![]),
        power_on_sequence()[7] == InitStep::DelayMs(200),
        power_on_sequence()[8] =~~= InitStep::Send(Command::PowerControlA, seq![0x39u8, 0x2c, 0x00, 0x34, 0x02]),
        power_on_sequence()[9] =~~= InitStep::Send(Command::PowerControlB, seq![0x00u8, 0xc1, 0x30]),
        power_on_sequence()[10] =~~= InitStep::Send(Command::DriverTimingControlA, seq![0x85u8, 0x00, 0x78]),
        power_on_sequence()[11] =~~= InitStep::Send(Command::DriverTimingControlB, seq![0x00u8, 0x00]),
        power_on_sequence()[12] =~~= InitStep::Send(Command::PowerOnSequenceControl, seq![0x64u8, 0x03, 0x12, 0x81]),
        power_on_sequence()[13] =~~= InitStep::Send(Command::PumpRatioControl, seq![0x20u8]),
        power_on_sequence()[14] =~~= InitStep::Send(Command::PowerControl1, seq![0x23u8]),
        power_on_sequence()[15] =~~= InitStep::Send(Command::PowerControl2, seq![0x10u8]),
        power_on_sequence()[16] =~~= InitStep::Send(Command::VCOMControl1, seq![0x3eu8, 0x28]),
        power_on_sequence()[17] =~~= InitStep::Send(Command::VCOMControl2, seq![0x86u8]),
        power_on_sequence()[18] =~~= InitStep::Send(Command::MemoryAccessControl, seq![0x48u8]),
        power_on_sequence()[19] =~~= InitStep::Send(Command::PixelFormatSet, seq![0x55u8]),
        power_on_sequence()[20] =~~= InitStep::Send(Command::FrameControlNormal, seq![0x00u8, 0x18]),
        power_on_sequence()[21] =~~= InitStep::Send(Command::DisplayFunctionControl, seq![0x08u8, 0x82, 0x27]),
        power_on_sequence()[22] =~~= InitStep::Send(Command::Enable3G, seq![0x00u8]),
        power_on_sequence()[23] =~~= InitStep::Send(Command::GammaSet, seq![0x01u8]),
        power_on_sequence()[24] =~~= InitStep::Send(
            Command::PositiveGammaCorrection,
            seq![0x0fu8, 0x31, 0x2b, 0x0c, 0x0e, 0x08, 0x4e, 0xf1, 0x37, 0x07, 0x10, 0x03, 0x0e, 0x09, 0x00],
        ),
        power_on_sequence()[25] =~~= InitStep::Send(
            Command::NegativeGammaCorrection,
            seq![0x00u8, 0x0e, 0x14, 0x03, 0x11, 0x07, 0x31, 0xc1, 0x48, 0x08, 0x0f, 0x0c, 0x31, 0x36, 0x0f],
        ),
        power_on_sequence()[26] =~~= InitStep::Send(Command::SleepOut, seq![]),
        power_on_sequence()[27] == InitStep::DelayMs(120),
        power_on_sequence()[28] =~~= InitStep::Send(Command::DisplayOn, seq![]),
{
    let c = configuration();
    assert forall|i: int| 8 <= i < 26 implies power_on_sequence()[i] == c[i - 8] by {}
}

} // verus!
