use ili9341_buffered::{init_sequence, Command, InitAction};

#[test]
fn power_on_starts_with_hard_reset() {
    let steps = init_sequence();
    assert_eq!(
        &steps[..8],
        &[
            InitAction::ResetHigh,
            InitAction::DelayMs(120),
            InitAction::ResetLow,
            InitAction::DelayMs(120),
            InitAction::ResetHigh,
            InitAction::DelayMs(120),
            InitAction::Send(Command::SoftwareReset, vec![]),
            InitAction::DelayMs(200),
        ]
    );
}

#[test]
fn power_on_configuration_and_end() {
    let steps = init_sequence();
    assert_eq!(steps.len(), 29);
    assert_eq!(steps[8], InitAction::Send(Command::PowerControlA, vec![0x39, 0x2c, 0x00, 0x34, 0x02]));
    assert_eq!(steps[18], InitAction::Send(Command::MemoryAccessControl, vec![0x48]));
    assert_eq!(steps[19], InitAction::Send(Command::PixelFormatSet, vec![0x55]));
    assert_eq!(
        steps[24],
        InitAction::Send(
            Command::PositiveGammaCorrection,
            vec![0x0f, 0x31, 0x2b, 0x0c, 0x0e, 0x08, 0x4e, 0xf1, 0x37, 0x07, 0x10, 0x03, 0x0e, 0x09, 0x00]
        )
    );
    assert_eq!(
        &steps[26..],
        &[
            InitAction::Send(Command::SleepOut, vec![]),
            InitAction::DelayMs(120),
            InitAction::Send(Command::DisplayOn, vec![]),
        ]
    );
}
