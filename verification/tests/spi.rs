use ili9341_buffered::{SpiInterface, SpiStep};

#[test]
fn steps_split_data_into_transfers() {
    let s = SpiInterface::new((), (), (), 4);
    assert_eq!(s.max_transfer_size(), 4);
    let steps = s.write_steps(0x2c, 10);
    assert_eq!(
        steps,
        vec![
            SpiStep::SelectChip,
            SpiStep::CommandMode,
            SpiStep::WriteCommand(0x2c),
            SpiStep::DataMode,
            SpiStep::WriteData(0, 4),
            SpiStep::WriteData(4, 8),
            SpiStep::WriteData(8, 10),
            SpiStep::ReleaseChip,
        ]
    );
}

#[test]
fn steps_without_data() {
    let s = SpiInterface::new((), (), (), 64);
    assert_eq!(
        s.write_steps(0x29, 0),
        vec![
            SpiStep::SelectChip,
            SpiStep::CommandMode,
            SpiStep::WriteCommand(0x29),
            SpiStep::DataMode,
            SpiStep::ReleaseChip,
        ]
    );
}

#[test]
fn steps_exact_multiple_and_single_byte_transfers() {
    let s = SpiInterface::new((), (), (), 3);
    let steps = s.write_steps(1, 6);
    assert_eq!(&steps[4..7], &[SpiStep::WriteData(0, 3), SpiStep::WriteData(3, 6), SpiStep::ReleaseChip]);
    let s = SpiInterface::new((), (), (), 1);
    let steps = s.write_steps(1, 3);
    assert_eq!(
        &steps[4..],
        &[SpiStep::WriteData(0, 1), SpiStep::WriteData(1, 2), SpiStep::WriteData(2, 3), SpiStep::ReleaseChip]
    );
}

#[test]
fn whole_frame_in_large_transfers() {
    let s = SpiInterface::new((), (), (), 4092);
    let steps = s.write_steps(0x2c, 153600);
    let data: Vec<_> = steps
        .iter()
        .filter_map(|st| match st {
            SpiStep::WriteData(a, b) => Some((*a, *b)),
            _ => None,
        })
        .collect();
    assert_eq!(data.len(), 38);
    assert_eq!(data.last(), Some(&(151404, 153600)));
    assert!(data.windows(2).all(|w| w[0].1 == w[1].0));
}

#[test]
fn parts_give_access_to_bus_and_pins() {
    let mut s = SpiInterface::new(1u8, 2u8, 3u8, 8);
    let (spi, cs, dc) = s.parts();
    *spi += 10;
    *cs += 20;
    *dc += 30;
    let (spi, cs, dc) = s.parts();
    assert_eq!((*spi, *cs, *dc), (11, 22, 33));
    assert_eq!(s.max_transfer_size(), 8);
}
