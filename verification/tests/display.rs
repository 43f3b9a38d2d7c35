use std::cell::RefCell;
use std::rc::Rc;

use ili9341_buffered::frame::be_bytes_of;
use ili9341_buffered::{Command, Error, Ili9341, Interface, Orientation, BUFFER_SIZE};

type Log = Rc<RefCell<Vec<(u8, Vec<u8>)>>>;

/// Records every request; fails the request whose position is `fail_at`.
struct Mock {
    log: Log,
    fail_at: Option<usize>,
}

impl Interface for Mock {
    type Error = u32;

    fn write(&mut self, command: u8, data: &[u8]) -> Result<(), u32> {
        let mut log = self.log.borrow_mut();
        log.push((command, data.to_vec()));
        if Some(log.len() - 1) == self.fail_at {
            Err(log.len() as u32)
        } else {
            Ok(())
        }
    }
}

fn mock(fail_at: Option<usize>) -> (Mock, Log) {
    let log: Log = Rc::new(RefCell::new(Vec::new()));
    (Mock { log: log.clone(), fail_at }, log)
}

fn buffer() -> Box<[u8; BUFFER_SIZE]> {
    vec![0u8; BUFFER_SIZE].into_boxed_slice().try_into().unwrap()
}

#[test]
fn buffer_size_is_two_bytes_per_pixel() {
    assert_eq!(BUFFER_SIZE, 240 * 320 * 2);
}

#[test]
fn attach_is_portrait_and_silent() {
    let (m, log) = mock(None);
    let mut buf = buffer();
    buf[7] = 9;
    let d = Ili9341::attach(m, (), &mut buf);
    assert_eq!(d.width(), 240);
    assert_eq!(d.height(), 320);
    drop(d);
    assert!(log.borrow().is_empty());
    assert_eq!(buf[7], 9);
}

#[test]
fn orientation_sets_size_and_madctl() {
    let cases = [
        (Orientation::Portrait, 240, 320, 0x48u8),
        (Orientation::Landscape, 320, 240, 0x28),
        (Orientation::PortraitFlipped, 240, 320, 0x88),
        (Orientation::LandscapeFlipped, 320, 240, 0xe8),
        (Orientation::LandscapeMirrored, 320, 240, 0x08),
    ];
    for (mode, w, h, byte) in cases {
        let (m, log) = mock(None);
        let mut buf = buffer();
        let mut d = Ili9341::attach(m, (), &mut buf);
        assert!(d.set_orientation(mode).is_ok());
        assert_eq!((d.width(), d.height()), (w, h));
        assert_eq!(*log.borrow(), vec![(0x36u8, vec![byte])]);
    }
}

#[test]
fn orientation_changes_size_even_when_the_write_fails() {
    let (m, log) = mock(Some(0));
    let mut buf = buffer();
    let mut d = Ili9341::attach(m, (), &mut buf);
    assert_eq!(d.set_orientation(Orientation::Landscape), Err(1));
    assert_eq!((d.width(), d.height()), (320, 240));
    assert_eq!(log.borrow().len(), 1);
}

#[test]
fn inversion_commands() {
    let (m, log) = mock(None);
    let mut buf = buffer();
    let mut d = Ili9341::attach(m, (), &mut buf);
    assert!(d.set_inverted(true).is_ok());
    assert!(d.set_inverted(false).is_ok());
    assert_eq!(*log.borrow(), vec![(0x21u8, vec![]), (0x20u8, vec![])]);
}

#[test]
fn set_pixel_writes_big_endian_word() {
    let (m, _log) = mock(None);
    let mut buf = buffer();
    let mut d = Ili9341::attach(m, (), &mut buf);
    d.set_pixel(3, 2, 0xabcd);
    drop(d);
    let pos = (2 * 240 + 3) * 2;
    assert_eq!(buf[pos], 0xab);
    assert_eq!(buf[pos + 1], 0xcd);
    assert_eq!(buf.iter().filter(|b| **b != 0).count(), 2);
}

#[test]
fn set_pixel_last_pixel_and_landscape_rows() {
    let (m, _log) = mock(None);
    let mut buf = buffer();
    let mut d = Ili9341::attach(m, (), &mut buf);
    d.set_pixel(239, 319, 0x1234);
    d.set_orientation(Orientation::Landscape).unwrap();
    d.set_pixel(1, 1, 0xffff);
    drop(d);
    assert_eq!(buf[BUFFER_SIZE - 2], 0x12);
    assert_eq!(buf[BUFFER_SIZE - 1], 0x34);
    assert_eq!(buf[(320 + 1) * 2], 0xff);
    assert_eq!(buf[(320 + 1) * 2 + 1], 0xff);
}

#[test]
fn set_pixel_off_screen_is_ignored() {
    let (m, _log) = mock(None);
    let mut buf = buffer();
    let mut d = Ili9341::attach(m, (), &mut buf);
    d.set_pixel(240, 0, 0xffff);
    d.set_pixel(0, 320, 0xffff);
    d.set_pixel(usize::MAX, usize::MAX, 0xffff);
    d.set_orientation(Orientation::Landscape).unwrap();
    d.set_pixel(100, 240, 0xffff);
    drop(d);
    assert!(buf.iter().all(|b| *b == 0));
}

#[test]
fn fill_screen_covers_every_byte() {
    let (m, log) = mock(None);
    let mut buf = buffer();
    let mut d = Ili9341::attach(m, (), &mut buf);
    d.fill_screen(0xf800);
    assert!(log.borrow().is_empty());
    drop(d);
    for i in 0..BUFFER_SIZE {
        assert_eq!(buf[i], if i % 2 == 0 { 0xf8 } else { 0x00 });
    }
}

#[test]
fn flush_sends_window_then_frame() {
    let (m, log) = mock(None);
    let mut buf = buffer();
    let mut d = Ili9341::attach(m, (), &mut buf);
    d.set_pixel(0, 0, 0x0102);
    assert!(d.flush().is_ok());
    let log = log.borrow();
    assert_eq!(log.len(), 3);
    assert_eq!(log[0], (0x2a, vec![0, 0, 0, 240]));
    assert_eq!(log[1], (0x2b, vec![0, 0, 1, 64]));
    assert_eq!(log[2].0, 0x2c);
    assert_eq!(log[2].1.len(), BUFFER_SIZE);
    assert_eq!(&log[2].1[..3], &[1, 2, 0]);
}

#[test]
fn flush_in_landscape_uses_landscape_window() {
    let (m, log) = mock(None);
    let mut buf = buffer();
    let mut d = Ili9341::attach(m, (), &mut buf);
    d.set_orientation(Orientation::LandscapeMirrored).unwrap();
    d.flush().unwrap();
    let log = log.borrow();
    assert_eq!(log[1], (0x2a, vec![0, 0, 1, 64]));
    assert_eq!(log[2], (0x2b, vec![0, 0, 0, 240]));
}

#[test]
fn flush_stops_at_first_failure() {
    for fail in 0..3 {
        let (m, log) = mock(Some(fail));
        let mut buf = buffer();
        let mut d = Ili9341::attach(m, (), &mut buf);
        assert_eq!(d.flush(), Err(fail as u32 + 1));
        assert_eq!(log.borrow().len(), fail + 1);
    }
}

#[test]
fn set_window_encodes_corners() {
    let (m, log) = mock(None);
    let mut buf = buffer();
    let mut d = Ili9341::attach(m, (), &mut buf);
    d.set_window(0x0102, 0x0304, 0xa0b0, 0xc0d0).unwrap();
    assert_eq!(
        *log.borrow(),
        vec![(0x2a, vec![0x01, 0x02, 0xa0, 0xb0]), (0x2b, vec![0x03, 0x04, 0xc0, 0xd0])]
    );
}

#[test]
fn set_window_stops_after_failed_columns() {
    let (m, log) = mock(Some(0));
    let mut buf = buffer();
    let mut d = Ili9341::attach(m, (), &mut buf);
    assert_eq!(d.set_window(0, 0, 1, 1), Err(1));
    assert_eq!(log.borrow().len(), 1);
}

#[test]
fn command_sends_opcode_and_args() {
    let (m, log) = mock(None);
    let mut buf = buffer();
    let mut d = Ili9341::attach(m, (), &mut buf);
    d.command(Command::GammaSet, &[1]).unwrap();
    assert_eq!(*log.borrow(), vec![(0x26, vec![1])]);
}

#[test]
fn draw_skips_points_off_screen() {
    let (m, _log) = mock(None);
    let mut buf = buffer();
    let mut d = Ili9341::attach(m, (), &mut buf);
    d.draw(&[(1, 0, 0xaaaa), (240, 0, 0xffff), (0, 320, 0xffff), (1, 0, 0x1111)]);
    drop(d);
    assert_eq!(buf[2], 0x11);
    assert_eq!(buf[3], 0x11);
    assert_eq!(buf.iter().filter(|b| **b != 0).count(), 2);
}

#[test]
fn draw_sized_needs_corner_on_screen() {
    let (m, _log) = mock(None);
    let mut buf = buffer();
    let mut d = Ili9341::attach(m, (), &mut buf);
    d.draw_sized((-1, 0), &[(0, 0, 0xffff)]);
    d.draw_sized((0, 320), &[(0, 0, 0xffff)]);
    d.draw_sized((239, 319), &[(0, 0, 0x0505)]);
    drop(d);
    assert_eq!(buf[0], 0x05);
    assert_eq!(buf[1], 0x05);
    assert_eq!(buf.iter().filter(|b| **b != 0).count(), 2);
}

#[test]
fn opcodes() {
    assert_eq!(Command::SoftwareReset.code(), 0x01);
    assert_eq!(Command::MemoryAccessControl.code(), 0x36);
    assert_eq!(Command::ColumnAddressSet.code(), 0x2a);
    assert_eq!(Command::PageAddressSet.code(), 0x2b);
    assert_eq!(Command::MemoryWrite.code(), 0x2c);
    assert_eq!(Command::NegativeGammaCorrection.code(), 0xe1);
}

#[test]
fn big_endian_bytes() {
    assert_eq!(be_bytes_of(0xf81f), [0xf8, 0x1f]);
    assert_eq!(be_bytes_of(0x00ff), [0x00, 0xff]);
}

#[test]
fn error_from_interface_error() {
    let e: Error<u8, ()> = Error::from(3u8);
    assert!(matches!(e, Error::Interface(3)));
}
