//! The buffered display driver.

use vstd::prelude::*;
use crate::command::{lemma_datasheet_opcodes, opcode, Command};
use crate::frame::{
    be_bytes, be_bytes_of, lemma_be_bytes_round_trip, lemma_draw_keeps_size, word, lemma_fill_reads_back, lemma_offset_in_frame,
    lemma_set_pixel_reads_back, Screen, BUFFER_SIZE,
    HEIGHT, WIDTH,
};
use crate::interface::{
    lemma_sent_one, lemma_sent_then, sent_in_order, Exchange, Interface,
};

verus! {

/// Memory access control bit: row address order (mirror along the Y axis).
pub const MADCTL_MY: u8 = 0x80;

/// Memory access control bit: column address order (mirror along the X axis).
pub const MADCTL_MX: u8 = 0x40;

/// Memory access control bit: row/column exchange (landscape).
pub const MADCTL_MV: u8 = 0x20;

/// Memory access control bit: BGR color filter order.
pub const MADCTL_BGR: u8 = 0x08;

/// The default orientation is Portrait.
#[derive(Clone, Copy, Debug, PartialEq, Eq, Structural)]
pub enum Orientation {
    Portrait,
    PortraitFlipped,
    Landscape,
    LandscapeFlipped,
    /// Used for the M5Stack.
    LandscapeMirrored,
}

/// The size in pixels, `(width, height)`, of the screen in an orientation.
pub open spec fn orientation_size(mode: Orientation) -> (nat, nat) {
    match mode {
        Orientation::Portrait | Orientation::PortraitFlipped => (WIDTH as nat, HEIGHT as nat),
        _ => (HEIGHT as nat, WIDTH as nat),
    }
}

/// The memory access control byte that selects an orientation:
/// Portrait is MX|BGR, Landscape MV|BGR, PortraitFlipped MY|BGR,
/// LandscapeFlipped MX|MY|MV|BGR, LandscapeMirrored BGR alone.
pub open spec fn madctl(mode: Orientation) -> u8 {
    match mode {
        Orientation::Portrait => 0x48,
        Orientation::Landscape => 0x28,
        Orientation::PortraitFlipped => 0x88,
        Orientation::LandscapeFlipped => 0xe8,
        Orientation::LandscapeMirrored => 0x08,
    }
}

/// The argument bytes of a column or page address command for the range
/// `start..=end`: both bounds, big-endian.
pub open spec fn window_args(start: u16, end: u16) -> Seq<u8> {
    be_bytes(start) + be_bytes(end)
}

/// The requests that set the drawing window to the rectangle with corners
/// `(x0, y0)` and `(x1, y1)`: the column range, then the page range.
pub open spec fn window_requests(x0: u16, y0: u16, x1: u16, y1: u16) -> Seq<(u8, Seq<u8>)> {
    seq![
        (opcode(Command::ColumnAddressSet), window_args(x0, x1)),
        (opcode(Command::PageAddressSet), window_args(y0, y1)),
    ]
}

/// The requests that transfer a screen to the panel: a window from `(0, 0)`
/// to `(width, height)`, then the whole frame as memory write data.
pub open spec fn flush_requests(s: Screen) -> Seq<(u8, Seq<u8>)> {
    window_requests(0, 0, s.width as u16, s.height as u16).push(
        (opcode(Command::MemoryWrite), s.frame),
    )
}

/// Each orientation selects its memory access order with the control byte,
/// the BGR bit always set, and its screen size.
pub proof fn lemma_orientation_table()
    ensures
        madctl(Orientation::Portrait) == MADCTL_MX | MADCTL_BGR,
        madctl(Orientation::Landscape) == MADCTL_MV | MADCTL_BGR,
        madctl(Orientation::PortraitFlipped) == MADCTL_MY | MADCTL_BGR,
        madctl(Orientation::LandscapeFlipped) == MADCTL_MX | MADCTL_MY | MADCTL_MV | MADCTL_BGR,
        madctl(Orientation::LandscapeMirrored) == MADCTL_BGR,
        orientation_size(Orientation::Portrait) == (240nat, 320nat),
        orientation_size(Orientation::PortraitFlipped) == (240nat, 320nat),
        orientation_size(Orientation::Landscape) == (320nat, 240nat),
        orientation_size(Orientation::LandscapeFlipped) == (320nat, 240nat),
        orientation_size(Orientation::LandscapeMirrored) == (320nat, 240nat),
        forall|m: Orientation| #[trigger] madctl(m) & MADCTL_BGR == MADCTL_BGR,
{
    assert(0x40u8 | 0x08u8 == 0x48u8) by (bit_vector);
    assert(0x20u8 | 0x08u8 == 0x28u8) by (bit_vector);
    assert(0x80u8 | 0x08u8 == 0x88u8) by (bit_vector);
    assert(0x40u8 | 0x80u8 | 0x20u8 | 0x08u8 == 0xe8u8) by (bit_vector);
    assert forall|m: Orientation| #[trigger] madctl(m) & MADCTL_BGR == MADCTL_BGR by {
        let b = madctl(m);
        assert(b & 0x08u8 == 0x08u8) by (bit_vector)
            requires
                b == 0x48u8 || b == 0x28u8 || b == 0x88u8 || b == 0xe8u8 || b == 0x08u8,
        ;
    }
}

/// The address arguments of a window name its two bounds: read back as
/// big-endian words, the four bytes give `start` and `end`.
pub proof fn lemma_window_args_decode(start: u16, end: u16)
    ensures
        window_args(start, end).len() == 4,
        word(window_args(start, end)[0], window_args(start, end)[1]) == start,
        word(window_args(start, end)[2], window_args(start, end)[3]) == end,
{
    lemma_be_bytes_round_trip(start);
    lemma_be_bytes_round_trip(end);
}

/// A flush sets the column range to `0..=width` and the page range to
/// `0..=height` of the current size, then writes the whole frame to memory.
pub proof fn lemma_flush_requests(s: Screen)
    requires
        s.valid(),
    ensures
        flush_requests(s).len() == 3,
        flush_requests(s)[0].0 == 0x2au8,
        word(flush_requests(s)[0].1[0], flush_requests(s)[0].1[1]) == 0,
        word(flush_requests(s)[0].1[2], flush_requests(s)[0].1[3]) == s.width,
        flush_requests(s)[1].0 == 0x2bu8,
        word(flush_requests(s)[1].1[0], flush_requests(s)[1].1[1]) == 0,
        word(flush_requests(s)[1].1[2], flush_requests(s)[1].1[3]) == s.height,
        flush_requests(s)[2].0 == 0x2cu8,
        flush_requests(s)[2].1 == s.frame,
        s.frame.len() == s.width * s.height * 2,
{
    lemma_datasheet_opcodes();
    lemma_window_args_decode(0, s.width as u16);
    lemma_window_args_decode(0, s.height as u16);
    let (w, h) = (s.width as int, s.height as int);
    assert(w * h == 76800) by (nonlinear_arith)
        requires
            (w == 240 && h == 320) || (w == 320 && h == 240),
    ;
}

struct Dims {
    width: usize,
    height: usize,
}

impl Dims {
    #[verifier::type_invariant]
    spec fn well_formed(self) -> bool {
        ||| (self.width == WIDTH && self.height == HEIGHT)
        ||| (self.width == HEIGHT && self.height == WIDTH)
    }
}

/// There are two method for drawing to the screen: pixel by pixel into the
/// framebuffer, and `flush`, which moves the framebuffer to the panel.
///
/// In both cases the expected pixel format is rgb565.
///
/// The hardware makes it efficient to draw rectangles on the screen.
///
/// What happens is the following:
///
/// - A drawing window is prepared (with the 2 opposite corner coordinates)
/// - The starting point for drawing is the top left corner of this window
/// - Every pair of bytes received is interpreted as a pixel value in rgb565
/// - As soon as a pixel is received, an internal counter is incremented,
///   and the next word will fill the next pixel (the adjacent on the right, or
///   the first of the next row if the row ended)
pub struct Ili9341<'a, IFACE, RESET> {
    interface: IFACE,
    reset: RESET,
    dims: Dims,
    buffer: &'a mut [u8; BUFFER_SIZE],
}

impl<'a, IFACE, RESET> View for Ili9341<'a, IFACE, RESET> {
    type V = Screen;

    closed spec fn view(&self) -> Screen {
        Screen { width: self.dims.width as nat, height: self.dims.height as nat, frame: self.buffer@ }
    }
}

impl<'a, IFACE: Interface, RESET> Ili9341<'a, IFACE, RESET> {
    /// Everything sent to the interface so far, with the answers received.
    pub closed spec fn sent(&self) -> Seq<Exchange<IFACE::Error>> {
        self.interface.history()
    }

    /// Puts a driver together from an interface to an already initialised
    /// panel, its reset pin and the framebuffer memory, in portrait
    /// orientation. Nothing is sent and the buffer keeps its contents.
    pub fn attach(interface: IFACE, reset: RESET, buffer: &'a mut [u8; BUFFER_SIZE]) -> (d: Self)
        ensures
            d@ == (Screen { width: WIDTH as nat, height: HEIGHT as nat, frame: old(buffer)@ }),
            d.sent() == interface.history(),
    {
        Ili9341 { interface, reset, dims: Dims { width: WIDTH, height: HEIGHT }, buffer }
    }

    /// Sends a command with its argument bytes.
    pub fn command(&mut self, cmd: Command, args: &[u8]) -> (r: Result<(), IFACE::Error>)
        ensures
            final(self)@ == old(self)@,
            final(self).sent() == old(self).sent().push((opcode(cmd), args@, r)),
    {
        self.interface.write(cmd.code(), args)
    }

    /// Sets the drawing window to the rectangle with corners `(x0, y0)` and
    /// `(x1, y1)`: the column range first, then, if that succeeded, the page
    /// range.
    pub fn set_window(&mut self, x0: u16, y0: u16, x1: u16, y1: u16) -> (r: Result<(), IFACE::Error>)
        ensures
            final(self)@ == old(self)@,
            sent_in_order(old(self).sent(), final(self).sent(), window_requests(x0, y0, x1, y1), r),
    {
        let ghost h0 = self.sent();
        let cols = self.send_range(Command::ColumnAddressSet, x0, x1);
        let ghost h1 = self.sent();
        proof {
            lemma_sent_one(h0, opcode(Command::ColumnAddressSet), window_args(x0, x1), cols);
        }
        match cols {
            Err(e) => {
                proof {
                    lemma_sent_then(h0, h1, h1, seq![(opcode(Command::ColumnAddressSet), window_args(x0, x1))],
                        seq![(opcode(Command::PageAddressSet), window_args(y0, y1))], cols, cols);
                    assert(seq![(opcode(Command::ColumnAddressSet), window_args(x0, x1))]
                        + seq![(opcode(Command::PageAddressSet), window_args(y0, y1))]
                        =~= window_requests(x0, y0, x1, y1));
                }
                Err(e)
            },
            Ok(()) => {
                let pages = self.send_range(Command::PageAddressSet, y0, y1);
                proof {
                    lemma_sent_one(h1, opcode(Command::PageAddressSet), window_args(y0, y1), pages);
                    lemma_sent_then(h0, h1, self.sent(),
                        seq![(opcode(Command::ColumnAddressSet), window_args(x0, x1))],
                        seq![(opcode(Command::PageAddressSet), window_args(y0, y1))], cols, pages);
                    assert(seq![(opcode(Command::ColumnAddressSet), window_args(x0, x1))]
                        + seq![(opcode(Command::PageAddressSet), window_args(y0, y1))]
                        =~= window_requests(x0, y0, x1, y1));
                }
                pages
            },
        }
    }

    /// Sends an address command for the range `start..=end`.
    fn send_range(&mut self, cmd: Command, start: u16, end: u16) -> (r: Result<(), IFACE::Error>)
        ensures
            final(self)@ == old(self)@,
            final(self).sent() == old(self).sent().push((opcode(cmd), window_args(start, end), r)),
    {
        let s = be_bytes_of(start);
        let e = be_bytes_of(end);
        let args = [s[0], s[1], e[0], e[1]];
        assert(args@ =~= window_args(start, end));
        self.command(cmd, &args)
    }

    /// Change the orientation of the screen.
    ///
    /// The screen size follows the orientation at once; then the memory
    /// access control byte of the orientation is sent.
    pub fn set_orientation(&mut self, mode: Orientation) -> (r: Result<(), IFACE::Error>)
        ensures
            final(self)@.width == orientation_size(mode).0,
            final(self)@.height == orientation_size(mode).1,
            final(self)@.frame == old(self)@.frame,
            final(self)@.valid(),
            final(self).sent() == old(self).sent().push(
                (opcode(Command::MemoryAccessControl), seq![madctl(mode)], r),
            ),
    {
        let byte = match mode {
            Orientation::Portrait => {
                self.dims = Dims { width: WIDTH, height: HEIGHT };
                let b = MADCTL_MX | MADCTL_BGR;
                assert(b == 0x48) by (bit_vector)
                    requires b == 0x40u8 | 0x08u8;
                b
            },
            Orientation::Landscape => {
                self.dims = Dims { width: HEIGHT, height: WIDTH };
                let b = MADCTL_MV | MADCTL_BGR;
                assert(b == 0x28) by (bit_vector)
                    requires b == 0x20u8 | 0x08u8;
                b
            },
            Orientation::PortraitFlipped => {
                self.dims = Dims { width: WIDTH, height: HEIGHT };
                let b = MADCTL_MY | MADCTL_BGR;
                assert(b == 0x88) by (bit_vector)
                    requires b == 0x80u8 | 0x08u8;
                b
            },
            Orientation::LandscapeFlipped => {
                self.dims = Dims { width: HEIGHT, height: WIDTH };
                let b = MADCTL_MX | MADCTL_MY | MADCTL_MV | MADCTL_BGR;
                assert(b == 0xe8) by (bit_vector)
                    requires b == 0x40u8 | 0x80u8 | 0x20u8 | 0x08u8;
                b
            },
            Orientation::LandscapeMirrored => {
                self.dims = Dims { width: HEIGHT, height: WIDTH };
                MADCTL_BGR
            },
        };
        let args = [byte];
        assert(args@ =~= seq![madctl(mode)]);
        proof { use_type_invariant(&self.dims); }
        self.command(Command::MemoryAccessControl, &args)
    }

    /// Set to invert colors (use inverted = true with M5Stack).
    pub fn set_inverted(&mut self, inverted: bool) -> (r: Result<(), IFACE::Error>)
        ensures
            final(self)@ == old(self)@,
            final(self).sent() == old(self).sent().push(
                (
                    opcode(if inverted { Command::InvertOn } else { Command::InvertOff }),
                    Seq::<u8>::empty(),
                    r,
                ),
            ),
            final(self).sent().last().0 == (if inverted { 0x21u8 } else { 0x20u8 }),
    {
        proof { lemma_datasheet_opcodes(); }
        let none: [u8; 0] = [];
        assert(none@ =~= Seq::<u8>::empty());
        if inverted {
            self.command(Command::InvertOn, &none)
        } else {
            self.command(Command::InvertOff, &none)
        }
    }

    /// Get the current screen width. It can change based on the current
    /// orientation.
    pub fn width(&self) -> (w: usize)
        ensures
            w == self@.width,
            self@.valid(),
    {
        proof { use_type_invariant(&self.dims); }
        self.dims.width
    }

    /// Get the current screen height. It can change based on the current
    /// orientation.
    pub fn height(&self) -> (h: usize)
        ensures
            h == self@.height,
            self@.valid(),
    {
        proof { use_type_invariant(&self.dims); }
        self.dims.height
    }

    /// Set the pixel at coordinates (x,y) to the given color (Rgb565).
    /// A point off the screen is ignored.
    pub fn set_pixel(&mut self, x: usize, y: usize, color: u16)
        ensures
            final(self)@ == old(self)@.set_pixel(x as int, y as int, color),
            final(self)@.width == old(self)@.width,
            final(self)@.height == old(self)@.height,
            x < old(self)@.width && y < old(self)@.height ==> final(self)@.pixel(x as int, y as int)
                == color,
            !(x < old(self)@.width && y < old(self)@.height) ==> final(self)@ == old(self)@,
            final(self).sent() == old(self).sent(),
    {
        proof {
            use_type_invariant(&self.dims);
            if x < self@.width && y < self@.height {
                lemma_set_pixel_reads_back(self@, x as int, y as int, color);
            }
        }
        proof { use_type_invariant(&self.dims); }
        if x >= self.dims.width || y >= self.dims.height {
            return;
        }
        proof { lemma_offset_in_frame(self@, x as int, y as int); }
        let w = self.dims.width;
        assert(y * w + x < 76800) by (nonlinear_arith)
            requires
                x < w,
                y < self.dims.height,
                (w == 240 && self.dims.height == 320) || (w == 320 && self.dims.height == 240);
        let pos: usize = (y * w + x) * 2;
        let bytes = be_bytes_of(color);
        self.buffer[pos] = bytes[0];
        self.buffer[pos + 1] = bytes[1];
    }

    /// Set the whole screen to the given color (Rgb565).
    pub fn fill_screen(&mut self, color: u16)
        ensures
            final(self)@ == old(self)@.fill(color),
            final(self)@.width == old(self)@.width,
            final(self)@.height == old(self)@.height,
            forall|x: int, y: int|
                0 <= x < old(self)@.width && 0 <= y < old(self)@.height ==> #[trigger] final(self)@.pixel(
                    x,
                    y,
                ) == color,
            final(self).sent() == old(self).sent(),
    {
        proof { use_type_invariant(&self.dims); }
        let bytes = be_bytes_of(color);
        let ghost before = self@;
        let ghost h = self.sent();
        for i in 0..BUFFER_SIZE
            invariant
                self@.width == before.width,
                self@.height == before.height,
                self@.frame.len() == BUFFER_SIZE,
                self.sent() == h,
                bytes@ == be_bytes(color),
                forall|j: int| 0 <= j < i ==> #[trigger] self@.frame[j] == be_bytes(color)[j % 2],
        {
            self.buffer[i] = bytes[i % 2];
        }
        assert(self@.frame =~= before.fill(color).frame);
        assert forall|x: int, y: int|
            0 <= x < before.width && 0 <= y < before.height implies #[trigger] self@.pixel(x, y)
            == color by {
            lemma_fill_reads_back(before, color, x, y);
        }
    }

    /// Draws pixels given as `(x, y, color)`, in order; points off the
    /// screen are skipped.
    pub fn draw(&mut self, pixels: &[(u32, u32, u16)])
        ensures
            final(self)@ == old(self)@.draw(pixels@),
            final(self)@.width == old(self)@.width,
            final(self)@.height == old(self)@.height,
            final(self).sent() == old(self).sent(),
    {
        proof {
            use_type_invariant(&self.dims);
            lemma_draw_keeps_size(self@, pixels@);
        }
        let ghost before = self@;
        let ghost h = self.sent();
        for i in 0..pixels.len()
            invariant
                self@ == before.draw(pixels@.take(i as int)),
                self.sent() == h,
        {
            let (x, y, color) = pixels[i];
            proof {
                assert(pixels@.take(i + 1).drop_last() =~= pixels@.take(i as int));
                assert(pixels@.take(i + 1).last() == pixels@[i as int]);
            }
            self.set_pixel(x as usize, y as usize, color);
        }
        assert(pixels@.take(pixels@.len() as int) =~= pixels@);
    }

    /// Draws an item whose top left corner is `top_left`: nothing at all
    /// when that corner is off the screen (a negative coordinate among
    /// others), else its pixels as `draw` does.
    pub fn draw_sized(&mut self, top_left: (i32, i32), pixels: &[(u32, u32, u16)])
        ensures
            final(self)@ == (if old(self)@.in_bounds(top_left.0 as int, top_left.1 as int) {
                old(self)@.draw(pixels@)
            } else {
                old(self)@
            }),
            final(self).sent() == old(self).sent(),
    {
        let (x0, y0) = top_left;
        if x0 < 0 || y0 < 0 || x0 as usize >= self.width() || y0 as usize >= self.height() {
            return;
        }
        self.draw(pixels);
    }

    /// Transfers the current frame from the buffer to the display: sets the
    /// window from `(0, 0)` to `(width, height)`, then, if that succeeded,
    /// sends the whole buffer as memory write data.
    pub fn flush(&mut self) -> (r: Result<(), IFACE::Error>)
        ensures
            final(self)@ == old(self)@,
            sent_in_order(old(self).sent(), final(self).sent(), flush_requests(old(self)@), r),
    {
        proof { use_type_invariant(&self.dims); }
        let ghost h0 = self.sent();
        let w = self.dims.width as u16;
        let h = self.dims.height as u16;
        let win = self.set_window(0, 0, w, h);
        let ghost h1 = self.sent();
        let ghost last = seq![(opcode(Command::MemoryWrite), self@.frame)];
        match win {
            Err(e) => {
                proof {
                    lemma_sent_then(h0, h1, h1, window_requests(0, 0, w, h), last, win, win);
                }
                Err(e)
            },
            Ok(()) => {
                let data = self.write_frame();
                proof {
                    lemma_sent_one(h1, opcode(Command::MemoryWrite), self@.frame, data);
                    lemma_sent_then(h0, h1, self.sent(), window_requests(0, 0, w, h), last, win, data);
                }
                data
            },
        }
    }

    /// Sends the framebuffer as memory write data.
    fn write_frame(&mut self) -> (r: Result<(), IFACE::Error>)
        ensures
            final(self)@ == old(self)@,
            final(self).sent() == old(self).sent().push((opcode(Command::MemoryWrite), old(self)@.frame, r)),
    {
        let code = Command::MemoryWrite.code();
        self.interface.write(code, self.buffer.as_slice())
    }
}

} // verus!
