//! The framebuffer model: geometry, RGB565 byte layout, and what drawing
//! operations do to the frame.

use vstd::prelude::*;

verus! {

/// Panel width in pixels, in portrait orientation.
pub const WIDTH: usize = 240;

/// Panel height in pixels, in portrait orientation.
pub const HEIGHT: usize = 320;

/// Size in bytes of a framebuffer: two bytes per pixel.
pub const BUFFER_SIZE: usize = WIDTH * HEIGHT * 2;

/// The two bytes of a 16-bit word, most significant first.
pub open spec fn be_bytes(v: u16) -> Seq<u8> {
    seq![(v / 256) as u8, (v % 256) as u8]
}

/// The 16-bit word whose big-endian bytes are `hi`, `lo`.
pub open spec fn word(hi: u8, lo: u8) -> u16 {
    (hi * 256 + lo) as u16
}

/// Splitting a word into its big-endian bytes and joining them again gives
/// the word back; the first byte carries the high eight bits.
pub proof fn lemma_be_bytes_round_trip(v: u16)
    ensures
        be_bytes(v).len() == 2,
        be_bytes(v)[0] * 256 <= v < (be_bytes(v)[0] + 1) * 256,
        word(be_bytes(v)[0], be_bytes(v)[1]) == v,
{
}

/// The big-endian bytes of `v` (what `u16::to_be_bytes` gives).
pub fn be_bytes_of(v: u16) -> (b: [u8; 2])
    ensures
        b@ == be_bytes(v),
{
    let hi = (v >> 8) as u8;
    let lo = (v & 0xff) as u8;
    assert(hi == v / 256) by (bit_vector)
        requires
            hi == (v >> 8) as u8,
    ;
    assert(lo == v % 256) by (bit_vector)
        requires
            lo == (v & 0xff) as u8,
    ;
    let b = [hi, lo];
    assert(b@ =~= be_bytes(v));
    b
}

/// What a display holds for drawing: its current size in pixels, as set by
/// the orientation, and the framebuffer bytes.
pub struct Screen {
    pub width: nat,
    pub height: nat,
    pub frame: Seq<u8>,
}

impl Screen {
    /// The frame has the buffer's size, and the size is that of the panel in
    /// portrait (240 x 320) or in landscape (320 x 240).
    pub open spec fn valid(self) -> bool {
        &&& self.frame.len() == BUFFER_SIZE
        &&& {
            ||| (self.width == WIDTH && self.height == HEIGHT)
            ||| (self.width == HEIGHT && self.height == WIDTH)
        }
    }

    /// `(x, y)` lies on the screen.
    pub open spec fn in_bounds(self, x: int, y: int) -> bool {
        0 <= x < self.width && 0 <= y < self.height
    }

    /// Position in the frame of the first byte of pixel `(x, y)`: pixels are
    /// stored row by row, two bytes each.
    pub open spec fn offset(self, x: int, y: int) -> int {
        (y * self.width + x) * 2
    }

    /// The color of pixel `(x, y)`.
    pub open spec fn pixel(self, x: int, y: int) -> u16 {
        let o = self.offset(x, y);
        word(self.frame[o], self.frame[o + 1])
    }

    /// The screen after setting pixel `(x, y)` to `color`; a point off the
    /// screen leaves it unchanged.
    pub open spec fn set_pixel(self, x: int, y: int, color: u16) -> Screen {
        if self.in_bounds(x, y) {
            let o = self.offset(x, y);
            Screen {
                frame: self.frame.update(o, be_bytes(color)[0]).update(o + 1, be_bytes(color)[1]),
                ..self
            }
        } else {
            self
        }
    }

    /// The screen after filling the whole frame with `color`.
    pub open spec fn fill(self, color: u16) -> Screen {
        Screen { frame: Seq::new(BUFFER_SIZE as nat, |i: int| be_bytes(color)[i % 2]), ..self }
    }

    /// The screen after setting, in order, each pixel of `pixels`, given as
    /// `(x, y, color)`; points off the screen are skipped.
    pub open spec fn draw(self, pixels: Seq<(u32, u32, u16)>) -> Screen
        decreases pixels.len(),
    {
        if pixels.len() == 0 {
            self
        } else {
            let p = pixels.last();
            self.draw(pixels.drop_last()).set_pixel(p.0 as int, p.1 as int, p.2)
        }
    }
}

/// Every pixel on a valid screen has both of its bytes inside the frame.
pub proof fn lemma_offset_in_frame(s: Screen, x: int, y: int)
    requires
        s.valid(),
        s.in_bounds(x, y),
    ensures
        0 <= s.offset(x, y),
        s.offset(x, y) + 1 < BUFFER_SIZE,
        s.offset(x, y) % 2 == 0,
{
    let w = s.width as int;
    let h = s.height as int;
    assert(0 <= y * w + x < w * h && w * h == 76800) by (nonlinear_arith)
        requires
            0 <= x < w,
            0 <= y < h,
            (w == 240 && h == 320) || (w == 320 && h == 240),
    ;
}

/// Distinct pixels on a valid screen occupy disjoint byte pairs.
pub proof fn lemma_offsets_disjoint(s: Screen, x1: int, y1: int, x2: int, y2: int)
    requires
        s.valid(),
        s.in_bounds(x1, y1),
        s.in_bounds(x2, y2),
        x1 != x2 || y1 != y2,
    ensures
        s.offset(x1, y1) != s.offset(x2, y2),
{
    let w = s.width as int;
    assert(y1 * w + x1 != y2 * w + x2) by (nonlinear_arith)
        requires
            0 <= x1 < w,
            0 <= x2 < w,
            0 <= y1,
            0 <= y2,
            x1 != x2 || y1 != y2,
    {
        if y1 < y2 {
            assert(y1 * w + w <= y2 * w);
        } else if y2 < y1 {
            assert(y2 * w + w <= y1 * w);
        }
    }
}

/// Setting a pixel on the screen keeps the screen valid and its size, and
/// reading that pixel afterwards gives the color that was set, whatever the
/// color: every point with `0 <= x < width` and `0 <= y < height` of the
/// current size can be drawn.
pub proof fn lemma_set_pixel_reads_back(s: Screen, x: int, y: int, color: u16)
    requires
        s.valid(),
        0 <= x < s.width,
        0 <= y < s.height,
    ensures
        s.set_pixel(x, y, color).valid(),
        s.set_pixel(x, y, color).width == s.width,
        s.set_pixel(x, y, color).height == s.height,
        s.set_pixel(x, y, color).pixel(x, y) == color,
{
    lemma_offset_in_frame(s, x, y);
    lemma_be_bytes_round_trip(color);
}

/// Setting a pixel changes no other pixel.
pub proof fn lemma_set_pixel_leaves_others(
    s: Screen,
    x: int,
    y: int,
    color: u16,
    x2: int,
    y2: int,
)
    requires
        s.valid(),
        0 <= x2 < s.width,
        0 <= y2 < s.height,
        x != x2 || y != y2,
    ensures
        s.set_pixel(x, y, color).pixel(x2, y2) == s.pixel(x2, y2),
{
    if s.in_bounds(x, y) {
        lemma_offset_in_frame(s, x, y);
        lemma_offset_in_frame(s, x2, y2);
        lemma_offsets_disjoint(s, x, y, x2, y2);
    }
}

/// A point outside `0 <= x < width`, `0 <= y < height` changes nothing.
pub proof fn lemma_set_pixel_off_screen(s: Screen, x: int, y: int, color: u16)
    requires
        !(0 <= x < s.width && 0 <= y < s.height),
    ensures
        s.set_pixel(x, y, color) == s,
{
}

/// Pixels are laid out row by row from the first byte, two bytes each: the
/// top left pixel starts the frame, the next pixel of a row follows two bytes
/// later, and a row starts two bytes after the last pixel of the row above.
pub proof fn lemma_row_major_layout(s: Screen, x: int, y: int)
    requires
        s.valid(),
    ensures
        s.offset(0, 0) == 0,
        s.offset(x + 1, y) == s.offset(x, y) + 2,
        s.offset(0, y + 1) == s.offset(s.width - 1, y) + 2,
{
    let w = s.width as int;
    assert((y + 1) * w == y * w + w) by (nonlinear_arith);
}

/// Filling keeps the screen valid and its size, and afterwards every pixel
/// on the screen has the fill color, whatever the color.
pub proof fn lemma_fill_reads_back(s: Screen, color: u16, x: int, y: int)
    requires
        s.valid(),
        0 <= x < s.width,
        0 <= y < s.height,
    ensures
        s.fill(color).valid(),
        s.fill(color).width == s.width,
        s.fill(color).height == s.height,
        s.fill(color).pixel(x, y) == color,
{
    lemma_offset_in_frame(s, x, y);
    lemma_be_bytes_round_trip(color);
    let o = s.offset(x, y);
    assert((o + 1) % 2 == 1);
}

/// Drawing keeps the screen valid and its size.
pub proof fn lemma_draw_keeps_size(s: Screen, pixels: Seq<(u32, u32, u16)>)
    requires
        s.valid(),
    ensures
        s.draw(pixels).valid(),
        s.draw(pixels).width == s.width,
        s.draw(pixels).height == s.height,
    decreases pixels.len(),
{
    if pixels.len() > 0 {
        let p = pixels.last();
        lemma_draw_keeps_size(s, pixels.drop_last());
        let t = s.draw(pixels.drop_last());
        if 0 <= p.0 < t.width && 0 <= p.1 < t.height {
            lemma_set_pixel_reads_back(t, p.0 as int, p.1 as int, p.2);
        }
    }
}

/// After drawing, a point on the screen has the color of the last entry for
/// that point, whatever the color, and other entries do not disturb it.
pub proof fn lemma_draw_last_entry_wins(s: Screen, pixels: Seq<(u32, u32, u16)>, k: int)
    requires
        s.valid(),
        0 <= k < pixels.len(),
        pixels[k].0 < s.width,
        pixels[k].1 < s.height,
        forall|j: int|
            k < j < pixels.len() ==> (#[trigger] pixels[j]).0 != pixels[k].0 || pixels[j].1
                != pixels[k].1,
    ensures
        s.draw(pixels).pixel(pixels[k].0 as int, pixels[k].1 as int) == pixels[k].2,
    decreases pixels.len(),
{
    let p = pixels.last();
    let rest = pixels.drop_last();
    lemma_draw_keeps_size(s, rest);
    let t = s.draw(rest);
    if k == pixels.len() - 1 {
        lemma_set_pixel_reads_back(t, p.0 as int, p.1 as int, p.2);
    } else {
        assert(rest[k] == pixels[k]);
        assert forall|j: int| k < j < rest.len() implies (#[trigger] rest[j]).0 != rest[k].0
            || rest[j].1 != rest[k].1 by {
            assert(rest[j] == pixels[j]);
        }
        lemma_draw_last_entry_wins(s, rest, k);
        assert(pixels[pixels.len() - 1] == p);
        lemma_set_pixel_leaves_others(t, p.0 as int, p.1 as int, p.2, pixels[k].0 as int, pixels[k].1 as int);
    }
}

/// A point on the screen that no entry names keeps its color.
pub proof fn lemma_draw_leaves_others(s: Screen, pixels: Seq<(u32, u32, u16)>, x: int, y: int)
    requires
        s.valid(),
        0 <= x < s.width,
        0 <= y < s.height,
        forall|j: int| 0 <= j < pixels.len() ==> (#[trigger] pixels[j]).0 != x || pixels[j].1 != y,
    ensures
        s.draw(pixels).pixel(x, y) == s.pixel(x, y),
    decreases pixels.len(),
{
    if pixels.len() > 0 {
        let p = pixels.last();
        let rest = pixels.drop_last();
        assert forall|j: int| 0 <= j < rest.len() implies (#[trigger] rest[j]).0 != x || rest[j].1
            != y by {
            assert(rest[j] == pixels[j]);
        }
        lemma_draw_leaves_others(s, rest, x, y);
        lemma_draw_keeps_size(s, rest);
        assert(pixels[pixels.len() - 1] == p);
        lemma_set_pixel_leaves_others(s.draw(rest), p.0 as int, p.1 as int, p.2, x, y);
    }
}

} // verus!
