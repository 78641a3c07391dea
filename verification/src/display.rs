//! The display: the framebuffer, its dirty rows, and the state of the panel.
use vstd::prelude::*;

use crate::error::Error;
use crate::waveform::LINE_BYTES_4BPP;

verus! {

/// Bytes of the dirty-row bitmap, one bit for each row.
const TAINTED_ROWS_SIZE: usize = 68;

/// Bytes of the framebuffer, two pixels to a byte.
const FRAMEBUFFER_SIZE: usize = 259_200;

/// Display rotation, only 90° increments supported.
#[derive(Clone, Copy, Debug, PartialEq, Eq)]
pub enum DisplayRotation {
    Rotate0,
    Rotate90,
    Rotate180,
    Rotate270,
}

impl Default for DisplayRotation {
    fn default() -> (rotation: Self)
        ensures
            rotation == DisplayRotation::Rotate0,
    {
        DisplayRotation::Rotate0
    }
}

/// A rectangle of panel pixels.
#[derive(Clone, Copy, Debug, PartialEq, Eq)]
pub struct Rectangle {
    pub x: u16,
    pub y: u16,
    pub width: u16,
    pub height: u16,
}

/// What a display holds.
#[verifier::ext_equal]
pub struct DisplayView {
    /// The gray level of each pixel, row by row: 0 is black, 15 is white.
    pub pixels: Seq<u8>,
    /// Which rows have been drawn to since the last flush.
    pub dirty: Seq<bool>,
    pub rotation: DisplayRotation,
    /// What was last written to the control port of the panel.
    pub port: u8,
    /// Whether the bus to the panel and its transfer buffer are at hand.
    pub linked: bool,
}

impl DisplayView {
    /// The gray level at column `x` of row `y`.
    pub open spec fn pixel(self, x: int, y: int) -> u8 {
        self.pixels[y * Display::WIDTH + x]
    }

    /// A new display: white, unturned, the control port all low and the bus at hand.
    pub open spec fn initial() -> DisplayView {
        DisplayView {
            pixels: seq![],
            dirty: seq![],
            rotation: DisplayRotation::Rotate0,
            port: 0,
            linked: true,
        }.blank()
    }

    /// The display with a white framebuffer and no dirty rows.
    pub open spec fn blank(self) -> DisplayView {
        DisplayView {
            pixels: Seq::new(
                (Display::WIDTH * Display::HEIGHT) as nat,
                |i: int| 15u8,
            ),
            dirty: Seq::new(Display::HEIGHT as nat, |y: int| false),
            ..self
        }
    }
}

/// The bit of row `y` in the dirty-row bitmap.
spec fn row_bit(marks: Seq<u8>, y: int) -> bool {
    marks[y / 8] & (1u8 << ((y % 8) as u8)) != 0
}

/// Pixel `i` of a framebuffer: the low half of byte `i / 2` for even `i`, else the high half.
spec fn gray(bytes: Seq<u8>, i: int) -> u8 {
    if i % 2 == 0 {
        bytes[i / 2] % 16
    } else {
        bytes[i / 2] / 16
    }
}

/// Bytes of ones are white pixels, a bitmap of zeros marks no row.
proof fn lemma_white(display: &Display)
    requires
        display.framebuffer@ =~= Seq::new(FRAMEBUFFER_SIZE as nat, |i: int| 0xFFu8),
        display.tainted_rows@ =~= Seq::new(TAINTED_ROWS_SIZE as nat, |i: int| 0u8),
    ensures
        display@ == display@.blank(),
{
    assert forall|y: int| 0 <= y < Display::HEIGHT implies !display@.dirty[y] by {
        let bit = (y % 8) as u8;
        assert(0u8 & (1u8 << bit) == 0) by (bit_vector);
    }
    assert(display@ =~= display@.blank());
}

/// Sets every byte of a buffer.
fn fill_bytes(buf: &mut Vec<u8>, byte: u8)
    ensures
        final(buf)@ == Seq::new(old(buf)@.len(), |i: int| byte),
{
    let mut i: usize = 0;
    while i < buf.len()
        invariant
            i <= buf@.len(),
            buf@.len() == old(buf)@.len(),
            forall|j: int| 0 <= j < i ==> buf@[j] == byte,
        decreases buf@.len() - i,
    {
        buf[i] = byte;
        i += 1;
    }
    assert(buf@ =~= Seq::new(old(buf)@.len(), |i: int| byte));
}

/// A display with a framebuffer of 4-bit gray levels. Operations that reach the panel are values
/// with a `step` method, see [`crate::hardware`].
pub struct Display {
    framebuffer: Vec<u8>,
    tainted_rows: Vec<u8>,
    rotation: DisplayRotation,
    pca_out1: u8,
    linked: bool,
}

impl View for Display {
    type V = DisplayView;

    closed spec fn view(&self) -> DisplayView {
        DisplayView {
            pixels: Seq::new(
                (Display::WIDTH * Display::HEIGHT) as nat,
                |i: int| gray(self.framebuffer@, i),
            ),
            dirty: Seq::new(Display::HEIGHT as nat, |y: int| row_bit(self.tainted_rows@, y)),
            rotation: self.rotation,
            port: self.pca_out1,
            linked: self.linked,
        }
    }
}

impl Display {
    pub const WIDTH: u16 = 960;

    pub const HEIGHT: u16 = 540;

    /// The framebuffer and the bitmap have their sizes.
    pub closed spec fn wf(&self) -> bool {
        &&& self.framebuffer@.len() == FRAMEBUFFER_SIZE
        &&& self.tainted_rows@.len() == TAINTED_ROWS_SIZE
    }

    /// Every display has a gray level up to 15 for each pixel and a mark for each row.
    pub proof fn lemma_view(&self)
        ensures
            self@.pixels.len() == Display::WIDTH * Display::HEIGHT,
            self@.dirty.len() == Display::HEIGHT,
            forall|i: int| 0 <= i < self@.pixels.len() ==> #[trigger] self@.pixels[i] <= 15,
    {
    }

    /// A display with a white framebuffer, no dirty rows and the control port all low.
    pub fn new() -> (display: Display)
        ensures
            display.wf(),
            display@ == DisplayView::initial(),
    {
        let display = Display {
            framebuffer: vec![0xFFu8; FRAMEBUFFER_SIZE],
            tainted_rows: vec![0u8; TAINTED_ROWS_SIZE],
            rotation: DisplayRotation::default(),
            pca_out1: 0x00,
            linked: true,
        };
        proof {
            lemma_white(&display);
        }
        display
    }

    /// Whether a row has been drawn to since the last flush.
    pub fn is_tainted(&self, row: u16) -> (tainted: bool)
        requires
            self.wf(),
            row < Display::HEIGHT,
        ensures
            tainted == self@.dirty[row as int],
    {
        let index: usize = row as usize / 8;
        let bit: u8 = (row % 8) as u8;
        self.tainted_rows[index] & (1u8 << bit) != 0
    }

    /// The packed gray levels of a row.
    pub(crate) fn line(&self, row: u16) -> (line: &[u8])
        requires
            self.wf(),
            row < Display::HEIGHT,
        ensures
            line@.len() == LINE_BYTES_4BPP,
            forall|i: int|
                0 <= i < LINE_BYTES_4BPP ==> #[trigger] line@[i] % 16 == self@.pixel(
                    2 * i,
                    row as int,
                ) && line@[i] / 16 == self@.pixel(2 * i + 1, row as int),
    {
        let start: usize = row as usize * LINE_BYTES_4BPP;
        let end: usize = start + LINE_BYTES_4BPP;
        let line = vstd::slice::slice_subrange(self.framebuffer.as_slice(), start, end);
        proof {
            assert forall|i: int| 0 <= i < LINE_BYTES_4BPP implies #[trigger] line@[i] % 16
                == self@.pixel(2 * i, row as int) && line@[i] / 16 == self@.pixel(
                2 * i + 1,
                row as int,
            ) by {
                let at = row * Display::WIDTH + 2 * i;
                assert(line@[i] == self.framebuffer@[start + i]);
                assert(at / 2 == start + i && (at + 1) / 2 == start + i && at % 2 == 0);
            }
        }
        line
    }

    /// Empties the framebuffer and the dirty-row bitmap.
    pub(crate) fn reset(&mut self)
        requires
            old(self).wf(),
        ensures
            final(self).wf(),
            final(self)@ == old(self)@.blank(),
    {
        fill_bytes(&mut self.tainted_rows, 0);
        fill_bytes(&mut self.framebuffer, 0xFF);
        proof {
            lemma_white(self);
        }
    }

    /// What was last written to the control port.
    pub(crate) fn port(&self) -> (port: u8)
        ensures
            port == self@.port,
    {
        self.pca_out1
    }

    /// Notes what is written to the control port.
    pub(crate) fn set_port(&mut self, port: u8)
        requires
            old(self).wf(),
        ensures
            final(self).wf(),
            final(self)@ == (DisplayView { port, ..old(self)@ }),
    {
        self.pca_out1 = port;
    }

    /// Whether the bus to the panel is at hand.
    pub(crate) fn linked(&self) -> (linked: bool)
        ensures
            linked == self@.linked,
    {
        self.linked
    }

    /// Notes whether the bus to the panel is at hand.
    pub(crate) fn set_linked(&mut self, linked: bool)
        requires
            old(self).wf(),
        ensures
            final(self).wf(),
            final(self)@ == (DisplayView { linked, ..old(self)@ }),
    {
        self.linked = linked;
    }

    /// The whole panel.
    pub fn bounding_box() -> (area: Rectangle)
        ensures
            area == (Rectangle { x: 0, y: 0, width: Display::WIDTH, height: Display::HEIGHT }),
    {
        Rectangle { x: 0, y: 0, width: Self::WIDTH, height: Self::HEIGHT }
    }

    /// Sets how drawn points are turned onto the panel.
    pub fn set_rotation(&mut self, rotation: DisplayRotation)
        requires
            old(self).wf(),
        ensures
            final(self).wf(),
            final(self)@ == (DisplayView { rotation, ..old(self)@ }),
    {
        self.rotation = rotation;
    }

    /// How drawn points are turned onto the panel.
    pub fn rotation(&self) -> (rotation: DisplayRotation)
        ensures
            rotation == self@.rotation,
    {
        self.rotation
    }

    /// Sets a pixel to a gray level from 0, black, to 15, white, and marks its row dirty.
    pub fn set_pixel(&mut self, x: u16, y: u16, color: u8) -> (r: Result<(), Error>)
        requires
            old(self).wf(),
        ensures
            final(self).wf(),
            r == if x >= Display::WIDTH || y >= Display::HEIGHT {
                Err::<(), Error>(Error::OutOfBounds)
            } else if color > 15 {
                Err(Error::InvalidColor)
            } else {
                Ok(())
            },
            final(self)@ == if r is Ok {
                DisplayView {
                    pixels: old(self)@.pixels.update(y * Display::WIDTH + x, color),
                    dirty: old(self)@.dirty.update(y as int, true),
                    ..old(self)@
                }
            } else {
                old(self)@
            },
    {
        if x >= Self::WIDTH || y >= Self::HEIGHT {
            return Err(Error::OutOfBounds);
        }
        if color > 0x0F {
            return Err(Error::InvalidColor);
        }
        let index: usize = x as usize / 2 + y as usize * LINE_BYTES_4BPP;
        let value: u8 = self.framebuffer[index];
        let ghost bytes = self.framebuffer@;
        let ghost marks = self.tainted_rows@;
        let ghost at = y * Display::WIDTH + x;
        assert(index == at / 2 && at % 2 == x % 2);
        if x % 2 == 1 {
            self.framebuffer[index] = (value & 0x0F) | ((color << 4) & 0xF0);
            let ghost new = (value & 0x0F) | ((color << 4) & 0xF0);
            assert(new % 16 == value % 16 && new / 16 == color) by (bit_vector)
                requires
                    color <= 15,
                    new == (value & 0x0F) | ((color << 4) & 0xF0),
            ;
        } else {
            self.framebuffer[index] = (value & 0xF0) | (color & 0x0F);
            let ghost new = (value & 0xF0) | (color & 0x0F);
            assert(new % 16 == color && new / 16 == value / 16) by (bit_vector)
                requires
                    color <= 15,
                    new == (value & 0xF0) | (color & 0x0F),
            ;
        }
        let tainted_index: usize = y as usize / 8;
        let bit: u8 = (y % 8) as u8;
        let mark: u8 = self.tainted_rows[tainted_index];
        self.tainted_rows[tainted_index] = mark | (1u8 << bit);
        proof {
            assert(self@.pixels =~= old(self)@.pixels.update(at, color)) by {
                assert forall|i: int| 0 <= i < self@.pixels.len() implies self@.pixels[i]
                    == old(self)@.pixels.update(at, color)[i] by {
                    if i / 2 == index && i != at {
                        assert(i % 2 != at % 2);
                    }
                }
            }
            assert(self@.dirty =~= old(self)@.dirty.update(y as int, true)) by {
                assert forall|row: int| 0 <= row < Display::HEIGHT implies #[trigger] self@.dirty[row]
                    == (row == y || old(self)@.dirty[row]) by {
                    let other = (row % 8) as u8;
                    assert((mark | (1u8 << bit)) & (1u8 << other) != 0 <==> (bit == other || mark & (
                    1u8 << other) != 0)) by (bit_vector)
                        requires
                            bit < 8,
                            other < 8,
                    ;
                }
            }
        }
        Ok(())
    }

    /// Raw framebuffer bytes for screenshot capture: two pixels to a byte, row by row, the pixel of
    /// the even column in the low half. A flush leaves the framebuffer white, so capture before it.
    pub fn framebuffer(&self) -> (bytes: &[u8])
        requires
            self.wf(),
        ensures
            bytes@.len() == Display::WIDTH * Display::HEIGHT / 2,
            forall|i: int|
                0 <= i < bytes@.len() ==> #[trigger] bytes@[i] == self@.pixels[2 * i] + 16
                    * self@.pixels[2 * i + 1],
    {
        self.framebuffer.as_slice()
    }

    /// Sets every pixel to a gray level and marks every row dirty.
    pub fn fill(&mut self, color: u8) -> (r: Result<(), Error>)
        requires
            old(self).wf(),
        ensures
            final(self).wf(),
            r == if color > 15 {
                Err::<(), Error>(Error::InvalidColor)
            } else {
                Ok(())
            },
            final(self)@ == if r is Ok {
                DisplayView {
                    pixels: Seq::new(old(self)@.pixels.len(), |i: int| color),
                    dirty: Seq::new(old(self)@.dirty.len(), |y: int| true),
                    ..old(self)@
                }
            } else {
                old(self)@
            },
    {
        if color > 0x0F {
            return Err(Error::InvalidColor);
        }
        let byte: u8 = color << 4 | color;
        assert(byte % 16 == color && byte / 16 == color) by (bit_vector)
            requires
                color <= 15,
                byte == color << 4 | color,
        ;
        fill_bytes(&mut self.framebuffer, byte);
        fill_bytes(&mut self.tainted_rows, 0xFF);
        proof {
            assert forall|y: int| 0 <= y < Display::HEIGHT implies row_bit(self.tainted_rows@, y) by {
                let bit = (y % 8) as u8;
                assert(0xFFu8 & (1u8 << bit) != 0) by (bit_vector)
                    requires
                        bit < 8,
                ;
            }
            assert(self@ =~= DisplayView {
                pixels: Seq::new(old(self)@.pixels.len(), |i: int| color),
                dirty: Seq::new(old(self)@.dirty.len(), |y: int| true),
                ..old(self)@
            });
        }
        Ok(())
    }
}

} // verus!
