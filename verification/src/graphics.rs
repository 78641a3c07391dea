//! Drawing on a turned canvas: points of the canvas are turned onto the panel, whose framebuffer
//! always has the panel's own orientation.
use vstd::prelude::*;

use crate::display::{Display, DisplayRotation, DisplayView};
use crate::error::Error;

verus! {

/// The width and height of the canvas.
pub open spec fn canvas(rotation: DisplayRotation) -> (int, int) {
    match rotation {
        DisplayRotation::Rotate0 | DisplayRotation::Rotate180 => (
            Display::WIDTH as int,
            Display::HEIGHT as int,
        ),
        DisplayRotation::Rotate90 | DisplayRotation::Rotate270 => (
            Display::HEIGHT as int,
            Display::WIDTH as int,
        ),
    }
}

/// Whether the canvas has the point at column `x` of row `y`.
pub open spec fn on_canvas(rotation: DisplayRotation, x: int, y: int) -> bool {
    0 <= x < canvas(rotation).0 && 0 <= y < canvas(rotation).1
}

/// Whether the panel has a pixel at column `x` of row `y`.
pub open spec fn on_panel(x: int, y: int) -> bool {
    0 <= x < Display::WIDTH && 0 <= y < Display::HEIGHT
}

/// The panel pixel of a point of the canvas.
pub open spec fn turned(rotation: DisplayRotation, x: int, y: int) -> (int, int) {
    match rotation {
        DisplayRotation::Rotate0 => (x, y),
        DisplayRotation::Rotate90 => (Display::WIDTH - 1 - y, x),
        DisplayRotation::Rotate180 => (Display::WIDTH - 1 - x, Display::HEIGHT - 1 - y),
        DisplayRotation::Rotate270 => (y, Display::HEIGHT - 1 - x),
    }
}

/// The point of the canvas of a panel pixel.
pub open spec fn turned_back(rotation: DisplayRotation, x: int, y: int) -> (int, int) {
    match rotation {
        DisplayRotation::Rotate0 => (x, y),
        DisplayRotation::Rotate90 => (y, Display::WIDTH - 1 - x),
        DisplayRotation::Rotate180 => (Display::WIDTH - 1 - x, Display::HEIGHT - 1 - y),
        DisplayRotation::Rotate270 => (Display::HEIGHT - 1 - y, x),
    }
}

/// A rotation maps the canvas onto the panel, point for pixel: a point is on the canvas exactly
/// if it is turned onto the panel, and each panel pixel is that of one point.
pub proof fn law_rotation(rotation: DisplayRotation, x: int, y: int)
    ensures
        on_canvas(rotation, x, y) <==> on_panel(turned(rotation, x, y).0, turned(rotation, x, y).1),
        turned_back(rotation, turned(rotation, x, y).0, turned(rotation, x, y).1) == (x, y),
        turned(rotation, turned_back(rotation, x, y).0, turned_back(rotation, x, y).1) == (x, y),
{
}

/// A rotation keeps neighbours: the origin of the canvas goes to a corner of the panel, a step
/// right on the canvas is a step right, down, left or up on the panel, and a step down is the
/// quarter turn of that.
pub proof fn law_rotation_steps(rotation: DisplayRotation, x: int, y: int)
    ensures
        ({
            let (column, row) = turned(rotation, x, y);
            let right = turned(rotation, x + 1, y);
            let below = turned(rotation, x, y + 1);
            match rotation {
                DisplayRotation::Rotate0 => {
                    &&& turned(rotation, 0, 0) == (0int, 0int)
                    &&& right == (column + 1, row)
                    &&& below == (column, row + 1)
                },
                DisplayRotation::Rotate90 => {
                    &&& turned(rotation, 0, 0) == (959int, 0int)
                    &&& right == (column, row + 1)
                    &&& below == (column - 1, row)
                },
                DisplayRotation::Rotate180 => {
                    &&& turned(rotation, 0, 0) == (959int, 539int)
                    &&& right == (column - 1, row)
                    &&& below == (column, row - 1)
                },
                DisplayRotation::Rotate270 => {
                    &&& turned(rotation, 0, 0) == (0int, 539int)
                    &&& right == (column, row - 1)
                    &&& below == (column + 1, row)
                },
            }
        }),
{
}

/// A canvas has the panel's 960 by 540 points, or 540 by 960 where it is turned by a quarter, and a
/// point is on it exactly if it is turned onto one of the panel's pixels.
pub proof fn law_canvas(rotation: DisplayRotation, x: int, y: int)
    ensures
        canvas(rotation) == if rotation is Rotate0 || rotation is Rotate180 {
            (960int, 540int)
        } else {
            (540int, 960int)
        },
        on_canvas(rotation, x, y) <==> 0 <= turned(rotation, x, y).0 < 960 && 0 <= turned(
            rotation,
            x,
            y,
        ).1 < 540,
{
}

/// The panel pixel of a point of the canvas.
pub fn translate_coord_rotation(rotation: DisplayRotation, x: i32, y: i32) -> (pixel: (i64, i64))
    ensures
        (pixel.0 as int, pixel.1 as int) == turned(rotation, x as int, y as int),
{
    let width: i64 = Display::WIDTH as i64;
    let height: i64 = Display::HEIGHT as i64;
    match rotation {
        DisplayRotation::Rotate0 => (x as i64, y as i64),
        DisplayRotation::Rotate90 => (width - 1 - y as i64, x as i64),
        DisplayRotation::Rotate180 => (width - 1 - x as i64, height - 1 - y as i64),
        DisplayRotation::Rotate270 => (y as i64, height - 1 - x as i64),
    }
}

impl Display {
    /// The width and height of the canvas, swapped where it is turned by a quarter.
    pub fn size(&self) -> (size: (u32, u32))
        ensures
            (size.0 as int, size.1 as int) == canvas(self@.rotation),
    {
        match self.rotation() {
            DisplayRotation::Rotate0 | DisplayRotation::Rotate180 => (
                Self::WIDTH as u32,
                Self::HEIGHT as u32,
            ),
            DisplayRotation::Rotate90 | DisplayRotation::Rotate270 => (
                Self::HEIGHT as u32,
                Self::WIDTH as u32,
            ),
        }
    }

    /// Draws a point of the canvas. A point outside the canvas is discarded.
    pub fn draw_pixel(&mut self, x: i32, y: i32, color: u8) -> (r: Result<(), Error>)
        requires
            old(self).wf(),
        ensures
            final(self).wf(),
            ({
                let rotation = old(self)@.rotation;
                let (column, row) = turned(rotation, x as int, y as int);
                let draws = on_canvas(rotation, x as int, y as int);
                &&& r == if draws && color > 15 {
                    Err::<(), Error>(Error::InvalidColor)
                } else {
                    Ok(())
                }
                &&& final(self)@ == if draws && color <= 15 {
                    DisplayView {
                        pixels: old(self)@.pixels.update(row * Display::WIDTH + column, color),
                        dirty: old(self)@.dirty.update(row, true),
                        ..old(self)@
                    }
                } else {
                    old(self)@
                }
            }),
    {
        let (column, row): (i64, i64) = translate_coord_rotation(self.rotation(), x, y);
        proof {
            law_rotation(self@.rotation, x as int, y as int);
        }
        if column < 0 || column >= Self::WIDTH as i64 || row < 0 || row >= Self::HEIGHT as i64 {
            return Ok(());
        }
        self.set_pixel(column as u16, row as u16, color)
    }
}

} // verus!
