//! What a display can do to its panel: flush the framebuffer, clear an area, repair the panel.
use vstd::prelude::*;

use crate::display::{Display, DisplayView, Rectangle};
use crate::scan::{drivable, image_frames, solid_frames, Pass, Scan, ScanView};
use crate::waveform::DrawMode;

verus! {

/// How often a clear drives the panel to one side and then to the other.
pub const CLEAR_CYCLES: u16 = 4;

/// How long a row of a solid pass is driven, in microseconds.
pub const CLEAR_TIME: u16 = 50;

/// The passes of a clear: in each cycle four of colour 0, then four of colour 1.
pub open spec fn clear_passes(cycles: int) -> Seq<Pass> {
    Seq::new(
        (8 * cycles) as nat,
        |n: int|
            Pass {
                color: if n % 8 < 4 {
                    0
                } else {
                    1
                },
                pause: None,
            },
    )
}

/// Passes of one colour, half a second apart.
pub open spec fn slow_passes(count: int, color: u16) -> Seq<Pass> {
    Seq::new(count as nat, |n: int| Pass { color, pause: Some(500) })
}

/// The passes of a repair.
pub open spec fn repair_passes() -> Seq<Pass> {
    clear_passes(CLEAR_CYCLES as int) + slow_passes(20, 0) + clear_passes(CLEAR_CYCLES as int)
        + slow_passes(40, 1) + clear_passes(CLEAR_CYCLES as int)
}

/// The column after the last one that a clip rectangle lets through.
pub open spec fn clip_end(clip: Rectangle) -> int {
    if clip.x + clip.width < Display::WIDTH {
        clip.x + clip.width
    } else {
        Display::WIDTH as int
    }
}

/// The whole panel.
pub open spec fn whole() -> Rectangle {
    Rectangle { x: 0, y: 0, width: Display::WIDTH, height: Display::HEIGHT }
}

/// Adds the passes of a clear.
fn clear_cycles(passes: &mut Vec<Pass>, cycles: u16)
    requires
        old(passes)@.len() + 8 * cycles <= usize::MAX,
    ensures
        final(passes)@ == old(passes)@ + clear_passes(cycles as int),
{
    let ghost before = passes@;
    let mut n: usize = 0;
    while n < 8 * cycles as usize
        invariant
            n <= 8 * cycles,
            passes@.len() == before.len() + n,
            forall|i: int| 0 <= i < before.len() ==> #[trigger] passes@[i] == before[i],
            forall|i: int|
                0 <= i < n ==> passes@[before.len() + i] == #[trigger] clear_passes(
                    cycles as int,
                )[i],
        decreases 8 * cycles - n,
    {
        let color: u16 = if n % 8 < 4 {
            0
        } else {
            1
        };
        let pass = Pass { color, pause: None };
        assert(pass == clear_passes(cycles as int)[n as int]);
        passes.push(pass);
        n = n + 1;
    }
    assert(passes@ =~= before + clear_passes(cycles as int)) by {
        assert forall|i: int| 0 <= i < passes@.len() implies passes@[i] == (before + clear_passes(
            cycles as int,
        ))[i] by {
            if i >= before.len() {
                let j = i - before.len();
                assert(passes@[before.len() + j] == clear_passes(cycles as int)[j]);
            }
        }
    }
}

/// Adds passes of one colour, half a second apart.
fn slow_cycles(passes: &mut Vec<Pass>, count: u16, color: u16)
    requires
        old(passes)@.len() + count <= usize::MAX,
    ensures
        final(passes)@ == old(passes)@ + slow_passes(count as int, color),
{
    let ghost before = passes@;
    let mut n: u16 = 0;
    while n < count
        invariant
            n <= count,
            passes@ == before + slow_passes(n as int, color),
        decreases count - n,
    {
        passes.push(Pass { color, pause: Some(500) });
        n = n + 1;
        assert(passes@ =~= before + slow_passes(n as int, color));
    }
}

impl Display {
    /// Sends the dirty rows of the framebuffer to the panel; the framebuffer is white and clean
    /// once all is done.
    pub fn flush(&self, mode: DrawMode) -> (scan: Scan)
        ensures
            scan.wf(),
            forall|d: DisplayView| #[trigger]
                scan.state(d) == ScanView::starting(
                    image_frames(d.pixels, d.dirty, mode, 0, Display::WIDTH as int),
                    true,
                ),
    {
        Scan::image(mode, 0, Self::WIDTH)
    }

    /// Like [`Display::flush`], but confines the waveform to the columns of `clip`. Pixels outside
    /// them get no drive even if their row is dirty, so that nothing beside an updated rectangle
    /// fades. The rows are still those that are dirty.
    pub fn flush_clip(&self, mode: DrawMode, clip: Rectangle) -> (scan: Scan)
        ensures
            scan.wf(),
            forall|d: DisplayView| #[trigger]
                scan.state(d) == ScanView::starting(
                    image_frames(d.pixels, d.dirty, mode, clip.x as int, clip_end(clip)),
                    true,
                ),
    {
        let end: u16 = clip.x.saturating_add(clip.width);
        let x_end: u16 = if end < Self::WIDTH {
            end
        } else {
            Self::WIDTH
        };
        Scan::image(mode, clip.x, x_end)
    }

    /// Runs the conditioning cycle over the whole panel: passes to both sides in turn, so that
    /// every pixel is moved and no charge is left. The framebuffer is not touched.
    pub fn clear(&self) -> (scan: Scan)
        ensures
            scan.wf(),
            forall|d: DisplayView| #[trigger]
                scan.state(d) == ScanView::starting(
                    solid_frames(whole(), CLEAR_TIME, clear_passes(CLEAR_CYCLES as int)),
                    false,
                ),
    {
        self.clear_area(Self::bounding_box())
    }

    /// Runs the conditioning cycle over a rectangle of the panel, see [`Display::clear`].
    pub fn clear_area(&self, area: Rectangle) -> (scan: Scan)
        requires
            drivable(area),
        ensures
            scan.wf(),
            forall|d: DisplayView| #[trigger]
                scan.state(d) == ScanView::starting(
                    solid_frames(area, CLEAR_TIME, clear_passes(CLEAR_CYCLES as int)),
                    false,
                ),
    {
        let mut passes: Vec<Pass> = Vec::new();
        clear_cycles(&mut passes, CLEAR_CYCLES);
        assert(passes@ =~= clear_passes(CLEAR_CYCLES as int));
        Scan::solid(area, CLEAR_TIME, passes)
    }

    /// Repairs a panel that was left in one state for long: clears, and slow passes to both sides
    /// between them.
    pub fn repair(&self) -> (scan: Scan)
        ensures
            scan.wf(),
            forall|d: DisplayView| #[trigger]
                scan.state(d) == ScanView::starting(
                    solid_frames(whole(), CLEAR_TIME, repair_passes()),
                    false,
                ),
    {
        let mut passes: Vec<Pass> = Vec::new();
        clear_cycles(&mut passes, CLEAR_CYCLES);
        slow_cycles(&mut passes, 20, 0);
        clear_cycles(&mut passes, CLEAR_CYCLES);
        slow_cycles(&mut passes, 40, 1);
        clear_cycles(&mut passes, CLEAR_CYCLES);
        assert(passes@ =~= repair_passes());
        Scan::solid(Self::bounding_box(), CLEAR_TIME, passes)
    }
}

} // verus!
