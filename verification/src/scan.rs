//! Scans of the panel: an image refresh of fifteen frames, and the solid passes that condition the
//! panel. A scan is a plan of actions that [`Scan::step`] hands out one by one.
use vstd::prelude::*;

use crate::bits::{from_slots, lemma_byte_of_slots, nibble, slot};
use crate::display::{Display, DisplayView, Rectangle};
use crate::error::Error;
use crate::hardware::{write_register, Op, Reply, Step};
use crate::panel::{
    frame_end, frame_end_actions, frame_start, frame_start_actions, output_row, output_row_actions,
    set_buffer, set_buffer_actions, set_output_enabled, set_output_enabled_actions, skip,
    skip_actions, Action, Queue, PCA9555_ADDR, PCA_REG_OUTPUT1,
};
use crate::waveform::{
    clip_dma_buffer, group, halves_swapped, is_lut, law_lut_evolution,
    prepare_dma_buffer, solid_pattern, solid_row, update_lut, DrawMode, BYTES_PER_LINE,
    DRAW_IMAGE_FRAME_COUNT, LUT_SIZE, ROW_PIXELS,
};

verus! {

/// One pass over all rows of the panel.
pub struct Frame {
    /// Which rows are driven; the others are passed over.
    pub driven: Seq<bool>,
    /// The data put in the transfer buffer before a driven row, where it changes.
    pub loads: Seq<Option<Seq<u8>>>,
    /// How long a row is driven, in microseconds.
    pub time: u16,
    /// Whether the frame closes with a driven row even after rows that were passed over.
    pub closes: bool,
    /// A pause after the frame, in milliseconds.
    pub pause: Option<u32>,
}

/// Passes over a row, the `run`-th in a run of such rows counted from zero. The first sends zeros,
/// so that the row drivers forget the last row, and then switches the outputs off; the second is a
/// short row; the rest are clocked past.
pub open spec fn row_skip_actions(run: int, output_time: u16) -> Seq<Action<Seq<u8>>> {
    if run == 0 {
        set_buffer_actions(Seq::new(BYTES_PER_LINE as nat, |i: int| 0u8)) + output_row_actions(
            output_time,
        ) + set_output_enabled_actions(true, false)
    } else if run == 1 {
        output_row_actions(10)
    } else {
        skip_actions()
    }
}

/// Drives a row after a run of `run` rows that were passed over.
pub open spec fn row_write_actions(run: int, output_time: u16) -> Seq<Action<Seq<u8>>> {
    set_output_enabled_actions(run == 0, true) + output_row_actions(output_time)
}

impl Frame {
    /// The actions of row `y` after a run of `run` rows that were passed over.
    pub open spec fn row_actions(self, y: int, run: int) -> Seq<Action<Seq<u8>>> {
        if self.driven[y] {
            (match self.loads[y] {
                Some(data) => set_buffer_actions(data),
                None => seq![],
            }) + row_write_actions(run, self.time)
        } else {
            row_skip_actions(run, self.time)
        }
    }

    /// The run of rows passed over up to and with row `y`, after a run of `run` before it.
    pub open spec fn run_after(self, y: int, run: int) -> int {
        if self.driven[y] {
            0
        } else {
            run + 1
        }
    }

    /// The actions of the frame from row `y` on, after a run of `run` rows passed over.
    pub open spec fn actions_from(self, y: int, run: int) -> Seq<Action<Seq<u8>>>
        decreases Display::HEIGHT - y,
    {
        if y < Display::HEIGHT {
            self.row_actions(y, run) + self.actions_from(y + 1, self.run_after(y, run))
        } else {
            self.closing_actions(run)
        }
    }

    /// The end of the frame, after a run of `run` rows passed over: the last row sent is still
    /// driven, the frame is ended, and the pause follows.
    pub open spec fn closing_actions(self, run: int) -> Seq<Action<Seq<u8>>> {
        (if self.closes || run == 0 {
            row_write_actions(run, self.time)
        } else {
            seq![]
        }) + frame_end_actions() + (match self.pause {
            Some(millis) => seq![Action::Do(Op::DelayMillis { millis })],
            None => seq![],
        })
    }

    /// All actions of the frame.
    pub open spec fn actions(self) -> Seq<Action<Seq<u8>>> {
        frame_start_actions() + self.actions_from(0, 0)
    }
}

/// The actions of frames `n` to the last, one frame after the other.
pub open spec fn frames_from(frames: Seq<Frame>, n: int) -> Seq<Action<Seq<u8>>>
    decreases frames.len() - n,
{
    if 0 <= n < frames.len() {
        frames[n].actions() + frames_from(frames, n + 1)
    } else {
        seq![]
    }
}

/// The drive code of a pixel of an image: that of its gray level, or none outside the clip.
pub open spec fn image_code(
    pixels: Seq<u8>,
    mode: DrawMode,
    frame: int,
    x_start: int,
    x_end: int,
    x: int,
    y: int,
) -> int {
    if x_start <= x < x_end {
        mode.code(frame, pixels[y * ROW_PIXELS + x] as int)
    } else {
        0
    }
}

/// Row `y` of an image in frame `frame`: four codes to a byte, the leftmost in bits 7:6.
pub open spec fn image_row(
    pixels: Seq<u8>,
    mode: DrawMode,
    frame: int,
    x_start: int,
    x_end: int,
    y: int,
) -> Seq<u8> {
    Seq::new(
        BYTES_PER_LINE as nat,
        |b: int|
            from_slots(
                image_code(pixels, mode, frame, x_start, x_end, 4 * b + 3, y),
                image_code(pixels, mode, frame, x_start, x_end, 4 * b + 2, y),
                image_code(pixels, mode, frame, x_start, x_end, 4 * b + 1, y),
                image_code(pixels, mode, frame, x_start, x_end, 4 * b, y),
            ),
    )
}

/// Frame `frame` of an image refresh: the dirty rows are driven, each with its own data.
pub open spec fn image_frame(
    pixels: Seq<u8>,
    dirty: Seq<bool>,
    mode: DrawMode,
    x_start: int,
    x_end: int,
    frame: int,
) -> Frame {
    Frame {
        driven: dirty,
        loads: Seq::new(
            Display::HEIGHT as nat,
            |y: int| Some(image_row(pixels, mode, frame, x_start, x_end, y)),
        ),
        time: mode.row_time(frame),
        closes: false,
        pause: None,
    }
}

/// The frames of an image refresh of the columns from `x_start` to `x_end`.
pub open spec fn image_frames(
    pixels: Seq<u8>,
    dirty: Seq<bool>,
    mode: DrawMode,
    x_start: int,
    x_end: int,
) -> Seq<Frame> {
    Seq::new(
        DRAW_IMAGE_FRAME_COUNT as nat,
        |k: int| image_frame(pixels, dirty, mode, x_start, x_end, k),
    )
}

/// One solid pass over a rectangle and the pause after it.
#[derive(Clone, Copy, Debug, PartialEq, Eq)]
pub struct Pass {
    pub color: u16,
    pub pause: Option<u32>,
}

/// Whether a solid pass drives row `y`: the rows of the rectangle.
pub open spec fn solid_drives(area: Rectangle, y: int) -> bool {
    area.y <= y < area.y + area.height
}

/// The frame of a solid pass: one row of data, put in the transfer buffer once.
pub open spec fn solid_frame(area: Rectangle, time: u16, pass: Pass) -> Frame {
    Frame {
        driven: Seq::new(Display::HEIGHT as nat, |y: int| solid_drives(area, y)),
        loads: Seq::new(
            Display::HEIGHT as nat,
            |y: int|
                if y == area.y {
                    Some(
                        halves_swapped(
                            solid_pattern(area.x as int, area.width as int, pass.color as int),
                        ),
                    )
                } else {
                    None
                },
        ),
        time,
        closes: true,
        pause: pass.pause,
    }
}

/// The frames of solid passes.
pub open spec fn solid_frames(area: Rectangle, time: u16, passes: Seq<Pass>) -> Seq<Frame> {
    Seq::new(passes.len(), |n: int| solid_frame(area, time, passes[n]))
}

/// A rectangle that solid passes can drive: its columns lie on the panel, and the end of its rows,
/// where it matters, fits the type.
pub open spec fn drivable(area: Rectangle) -> bool {
    &&& area.width == 0 || area.x + area.width <= Display::WIDTH
    &&& area.y >= Display::HEIGHT - 1 || area.y + area.height <= u16::MAX
}

/// Passes over a row, see [`row_skip_actions`].
fn row_skip(queue: &mut Queue, run: u16, output_time: u16)
    ensures
        final(queue)@ == old(queue)@ + row_skip_actions(run as int, output_time),
{
    if run == 0 {
        let zeros: Vec<u8> = vec![0u8; BYTES_PER_LINE];
        assert(zeros@ =~= Seq::new(BYTES_PER_LINE as nat, |i: int| 0u8));
        set_buffer(queue, zeros);
        output_row(queue, output_time);
        set_output_enabled(queue, true, false);
    } else if run == 1 {
        output_row(queue, 10);
    } else {
        skip(queue);
    }
    assert(queue@ =~= old(queue)@ + row_skip_actions(run as int, output_time));
}

/// Drives a row, see [`row_write_actions`].
fn row_write(queue: &mut Queue, run: u16, output_time: u16)
    ensures
        final(queue)@ == old(queue)@ + row_write_actions(run as int, output_time),
{
    set_output_enabled(queue, run == 0, true);
    output_row(queue, output_time);
    assert(queue@ =~= old(queue)@ + row_write_actions(run as int, output_time));
}

/// The data of a row of an image, see [`image_row`].
fn image_row_data(
    display: &Display,
    lut: &Vec<u8>,
    mode: DrawMode,
    frame: usize,
    x_start: u16,
    x_end: u16,
    row: u16,
) -> (buf: Vec<u8>)
    requires
        display.wf(),
        row < Display::HEIGHT,
        x_end <= Display::WIDTH,
        is_lut(lut@, mode, frame as int),
    ensures
        buf@ == image_row(
            display@.pixels,
            mode,
            frame as int,
            x_start as int,
            x_end as int,
            row as int,
        ),
{
    let clipping: bool = x_start > 0 || x_end < Display::WIDTH;
    let line = display.line(row);
    proof {
        assert forall|b: int| 0 <= b < BYTES_PER_LINE implies #[trigger] group(line@, b) < LUT_SIZE by {
        }
    }
    let mut buf: Vec<u8> = prepare_dma_buffer(line, lut.as_slice());
    let ghost whole = buf@;
    if clipping {
        clip_dma_buffer(&mut buf, x_start, x_end);
    }
    proof {
        let pixels = display@.pixels;
        let k = frame as int;
        let y = row as int;
        let row_spec = image_row(pixels, mode, k, x_start as int, x_end as int, y);
        assert forall|b: int| 0 <= b < BYTES_PER_LINE implies buf@[b] == row_spec[b] by {
            let v = group(line@, b);
            assert(line@[2 * b] % 16 == display@.pixel(2 * (2 * b), y));
            assert(line@[2 * b + 1] % 16 == display@.pixel(2 * (2 * b + 1), y));
            assert(nibble(v, 0) == display@.pixel(4 * b, y));
            assert(nibble(v, 1) == display@.pixel(4 * b + 1, y));
            assert(nibble(v, 2) == display@.pixel(4 * b + 2, y));
            assert(nibble(v, 3) == display@.pixel(4 * b + 3, y));
            assert forall|i: int| 0 <= i < 4 implies #[trigger] slot(buf@[b], i) == image_code(
                pixels,
                mode,
                k,
                x_start as int,
                x_end as int,
                4 * b + (3 - i),
                y,
            ) by {
                assert(slot(whole[b], i) == slot(lut@[v], 3 - i));
                assert(slot(lut@[v], 3 - i) == mode.code(k, nibble(v, 3 - i)));
            }
            lemma_byte_of_slots(buf@[b]);
            assert(slot(buf@[b], 0) + 4 * slot(buf@[b], 1) + 16 * slot(buf@[b], 2) + 64 * slot(
                buf@[b],
                3,
            ) == buf@[b]);
        }
        assert(buf@ =~= row_spec);
    }
    buf
}

/// Which reply a scan waits for.
#[derive(Clone, Copy, Debug, PartialEq, Eq)]
pub enum Waiting {
    /// One that makes no difference.
    Nothing,
    /// That of a pulse.
    Pulse,
    /// That of the end of a pulse.
    PulseEnd,
    /// That of a transfer.
    Send,
    /// That of the end of a transfer.
    SendEnd,
}

/// The state of a scan.
#[verifier::ext_equal]
pub struct ScanView {
    /// What is still to do, if nothing fails.
    pub plan: Seq<Action<Seq<u8>>>,
    pub waiting: Waiting,
    /// Whether a transfer holds the bus to the panel.
    pub carrying: bool,
    /// How the transfer failed, until its pulse has been seen through.
    pub held: Option<Error>,
    /// How the scan ended.
    pub ended: Option<Result<(), Error>>,
    /// Whether the framebuffer is emptied when all is done.
    pub blanks: bool,
}

impl ScanView {
    /// A scan that has not begun.
    pub open spec fn starting(frames: Seq<Frame>, blanks: bool) -> ScanView {
        ScanView {
            plan: frames_from(frames, 0),
            waiting: Waiting::Nothing,
            carrying: false,
            held: None,
            ended: None,
            blanks,
        }
    }

    /// The error that a reply ends the scan with. A failed transfer ends it once the pulse that
    /// runs beside it has been seen through; a failure of the pulse then comes first.
    pub open spec fn failure(self, reply: Reply) -> Option<Error> {
        match self.waiting {
            Waiting::Nothing | Waiting::SendEnd => None,
            Waiting::Pulse | Waiting::Send => reply.error(),
            Waiting::PulseEnd => match reply.error() {
                Some(e) => Some(e),
                None => self.held,
            },
        }
    }

    /// The scan after a reply that does not end it.
    pub open spec fn settled(self, reply: Reply) -> ScanView {
        ScanView {
            waiting: Waiting::Nothing,
            carrying: self.carrying && !(self.waiting is PulseEnd),
            held: if self.waiting is SendEnd {
                reply.error()
            } else {
                self.held
            },
            ..self
        }
    }

    /// The display after a reply that does not end the scan: a transfer that is over gives the
    /// bus back.
    pub open spec fn settled_display(self, d: DisplayView) -> DisplayView {
        DisplayView { linked: d.linked || (self.waiting is PulseEnd && self.carrying), ..d }
    }

    /// The scan and the display after a reply, and what comes next. A scan that is over stays so.
    pub open spec fn next(self, d: DisplayView, reply: Reply) -> (
        ScanView,
        DisplayView,
        Step<Seq<u8>, Result<(), Error>>,
    ) {
        match (self.ended, self.failure(reply)) {
            (Some(result), _) => (self, d, Step::Finished(result)),
            (None, Some(e)) => (
                ScanView { ended: Some(Err(e)), ..self },
                // A transfer that did not start gives the bus back, one that failed loses it.
                DisplayView { linked: d.linked || self.waiting is Send, ..d },
                Step::Finished(Err(e)),
            ),
            (None, None) => self.settled(reply).issue(self.settled_display(d)),
        }
    }

    /// Hands out the first action of the plan, or ends the scan.
    pub open spec fn issue(self, d: DisplayView) -> (
        ScanView,
        DisplayView,
        Step<Seq<u8>, Result<(), Error>>,
    ) {
        if self.plan.len() == 0 {
            (
                ScanView { ended: Some(Ok(())), ..self },
                if self.blanks {
                    d.blank()
                } else {
                    d
                },
                Step::Finished(Ok(())),
            )
        } else if needs_link(self.plan[0]) && !d.linked {
            (
                ScanView {
                    plan: self.plan.drop_first(),
                    ended: Some(Err(Error::Unknown)),
                    ..self
                },
                d,
                Step::Finished(Err(Error::Unknown)),
            )
        } else {
            let action = self.plan[0];
            let sends = action == Action::<Seq<u8>>::Do(Op::Send);
            (
                ScanView {
                    plan: self.plan.drop_first(),
                    waiting: waiting_for(action),
                    carrying: self.carrying || sends,
                    ..self
                },
                DisplayView {
                    port: action.port_after(d.port),
                    linked: d.linked && !sends,
                    ..d
                },
                Step::Perform(action.resolve(d.port)),
            )
        }
    }
}

/// Whether an action takes the transfer buffer, which is gone after a failed transfer.
pub open spec fn needs_link(action: Action<Seq<u8>>) -> bool {
    match action {
        Action::Do(Op::Load { .. }) | Action::Do(Op::Send) => true,
        _ => false,
    }
}

/// The reply to wait for after an action.
pub open spec fn waiting_for(action: Action<Seq<u8>>) -> Waiting {
    match action {
        Action::Do(Op::Pulse { .. }) => Waiting::Pulse,
        Action::Do(Op::FinishPulse) => Waiting::PulseEnd,
        Action::Do(Op::Send) => Waiting::Send,
        Action::Do(Op::FinishSend) => Waiting::SendEnd,
        _ => Waiting::Nothing,
    }
}

/// Where the data of a scan comes from.
enum Source {
    Image { mode: DrawMode, x_start: u16, x_end: u16, lut: Vec<u8> },
    Solid { area: Rectangle, time: u16, passes: Vec<Pass> },
}

impl Source {
    /// The frames of a scan of a display that holds `pixels` and `dirty`.
    spec fn frames(self, pixels: Seq<u8>, dirty: Seq<bool>) -> Seq<Frame> {
        match self {
            Source::Image { mode, x_start, x_end, .. } => image_frames(
                pixels,
                dirty,
                mode,
                x_start as int,
                x_end as int,
            ),
            Source::Solid { area, time, passes } => solid_frames(area, time, passes@),
        }
    }

    /// The source stands before frame `frame` (`begun` is false), or in it.
    spec fn wf(self, begun: bool, frame: int) -> bool {
        match self {
            Source::Image { mode, x_start, x_end, lut } => {
                &&& x_end <= Display::WIDTH
                &&& if begun {
                    frame < DRAW_IMAGE_FRAME_COUNT ==> is_lut(lut@, mode, frame)
                } else {
                    &&& lut@.len() == LUT_SIZE
                    &&& forall|v: int, i: int|
                        0 <= v < LUT_SIZE && 0 <= i < 4 ==> #[trigger] slot(lut@[v], i)
                            == mode.drive()
                }
            },
            Source::Solid { area, .. } => drivable(area),
        }
    }

    /// How many frames there are.
    fn count(&self) -> (n: usize)
        ensures
            forall|pixels: Seq<u8>, dirty: Seq<bool>|
                n == (#[trigger] self.frames(pixels, dirty)).len(),
    {
        match self {
            Source::Image { .. } => DRAW_IMAGE_FRAME_COUNT,
            Source::Solid { passes, .. } => passes.len(),
        }
    }

    /// Readies the data of frame `frame`.
    fn enter(&mut self, frame: usize)
        requires
            old(self).wf(frame > 0, frame - 1),
        ensures
            final(self).wf(true, frame as int),
            forall|pixels: Seq<u8>, dirty: Seq<bool>| #[trigger]
                final(self).frames(pixels, dirty) == old(self).frames(pixels, dirty),
    {
        if let Source::Image { mode, lut, .. } = self {
            if frame < DRAW_IMAGE_FRAME_COUNT {
                let ghost before = lut@;
                update_lut(lut, frame, *mode);
                proof {
                    law_lut_evolution(*mode, frame as int, before, lut@);
                }
            }
        }
    }
}

/// Whatever row it stands at, a frame has its end still to come.
proof fn lemma_frame_goes_on(frame: Frame, y: int, run: int)
    ensures
        frame.actions_from(y, run).len() > 0,
    decreases Display::HEIGHT - y,
{
    if y < Display::HEIGHT {
        lemma_frame_goes_on(frame, y + 1, frame.run_after(y, run));
    }
}

/// An operation that scans the panel, see [`Scan::step`].
pub struct Scan {
    source: Source,
    queue: Queue,
    begun: bool,
    frame: usize,
    row: u16,
    run: u16,
    waiting: Waiting,
    carrying: bool,
    held: Option<Error>,
    ended: Option<Result<(), Error>>,
}

impl Scan {
    /// The actions that are not in the queue yet.
    spec fn rest(&self, pixels: Seq<u8>, dirty: Seq<bool>) -> Seq<Action<Seq<u8>>> {
        let frames = self.source.frames(pixels, dirty);
        if !self.begun {
            frames_from(frames, 0)
        } else if self.frame < frames.len() {
            frames[self.frame as int].actions_from(self.row as int, self.run as int) + frames_from(
                frames,
                self.frame + 1,
            )
        } else {
            seq![]
        }
    }

    /// The state of the scan, on a display that holds `d`.
    pub closed spec fn state(&self, d: DisplayView) -> ScanView {
        ScanView {
            plan: self.queue@ + self.rest(d.pixels, d.dirty),
            waiting: self.waiting,
            carrying: self.carrying,
            held: self.held,
            ended: self.ended,
            blanks: self.source is Image,
        }
    }

    /// The scan stands at a frame and a row of its source.
    pub closed spec fn wf(&self) -> bool {
        &&& self.source.wf(self.begun, self.frame as int)
        &&& self.row <= Display::HEIGHT
        &&& self.run <= self.row
        &&& !self.begun ==> self.frame == 0 && self.row == 0 && self.run == 0
    }

    /// A scan of the dirty rows with the image in the framebuffer.
    pub(crate) fn image(mode: DrawMode, x_start: u16, x_end: u16) -> (scan: Scan)
        requires
            x_end <= Display::WIDTH,
        ensures
            scan.wf(),
            forall|d: DisplayView| #[trigger]
                scan.state(d) == ScanView::starting(
                    image_frames(d.pixels, d.dirty, mode, x_start as int, x_end as int),
                    true,
                ),
    {
        let lut: Vec<u8> = vec![mode.lut_default(); LUT_SIZE];
        let scan = Scan {
            source: Source::Image { mode, x_start, x_end, lut },
            queue: Queue::new(),
            begun: false,
            frame: 0,
            row: 0,
            run: 0,
            waiting: Waiting::Nothing,
            carrying: false,
            held: None,
            ended: None,
        };
        proof {
            assert forall|d: DisplayView| #[trigger] scan.state(d) == ScanView::starting(
                image_frames(d.pixels, d.dirty, mode, x_start as int, x_end as int),
                true,
            ) by {
                assert(scan.state(d).plan =~= scan.rest(d.pixels, d.dirty));
            }
        }
        scan
    }

    /// A scan of solid passes over a rectangle.
    pub(crate) fn solid(area: Rectangle, time: u16, passes: Vec<Pass>) -> (scan: Scan)
        requires
            drivable(area),
        ensures
            scan.wf(),
            forall|d: DisplayView| #[trigger]
                scan.state(d) == ScanView::starting(solid_frames(area, time, passes@), false),
    {
        let scan = Scan {
            source: Source::Solid { area, time, passes },
            queue: Queue::new(),
            begun: false,
            frame: 0,
            row: 0,
            run: 0,
            waiting: Waiting::Nothing,
            carrying: false,
            held: None,
            ended: None,
        };
        proof {
            assert forall|d: DisplayView| #[trigger] scan.state(d) == ScanView::starting(
                solid_frames(area, time, passes@),
                false,
            ) by {
                assert(scan.state(d).plan =~= scan.rest(d.pixels, d.dirty));
            }
        }
        scan
    }

    /// Moves the actions of one row, or of the end or start of a frame, to the empty queue.
    fn refill(&mut self, display: &Display)
        requires
            old(self).wf(),
            display.wf(),
            old(self).queue@.len() == 0,
            old(self).rest(display@.pixels, display@.dirty).len() > 0,
        ensures
            final(self).wf(),
            final(self).queue@.len() > 0,
            final(self).state(display@) == old(self).state(display@),
    {
        let ghost d = display@;
        let ghost before = *self;
        let ghost frames = self.source.frames(d.pixels, d.dirty);
        let count: usize = self.source.count();
        proof {
            display.lemma_view();
        }
        if !self.begun {
            self.source.enter(0);
            frame_start(&mut self.queue);
            self.begun = true;
            proof {
                assert(frames_from(frames, 0) == frames[0].actions() + frames_from(frames, 1));
                assert(self.state(d).plan =~= before.state(d).plan);
            }
        } else if self.row < Display::HEIGHT {
            let ghost frame = frames[self.frame as int];
            let ghost y = self.row as int;
            let run: u16 = self.run;
            let driven: bool = self.push_row(display);
            self.row = self.row + 1;
            self.run = if driven {
                0
            } else {
                run + 1
            };
            proof {
                assert(frame.actions_from(y, run as int) == frame.row_actions(y, run as int)
                    + frame.actions_from(y + 1, frame.run_after(y, run as int)));
                assert(self.state(d).plan =~= before.state(d).plan);
            }
        } else {
            let ghost frame = frames[self.frame as int];
            self.push_closing(Ghost(d));
            let next: usize = self.frame + 1;
            self.source.enter(next);
            self.frame = next;
            self.row = 0;
            self.run = 0;
            let ghost closed = self.queue@;
            if next < count {
                frame_start(&mut self.queue);
            }
            proof {
                assert(frame.actions_from(before.row as int, before.run as int)
                    == frame.closing_actions(before.run as int));
                if next < count {
                    assert(frames_from(frames, next as int) == frames[next as int].actions()
                        + frames_from(frames, next + 1));
                }
                assert(self.state(d).plan =~= before.state(d).plan);
            }
        }
    }

    /// Puts the actions of the present row in the queue; returns whether the row is driven.
    fn push_row(&mut self, display: &Display) -> (driven: bool)
        requires
            old(self).wf(),
            display.wf(),
            old(self).begun,
            old(self).row < Display::HEIGHT,
            old(self).frame < old(self).source.frames(display@.pixels, display@.dirty).len(),
        ensures
            *final(self) == (Scan { queue: final(self).queue, ..*old(self) }),
            ({
                let frame = old(self).source.frames(display@.pixels, display@.dirty)[old(
                    self,
                ).frame as int];
                &&& final(self).queue@ == old(self).queue@ + frame.row_actions(
                    old(self).row as int,
                    old(self).run as int,
                )
                &&& driven == frame.driven[old(self).row as int]
            }),
    {
        let row: u16 = self.row;
        let ghost before = self.queue@;
        let ghost frame = self.source.frames(display@.pixels, display@.dirty)[self.frame as int];
        match &self.source {
            Source::Image { mode, x_start, x_end, lut } => {
                let time: u16 = mode.contrast_cycles()[self.frame];
                assert(time == mode.row_time(self.frame as int));
                if display.is_tainted(row) {
                    let data: Vec<u8> = image_row_data(
                        display,
                        lut,
                        *mode,
                        self.frame,
                        *x_start,
                        *x_end,
                        row,
                    );
                    set_buffer(&mut self.queue, data);
                    row_write(&mut self.queue, self.run, time);
                    assert(self.queue@ =~= before + frame.row_actions(row as int, self.run as int));
                    true
                } else {
                    row_skip(&mut self.queue, self.run, time);
                    false
                }
            },
            Source::Solid { area, time, passes } => {
                if row == area.y && area.height > 0 {
                    let data: Vec<u8> = solid_row(area.x, area.width, passes[self.frame].color);
                    set_buffer(&mut self.queue, data);
                    row_write(&mut self.queue, self.run, *time);
                    assert(self.queue@ =~= before + frame.row_actions(row as int, self.run as int));
                    true
                } else if row > area.y && row < area.y + area.height {
                    row_write(&mut self.queue, self.run, *time);
                    assert(self.queue@ =~= before + frame.row_actions(row as int, self.run as int));
                    true
                } else {
                    row_skip(&mut self.queue, self.run, *time);
                    false
                }
            },
        }
    }

    /// Puts the end of the present frame in the queue.
    fn push_closing(&mut self, Ghost(d): Ghost<DisplayView>)
        requires
            old(self).wf(),
            old(self).frame < old(self).source.frames(d.pixels, d.dirty).len(),
        ensures
            *final(self) == (Scan { queue: final(self).queue, ..*old(self) }),
            final(self).queue@ == old(self).queue@ + old(self).source.frames(
                d.pixels,
                d.dirty,
            )[old(self).frame as int].closing_actions(old(self).run as int),
    {
        let ghost before = self.queue@;
        let ghost frame = self.source.frames(d.pixels, d.dirty)[self.frame as int];
        match &self.source {
            Source::Image { mode, .. } => {
                let time: u16 = mode.contrast_cycles()[self.frame];
                assert(time == mode.row_time(self.frame as int));
                if self.run == 0 {
                    row_write(&mut self.queue, self.run, time);
                }
                frame_end(&mut self.queue);
            },
            Source::Solid { time, passes, .. } => {
                row_write(&mut self.queue, self.run, *time);
                frame_end(&mut self.queue);
                match passes[self.frame].pause {
                    Some(millis) => {
                        self.queue.push(Action::Do(Op::DelayMillis { millis }));
                    },
                    None => {},
                }
            },
        }
        assert(self.queue@ =~= before + frame.closing_actions(self.run as int));
    }

    /// Takes the reply to the last piece of work and hands out the next one, or the result. See
    /// [`ScanView::next`].
    pub fn step(&mut self, display: &mut Display, reply: Reply) -> (step: Step<
        Vec<u8>,
        Result<(), Error>,
    >)
        requires
            old(self).wf(),
            old(display).wf(),
        ensures
            final(self).wf(),
            final(display).wf(),
            (final(self).state(final(display)@), final(display)@, step@) == old(self).state(
                old(display)@,
            ).next(old(display)@, reply),
    {
        let ghost s = self.state(display@);
        let ghost d = display@;
        match self.ended {
            Some(result) => {
                return Step::Finished(result);
            },
            None => {},
        }
        let error: Option<Error> = match self.waiting {
            Waiting::Nothing | Waiting::SendEnd => None,
            Waiting::Pulse | Waiting::Send => reply.failure(),
            Waiting::PulseEnd => match reply.failure() {
                Some(e) => Some(e),
                None => self.held,
            },
        };
        assert(error == s.failure(reply));
        match error {
            Some(e) => {
                self.ended = Some(Err(e));
                match self.waiting {
                    Waiting::Send => {
                        display.set_linked(true);
                    },
                    _ => {},
                }
                return Step::Finished(Err(e));
            },
            None => {},
        }
        match self.waiting {
            Waiting::SendEnd => {
                self.held = reply.failure();
            },
            Waiting::PulseEnd => {
                if self.carrying {
                    display.set_linked(true);
                    self.carrying = false;
                }
            },
            _ => {},
        }
        self.waiting = Waiting::Nothing;
        let ghost s1 = s.settled(reply);
        let ghost d1 = s.settled_display(d);
        assert(display@ == d1);
        assert(self.state(display@) == s1);
        self.issue(display)
    }

    /// Hands out the first action of the plan, or ends the scan.
    fn issue(&mut self, display: &mut Display) -> (step: Step<Vec<u8>, Result<(), Error>>)
        requires
            old(self).wf(),
            old(display).wf(),
            old(self).state(old(display)@).ended is None,
        ensures
            final(self).wf(),
            final(display).wf(),
            (final(self).state(final(display)@), final(display)@, step@) == old(self).state(
                old(display)@,
            ).issue(old(display)@),
    {
        let ghost s = self.state(display@);
        let ghost d = display@;
        if self.queue.is_empty() && self.unqueued(Ghost(d)) {
            self.refill(display);
        }
        assert(self.state(d) == s);
        match self.queue.pop() {
            None => self.finish(display),
            Some(action) => {
                proof {
                    let rest = self.state(d);
                    assert(seq![action@] + rest.plan =~= s.plan);
                    assert(ScanView { plan: seq![action@] + rest.plan, ..rest } == s);
                }
                self.hand_out(display, action)
            },
        }
    }

    /// Ends a scan that has nothing left to do.
    fn finish(&mut self, display: &mut Display) -> (step: Step<Vec<u8>, Result<(), Error>>)
        requires
            old(self).wf(),
            old(display).wf(),
            old(self).queue@.len() == 0,
            old(self).frame >= old(self).source.frames(old(display)@.pixels, old(display)@.dirty).len(),
        ensures
            final(self).wf(),
            final(display).wf(),
            (final(self).state(final(display)@), final(display)@, step@) == old(self).state(
                old(display)@,
            ).issue(old(display)@),
    {
        let ghost s = self.state(display@);
        let ghost d = display@;
        assert(self.source.frames(d.pixels, d.dirty).len() == self.source.frames(
            d.blank().pixels,
            d.blank().dirty,
        ).len());
        self.ended = Some(Ok(()));
        match &self.source {
            Source::Image { .. } => {
                display.reset();
            },
            Source::Solid { .. } => {},
        }
        assert(s.plan =~= seq![]);
        assert(self.state(display@).plan =~= seq![]);
        Step::Finished(Ok(()))
    }

    /// Whether there are actions that are not in the queue yet.
    fn unqueued(&self, Ghost(d): Ghost<DisplayView>) -> (more: bool)
        requires
            self.wf(),
        ensures
            more == (self.frame < self.source.frames(d.pixels, d.dirty).len()),
            more == (self.rest(d.pixels, d.dirty).len() > 0),
    {
        let count: usize = self.source.count();
        proof {
            let frames = self.source.frames(d.pixels, d.dirty);
            if !self.begun {
                assert(frames.len() > 0 ==> frames_from(frames, 0) == frames[0].actions()
                    + frames_from(frames, 1));
            } else if self.frame < count {
                lemma_frame_goes_on(frames[self.frame as int], self.row as int, self.run as int);
            }
        }
        self.frame < count
    }

    /// Hands out an action.
    fn hand_out(&mut self, display: &mut Display, action: Action<Vec<u8>>) -> (step: Step<
        Vec<u8>,
        Result<(), Error>,
    >)
        requires
            old(self).wf(),
            old(display).wf(),
        ensures
            final(self).wf(),
            final(display).wf(),
            ({
                let s = old(self).state(old(display)@);
                (final(self).state(final(display)@), final(display)@, step@) == (ScanView {
                    plan: seq![action@] + s.plan,
                    ..s
                }).issue(old(display)@)
            }),
    {
        let ghost s = self.state(display@);
        let ghost d = display@;
        let ghost full = ScanView { plan: seq![action@] + s.plan, ..s };
        assert(full.plan[0] == action@);
        assert(full.plan.drop_first() =~= s.plan);
        match action {
            Action::Port { set, clear } => {
                let port: u8 = (display.port() & !clear) | set;
                display.set_port(port);
                self.waiting = Waiting::Nothing;
                Step::Perform(write_register(PCA9555_ADDR, PCA_REG_OUTPUT1, port))
            },
            Action::Do(op) => {
                let takes_link: bool = match &op {
                    Op::Load { .. } | Op::Send => true,
                    _ => false,
                };
                if takes_link && !display.linked() {
                    self.ended = Some(Err(Error::Unknown));
                    return Step::Finished(Err(Error::Unknown));
                }
                match &op {
                    Op::Pulse { .. } => {
                        self.waiting = Waiting::Pulse;
                    },
                    Op::FinishPulse => {
                        self.waiting = Waiting::PulseEnd;
                    },
                    Op::Send => {
                        self.waiting = Waiting::Send;
                        self.carrying = true;
                        display.set_linked(false);
                    },
                    Op::FinishSend => {
                        self.waiting = Waiting::SendEnd;
                    },
                    _ => {
                        self.waiting = Waiting::Nothing;
                    },
                }
                Step::Perform(op)
            },
        }
    }
}

} // verus!
