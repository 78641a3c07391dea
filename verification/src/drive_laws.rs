//! What a scan does to the panel: how often each row is driven, for how long, and with which code
//! in each column.
use vstd::prelude::*;

use crate::bits::lemma_from_slots;
use crate::byte_laws::{law_halves, law_padded};
use crate::display::Rectangle;
use crate::hardware::{Op, Pulse};
use crate::image_laws::{
    actions_until, buffer_in_row, law_driven_rows_sent, law_frame_at_row, law_passed_rows_undriven,
    law_row_codes, law_solid_rows_sent, run_before,
};
use crate::panel::{
    frame_end_actions, frame_start_actions, output_row_actions, padded, set_buffer_actions,
    set_output_enabled_actions, skip_actions, Action,
};
use crate::refresh::clip_end;
use crate::scan::{
    drivable, frames_from, image_frames, image_row, solid_frame, solid_frames, Frame, Pass,
};
use crate::waveform::{halves_swapped, solid_pattern, solid_pixel, DrawMode};

verus! {

/// A pulse that is high for `high` microseconds and then low for `low`.
pub open spec fn high_pulse(high: u16, low: u16, wait: bool) -> Action<Seq<u8>> {
    Action::Do(
        Op::Pulse {
            pulse: Pulse { level1: true, length1: high, level2: false, length2: low },
            wait,
        },
    )
}

/// The actions `row` drive one row of the panel, once: the transfer buffer is sent at place `s` and
/// nowhere else, right after a latch and the start of a pulse of `time` microseconds, the only one
/// in the row, and both are seen through.
pub open spec fn drives_once(row: Seq<Action<Seq<u8>>>, time: u16, s: int) -> bool {
    &&& 3 <= s < row.len() - 2
    &&& row[s - 3] == Action::<Seq<u8>>::Do(Op::Leh { high: true })
    &&& row[s - 2] == Action::<Seq<u8>>::Do(Op::Leh { high: false })
    &&& row[s - 1] == high_pulse(time, 50, false)
    &&& row[s] == Action::<Seq<u8>>::Do(Op::Send)
    &&& row[s + 1] == Action::<Seq<u8>>::Do(Op::FinishSend)
    &&& row[s + 2] == Action::<Seq<u8>>::Do(Op::FinishPulse)
    &&& forall|n: int|
        0 <= n < row.len() && #[trigger] row[n] == Action::<Seq<u8>>::Do(Op::Send) ==> n == s
    &&& forall|n: int|
        0 <= n < row.len() && (#[trigger] row[n] matches Action::Do(Op::Pulse { .. })) ==> n == s - 1
}

/// The code that the panel takes for column `x` from a row: four columns to a byte, the leftmost in
/// bits 7:6.
pub open spec fn column_code(bytes: Seq<u8>, x: int) -> int {
    let byte = bytes[x / 4] as int;
    if x % 4 == 0 {
        byte / 64
    } else if x % 4 == 1 {
        (byte / 16) % 4
    } else if x % 4 == 2 {
        (byte / 4) % 4
    } else {
        byte % 4
    }
}

/// The code for column `x` in a row of a solid pass: the leftmost of four columns in bits 1:0, and
/// the byte of the column two further in its word of four.
pub open spec fn solid_column_code(bytes: Seq<u8>, x: int) -> int {
    let word = x / 16;
    let place = (x / 4) % 4;
    let byte = bytes[4 * word + (if place < 2 {
        place + 2
    } else {
        place - 2
    })] as int;
    if x % 4 == 0 {
        byte % 4
    } else if x % 4 == 1 {
        (byte / 4) % 4
    } else if x % 4 == 2 {
        (byte / 16) % 4
    } else {
        byte / 64
    }
}

/// The code that a pixel of gray level `gray` needs in frame `k`: dark (1) in the first `15 - gray`
/// frames for black on white, light (2) in as many for white on white, and light in the first
/// `gray` frames for white on black; else none.
pub open spec fn shade(mode: DrawMode, k: int, gray: int) -> int {
    match mode {
        DrawMode::BlackOnWhite => if k + gray < 15 {
            1
        } else {
            0
        },
        DrawMode::WhiteOnWhite => if k + gray < 15 {
            2
        } else {
            0
        },
        DrawMode::WhiteOnBlack => if k < gray {
            2
        } else {
            0
        },
    }
}

/// How long the rows of frame `k` are driven, in microseconds.
pub open spec fn drive_time(mode: DrawMode, k: int) -> u16 {
    if mode is WhiteOnBlack {
        seq![10u16, 10, 8, 8, 8, 8, 8, 10, 10, 15, 15, 20, 20, 100, 300][k]
    } else {
        seq![30u16, 30, 20, 20, 30, 30, 30, 40, 40, 50, 50, 50, 100, 200, 300][k]
    }
}

/// The pieces of a row: data for the transfer buffer, a row that is latched and sent under one
/// pulse, a row that is clocked past, and a switch of the outputs only where they are not as
/// wanted.
pub proof fn law_row_pieces(data: Seq<u8>, time: u16, was: bool, enabled: bool)
    ensures
        set_buffer_actions(data) == seq![Action::Do(Op::Load { bytes: padded(data) })],
        time > 0 ==> output_row_actions(time).len() == 6 && drives_once(
            output_row_actions(time),
            time,
            3,
        ),
        output_row_actions(0) == output_row_actions(1).update(
            2,
            Action::Do(
                Op::Pulse {
                    pulse: Pulse { level1: false, length1: 50, level2: false, length2: 0 },
                    wait: false,
                },
            ),
        ),
        skip_actions() == seq![high_pulse(45, 5, true)],
        was == enabled ==> set_output_enabled_actions(was, enabled).len() == 0,
        !was && enabled ==> set_output_enabled_actions(was, enabled) == seq![
            Action::<Seq<u8>>::Port { set: 1, clear: 0 },
        ],
        was && !enabled ==> set_output_enabled_actions(was, enabled) == seq![
            Action::<Seq<u8>>::Port { set: 0, clear: 1 },
        ],
{
    assert(output_row_actions(0) =~= output_row_actions(1).update(
        2,
        Action::Do(
            Op::Pulse {
                pulse: Pulse { level1: false, length1: 50, level2: false, length2: 0 },
                wait: false,
            },
        ),
    ));
}

/// The rectangles that can be cleared: those whose columns lie on the panel, or that have none, and
/// whose rows end within their type, or begin on the last row of the panel or below it.
pub proof fn law_drivable(area: Rectangle)
    ensures
        drivable(area) <==> (area.width == 0 || area.x + area.width <= 960) && (area.y >= 539
            || area.y + area.height <= 65535),
{
}

/// A driven row of any frame is sent exactly once, for the time of its frame, whatever the rows
/// before it. Its data is loaded first where it has its own, and the outputs are switched on
/// exactly if rows were passed over before it.
pub proof fn law_driven_row(frame: Frame, y: int, run: int)
    requires
        frame.driven[y],
        frame.time > 0,
        0 <= run,
    ensures
        ({
            let row = frame.row_actions(y, run);
            let loaded = if frame.loads[y] is Some {
                1int
            } else {
                0
            };
            let switched = if run > 0 {
                1int
            } else {
                0
            };
            &&& row.len() == loaded + switched + 6
            &&& frame.loads[y] is Some ==> row[0] == Action::Do(
                Op::Load { bytes: padded(frame.loads[y]->0) },
            )
            &&& run > 0 ==> row[loaded] == Action::<Seq<u8>>::Port { set: 1, clear: 0 }
            &&& drives_once(row, frame.time, row.len() - 3)
        }),
{
}

/// A row that is passed over is clocked exactly once too. The first of a run sends a buffer of
/// zeros at full time and then switches the outputs off, the second sends it again at 10
/// microseconds, and every further one is a pulse alone.
pub proof fn law_passed_row(frame: Frame, y: int, run: int)
    requires
        !frame.driven[y],
        frame.time > 0,
        0 <= run,
    ensures
        ({
            let row = frame.row_actions(y, run);
            &&& run == 0 ==> {
                &&& row.len() == 8
                &&& row[0] == Action::Do(Op::Load { bytes: Seq::new(248, |i: int| 0u8) })
                &&& drives_once(row, frame.time, 4)
                &&& row[7] == Action::<Seq<u8>>::Port { set: 0, clear: 1 }
            }
            &&& run == 1 ==> row.len() == 6 && drives_once(row, 10, 3)
            &&& run >= 2 ==> row == seq![high_pulse(45, 5, true)]
        }),
{
    let row = frame.row_actions(y, run);
    if run == 0 {
        assert(padded(Seq::new(240, |i: int| 0u8)) =~= Seq::new(248, |i: int| 0u8));
    }
    if run >= 2 {
        assert(row =~= seq![high_pulse(45, 5, true)]);
    }
}

/// The run before a row counts exactly the rows passed over since the last driven one, or since the
/// start of the frame.
pub proof fn law_run(frame: Frame, y: int)
    requires
        0 <= y,
    ensures
        0 <= run_before(frame, y) <= y,
        forall|j: int| y - run_before(frame, y) <= j < y ==> !#[trigger] frame.driven[j],
        run_before(frame, y) < y ==> frame.driven[y - run_before(frame, y) - 1],
    decreases y,
{
    if y > 0 {
        law_run(frame, y - 1);
    }
}

/// A frame begins with the mode line, a low start-vertical line under the row clock, and then the
/// outputs; its 540 rows follow one by one, and its end.
pub proof fn law_frame_shape(frame: Frame)
    ensures
        frame.actions() == actions_until(frame, 540) + frame.closing_actions(
            run_before(frame, 540),
        ),
        actions_until(frame, 0) == seq![
            Action::<Seq<u8>>::Port { set: 2, clear: 0 },
            high_pulse(10, 10, true),
            Action::Do(Op::Stv { high: false }),
            Action::Do(Op::Delay { cycles: 240 }),
            high_pulse(100, 100, false),
            Action::Do(Op::Stv { high: true }),
            Action::Do(Op::FinishPulse),
            Action::Do(
                Op::Pulse {
                    pulse: Pulse { level1: false, length1: 100, level2: false, length2: 0 },
                    wait: true,
                },
            ),
            Action::Port { set: 1, clear: 0 },
            high_pulse(10, 10, true),
        ],
        forall|y: int|
            0 <= y < 540 ==> #[trigger] actions_until(frame, y + 1) == actions_until(frame, y)
                + frame.row_actions(y, run_before(frame, y)),
{
    law_frame_at_row(frame, 540);
    assert(frame.actions_from(540, run_before(frame, 540)) == frame.closing_actions(
        run_before(frame, 540),
    ));
    assert(actions_until(frame, 0) =~= frame_start_actions());
}

/// What ends every frame: outputs and mode line off, and two pulses.
pub open spec fn frame_over() -> Seq<Action<Seq<u8>>> {
    seq![
        Action::<Seq<u8>>::Port { set: 0, clear: 3 },
        high_pulse(10, 10, true),
        high_pulse(10, 10, true),
    ]
}

proof fn lemma_frame_over()
    ensures
        frame_end_actions() == frame_over(),
{
    assert(0x01u8 | 0x02u8 == 3) by (bit_vector);
    assert(frame_end_actions() =~= frame_over());
}

/// An image refresh has fifteen frames. Each ends with one more row if its last row was driven, and
/// at once if that was passed over.
pub proof fn law_image_frame_end(
    pixels: Seq<u8>,
    dirty: Seq<bool>,
    mode: DrawMode,
    x_start: int,
    x_end: int,
    k: int,
    run: int,
)
    requires
        0 <= k < 15,
        0 <= run,
    ensures
        image_frames(pixels, dirty, mode, x_start, x_end).len() == 15,
        ({
            let end = image_frames(pixels, dirty, mode, x_start, x_end)[k].closing_actions(run);
            &&& run > 0 ==> end == frame_over()
            &&& run == 0 ==> {
                &&& end.len() == 9
                &&& drives_once(end.take(6), drive_time(mode, k), 3)
                &&& end.skip(6) == frame_over()
            }
        }),
{
    let end = image_frames(pixels, dirty, mode, x_start, x_end)[k].closing_actions(run);
    lemma_frame_over();
    lemma_drive_time(mode, k);
    if run > 0 {
        assert(end =~= frame_over());
    } else {
        assert(end.skip(6) =~= frame_over());
    }
}

/// Solid passes have a frame each. It ends with one more row, under outputs that are on, and with
/// the pause of its pass.
pub proof fn law_solid_frame_end(area: Rectangle, time: u16, passes: Seq<Pass>, n: int, run: int)
    requires
        0 <= n < passes.len(),
        0 <= run,
        time > 0,
    ensures
        solid_frames(area, time, passes).len() == passes.len(),
        ({
            let end = solid_frames(area, time, passes)[n].closing_actions(run);
            let on = if run > 0 {
                1int
            } else {
                0
            };
            &&& run > 0 ==> end[0] == Action::<Seq<u8>>::Port { set: 1, clear: 0 }
            &&& drives_once(end.take(on + 6), time, on + 3)
            &&& end.skip(on + 6) == frame_over() + match passes[n].pause {
                Some(millis) => seq![Action::<Seq<u8>>::Do(Op::DelayMillis { millis })],
                None => seq![],
            }
        }),
{
    let end = solid_frames(area, time, passes)[n].closing_actions(run);
    let on = if run > 0 {
        1int
    } else {
        0
    };
    lemma_frame_over();
    assert(end.skip(on + 6) =~= frame_over() + match passes[n].pause {
        Some(millis) => seq![Action::<Seq<u8>>::Do(Op::DelayMillis { millis })],
        None => seq![],
    });
}

proof fn lemma_drive_time(mode: DrawMode, k: int)
    requires
        0 <= k < 15,
    ensures
        mode.row_time(k) == drive_time(mode, k),
        drive_time(mode, k) > 0,
{
}

proof fn lemma_dirty_row(
    pixels: Seq<u8>,
    dirty: Seq<bool>,
    mode: DrawMode,
    x_start: int,
    x_end: int,
    k: int,
    y: int,
    buffer: Seq<u8>,
    x: int,
)
    requires
        0 <= k < 15,
        0 <= y < 540,
        0 <= x < 960,
        dirty[y],
        0 <= pixels[960 * y + x] <= 15,
    ensures
        ({
            let frame = image_frames(pixels, dirty, mode, x_start, x_end)[k];
            let row = frame.row_actions(y, run_before(frame, y));
            let s = row.len() - 3;
            let sent = buffer_in_row(frame, buffer, y, s);
            &&& drives_once(row, drive_time(mode, k), s)
            &&& frame.actions()[actions_until(frame, y).len() + s] == Action::<Seq<u8>>::Do(Op::Send)
            &&& sent.len() == 248
            &&& column_code(sent, x) == if x_start <= x < x_end {
                shade(mode, k, pixels[960 * y + x] as int)
            } else {
                0
            }
        }),
{
    let frame = image_frames(pixels, dirty, mode, x_start, x_end)[k];
    let run = run_before(frame, y);
    let row = frame.row_actions(y, run);
    let s = row.len() - 3;
    let data = image_row(pixels, mode, k, x_start, x_end, y);
    lemma_drive_time(mode, k);
    law_run(frame, y);
    law_driven_row(frame, y, run);
    law_driven_rows_sent(frame, y, data);
    lemma_at_row(frame, y, s);
    assert(buffer_in_row(frame, buffer, y, s) == padded(data));
    law_padded(data, x / 4);
    law_row_codes(pixels, mode, k, x_start, x_end, x, y);
}

/// Where an action of a row stands in its frame.
proof fn lemma_at_row(frame: Frame, y: int, n: int)
    requires
        0 <= y < 540,
        0 <= n < frame.row_actions(y, run_before(frame, y)).len(),
    ensures
        frame.actions()[actions_until(frame, y).len() + n] == frame.row_actions(
            y,
            run_before(frame, y),
        )[n],
{
    law_frame_at_row(frame, y);
    let run = run_before(frame, y);
    assert(frame.actions_from(y, run) == frame.row_actions(y, run) + frame.actions_from(
        y + 1,
        frame.run_after(y, run),
    ));
}

/// A flush sends every dirty row exactly once in each of its fifteen frames, for the time of the
/// frame, and with the code in every column that the gray level of its pixel needs, whatever the
/// rows before it and whatever the buffer held.
pub proof fn law_flush(
    pixels: Seq<u8>,
    dirty: Seq<bool>,
    mode: DrawMode,
    k: int,
    y: int,
    buffer: Seq<u8>,
    x: int,
)
    requires
        0 <= k < 15,
        0 <= y < 540,
        0 <= x < 960,
        dirty[y],
        0 <= pixels[960 * y + x] <= 15,
    ensures
        ({
            let frame = image_frames(pixels, dirty, mode, 0, 960)[k];
            let row = frame.row_actions(y, run_before(frame, y));
            let s = row.len() - 3;
            let sent = buffer_in_row(frame, buffer, y, s);
            &&& drives_once(row, drive_time(mode, k), s)
            &&& frame.actions()[actions_until(frame, y).len() + s] == Action::<Seq<u8>>::Do(Op::Send)
            &&& sent.len() == 248
            &&& column_code(sent, x) == shade(mode, k, pixels[960 * y + x] as int)
        }),
{
    lemma_dirty_row(pixels, dirty, mode, 0, 960, k, y, buffer, x);
}

/// A clipped flush does the same, but a column gets the code of its pixel exactly if it lies in the
/// rectangle, and no drive if it lies beside it.
pub proof fn law_flush_clip(
    pixels: Seq<u8>,
    dirty: Seq<bool>,
    mode: DrawMode,
    clip: Rectangle,
    k: int,
    y: int,
    buffer: Seq<u8>,
    x: int,
)
    requires
        0 <= k < 15,
        0 <= y < 540,
        0 <= x < 960,
        dirty[y],
        0 <= pixels[960 * y + x] <= 15,
    ensures
        ({
            let frame = image_frames(pixels, dirty, mode, clip.x as int, clip_end(clip))[k];
            let row = frame.row_actions(y, run_before(frame, y));
            let s = row.len() - 3;
            let sent = buffer_in_row(frame, buffer, y, s);
            &&& drives_once(row, drive_time(mode, k), s)
            &&& frame.actions()[actions_until(frame, y).len() + s] == Action::<Seq<u8>>::Do(Op::Send)
            &&& sent.len() == 248
            &&& column_code(sent, x) == if clip.x <= x < clip.x + clip.width {
                shade(mode, k, pixels[960 * y + x] as int)
            } else {
                0
            }
        }),
{
    lemma_dirty_row(pixels, dirty, mode, clip.x as int, clip_end(clip), k, y, buffer, x);
}

/// A clean row gets no drive in any column, in any frame of a flush, clipped or not: it is passed
/// over, and whatever is sent for it is zero throughout.
pub proof fn law_flush_clean_row(
    pixels: Seq<u8>,
    dirty: Seq<bool>,
    mode: DrawMode,
    x_start: int,
    x_end: int,
    k: int,
    y: int,
    buffer: Seq<u8>,
    n: int,
    x: int,
)
    requires
        0 <= k < 15,
        0 <= y < 540,
        0 <= x < 960,
        !dirty[y],
    ensures
        ({
            let frame = image_frames(pixels, dirty, mode, x_start, x_end)[k];
            let row = frame.row_actions(y, run_before(frame, y));
            &&& !frame.driven[y]
            &&& frame.time == drive_time(mode, k)
            &&& 0 <= n < row.len() && row[n] == Action::<Seq<u8>>::Do(Op::Send) ==> column_code(
                buffer_in_row(frame, buffer, y, n),
                x,
            ) == 0
        }),
{
    let frame = image_frames(pixels, dirty, mode, x_start, x_end)[k];
    lemma_drive_time(mode, k);
    law_passed_rows_undriven(frame, y);
}

proof fn lemma_solid_column(area: Rectangle, color: u16, x: int)
    requires
        0 <= x < 960,
    ensures
        ({
            let pattern = solid_pattern(area.x as int, area.width as int, color as int);
            let sent = padded(halves_swapped(pattern));
            &&& sent.len() == 248
            &&& solid_column_code(sent, x) == if area.x <= x < area.x + area.width {
                if color == 1 {
                    2int
                } else {
                    1
                }
            } else {
                0
            }
        }),
{
    let pattern = solid_pattern(area.x as int, area.width as int, color as int);
    let data = halves_swapped(pattern);
    let q = x / 4;
    let place = q % 4;
    let other = 4 * (x / 16) + (if place < 2 {
        place + 2
    } else {
        place - 2
    });
    assert(q / 4 == x / 16);
    law_padded(data, other);
    law_halves(pattern, x / 16);
    assert(data[other] == pattern[q]);
    lemma_from_slots(
        solid_pixel(area.x as int, area.width as int, color as int, 4 * q),
        solid_pixel(area.x as int, area.width as int, color as int, 4 * q + 1),
        solid_pixel(area.x as int, area.width as int, color as int, 4 * q + 2),
        solid_pixel(area.x as int, area.width as int, color as int, 4 * q + 3),
    );
}

/// A solid pass sends every row of its rectangle exactly once, and drives a column exactly if it
/// lies in the rectangle: light (2) for colour 1, else dark (1). Every other row is passed over.
pub proof fn law_solid_pass(
    area: Rectangle,
    time: u16,
    passes: Seq<Pass>,
    n: int,
    y: int,
    buffer: Seq<u8>,
    x: int,
)
    requires
        0 <= n < passes.len(),
        0 <= y < 540,
        0 <= x < 960,
        time > 0,
    ensures
        ({
            let frame = solid_frames(area, time, passes)[n];
            let row = frame.row_actions(y, run_before(frame, y));
            let s = row.len() - 3;
            let sent = buffer_in_row(frame, buffer, y, s);
            &&& frame.time == time
            &&& frame.driven[y] <==> area.y <= y < area.y + area.height
            &&& area.y <= y < area.y + area.height ==> {
                &&& drives_once(row, time, s)
                &&& frame.actions()[actions_until(frame, y).len() + s] == Action::<Seq<u8>>::Do(
                    Op::Send,
                )
                &&& sent.len() == 248
                &&& solid_column_code(sent, x) == if area.x <= x < area.x + area.width {
                    if passes[n].color == 1 {
                        2int
                    } else {
                        1
                    }
                } else {
                    0
                }
            }
        }),
{
    let frame = solid_frames(area, time, passes)[n];
    let pass = passes[n];
    assert(frame == solid_frame(area, time, pass));
    if area.y <= y < area.y + area.height {
        let run = run_before(frame, y);
        let row = frame.row_actions(y, run);
        let s = row.len() - 3;
        let pattern = solid_pattern(area.x as int, area.width as int, pass.color as int);
        let data = halves_swapped(pattern);
        law_run(frame, y);
        law_driven_row(frame, y, run);
        law_solid_rows_sent(area, time, pass, y);
        lemma_at_row(frame, y, s);
        assert(buffer_in_row(frame, buffer, y, s) == padded(data));
        lemma_solid_column(area, pass.color, x);
    }
}

/// A plan is its frames one after the other: one more frame adds its actions at the end.
pub proof fn law_plan_grows(frames: Seq<Frame>, frame: Frame)
    ensures
        frames_from(seq![], 0) == Seq::<Action<Seq<u8>>>::empty(),
        frames_from(frames.push(frame), 0) == frames_from(frames, 0) + frame.actions(),
{
    lemma_plan_grows(frames, frame, 0);
}

proof fn lemma_plan_grows(frames: Seq<Frame>, frame: Frame, n: int)
    requires
        0 <= n <= frames.len(),
    ensures
        frames_from(frames.push(frame), n) == frames_from(frames, n) + frame.actions(),
    decreases frames.len() - n,
{
    let more = frames.push(frame);
    if n < frames.len() {
        lemma_plan_grows(frames, frame, n + 1);
        assert(frames_from(more, n) =~= frames_from(frames, n) + frame.actions());
    } else {
        assert(frames_from(more, n + 1) =~= seq![]);
        assert(frames_from(frames, n) =~= seq![]);
        assert(frames_from(more, n) =~= frames_from(frames, n) + frame.actions());
    }
}

} // verus!
