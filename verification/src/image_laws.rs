//! What holds of the frames of a scan: which pixels they drive, and what they do to the outputs of
//! the panel.
use vstd::prelude::*;

use crate::bits::{lemma_from_slots, slot};
use crate::display::{Display, DisplayView, Rectangle};
use crate::hardware::Op;
use crate::laws::{buffer_before, port_before};
use crate::panel::{
    frame_end_actions, frame_start_actions, output_row_actions, padded, set_buffer_actions,
    set_output_enabled_actions, Action, DMA_BUFFER_SIZE, PCA_MODE, PCA_OE,
};
use crate::refresh::clear_passes;
use crate::scan::{
    frames_from, image_code, image_frame, image_frames, image_row, row_skip_actions,
    row_write_actions, solid_frame, Frame, Pass,
};
use crate::waveform::{
    halves_swapped, solid_pattern, DrawMode, BYTES_PER_LINE, DRAW_IMAGE_FRAME_COUNT,
};

verus! {

/// A refresh to black on white, or white on white, drives a pixel of gray level `gray` in the
/// first `15 - gray` frames, so the darker the longer, and white not at all. One to white on black
/// drives it in the first `gray` frames, so the lighter the longer, and black not at all.
pub proof fn law_gray_levels(mode: DrawMode, frame: int, gray: int)
    requires
        0 <= frame < DRAW_IMAGE_FRAME_COUNT,
        0 <= gray <= 15,
    ensures
        mode.code(frame, gray) == if frame < if mode is WhiteOnBlack {
            gray
        } else {
            15 - gray
        } {
            mode.drive()
        } else {
            0
        },
{
}

/// Any two gray levels are driven differently in some frame, so there are sixteen shades.
pub proof fn law_shades(mode: DrawMode, darker: int, lighter: int)
    requires
        0 <= darker < lighter <= 15,
    ensures
        exists|frame: int|
            0 <= frame < DRAW_IMAGE_FRAME_COUNT && #[trigger] mode.code(frame, darker)
                != mode.code(frame, lighter),
{
    let frame = if mode is WhiteOnBlack {
        darker
    } else {
        15 - lighter
    };
    assert(mode.code(frame, darker) != mode.code(frame, lighter));
}

/// The two passes that render an image over whatever the panel shows: a white framebuffer, flushed
/// white on black, drives every pixel light in all frames; then, black on white, a black pixel is
/// driven dark in all frames and a white one never.
pub proof fn law_two_passes(frame: int)
    requires
        0 <= frame < DRAW_IMAGE_FRAME_COUNT,
    ensures
        DrawMode::WhiteOnBlack.code(frame, 15) == 2,
        DrawMode::BlackOnWhite.code(frame, 0) == 1,
        DrawMode::BlackOnWhite.code(frame, 15) == 0,
{
}

/// An image refresh takes its fifteen frames whatever is dirty, and each of them drives exactly the
/// dirty rows, each with its own data.
pub proof fn law_dirty_rows(
    pixels: Seq<u8>,
    dirty: Seq<bool>,
    mode: DrawMode,
    x_start: int,
    x_end: int,
    frame: int,
    y: int,
    run: int,
)
    requires
        0 <= frame < DRAW_IMAGE_FRAME_COUNT,
        0 <= y < Display::HEIGHT,
    ensures
        ({
            let frames = image_frames(pixels, dirty, mode, x_start, x_end);
            let row = image_row(pixels, mode, frame, x_start, x_end, y);
            &&& frames.len() == 15
            &&& frames[frame].driven[y] == dirty[y]
            &&& dirty[y] ==> frames[frame].row_actions(y, run) == set_buffer_actions(row)
                + row_write_actions(run, mode.row_time(frame))
        }),
{
}

/// In the data of a row, the code of column `x` stands in byte `x / 4`, the leftmost of four
/// columns in bits 7:6. It is that of the pixel's gray level within the clip, and no drive outside.
pub proof fn law_row_codes(
    pixels: Seq<u8>,
    mode: DrawMode,
    frame: int,
    x_start: int,
    x_end: int,
    x: int,
    y: int,
)
    requires
        0 <= x < Display::WIDTH,
    ensures
        slot(image_row(pixels, mode, frame, x_start, x_end, y)[x / 4], 3 - x % 4) == if x_start <= x
            < x_end {
            mode.code(frame, pixels[y * Display::WIDTH + x] as int)
        } else {
            0
        },
{
    let b = x / 4;
    lemma_from_slots(
        image_code(pixels, mode, frame, x_start, x_end, 4 * b + 3, y),
        image_code(pixels, mode, frame, x_start, x_end, 4 * b + 2, y),
        image_code(pixels, mode, frame, x_start, x_end, 4 * b + 1, y),
        image_code(pixels, mode, frame, x_start, x_end, 4 * b, y),
    );
}

/// Where a row is clean, an image refresh puts nothing but zeros, which drive no pixel, in the
/// transfer buffer, and from the third clean row on it sends nothing at all.
pub proof fn law_clean_rows(
    pixels: Seq<u8>,
    dirty: Seq<bool>,
    mode: DrawMode,
    x_start: int,
    x_end: int,
    frame: int,
    y: int,
    run: int,
)
    requires
        0 <= y < Display::HEIGHT,
        !dirty[y],
        0 <= run,
    ensures
        ({
            let row = image_frame(pixels, dirty, mode, x_start, x_end, frame).row_actions(y, run);
            &&& forall|n: int, bytes: Seq<u8>, i: int|
                0 <= n < row.len() && #[trigger] row[n] == Action::Do(Op::Load { bytes }) && 0 <= i
                    < bytes.len() ==> #[trigger] bytes[i] == 0
            &&& run > 1 ==> forall|n: int|
                0 <= n < row.len() ==> #[trigger] row[n] != Action::<Seq<u8>>::Do(Op::Send)
        }),
{
}

/// Each cycle of a clear drives as many passes to one side as to the other, so that no charge is
/// left on the panel.
pub proof fn law_clear_balanced(cycles: int, cycle: int, n: int)
    requires
        0 <= cycle < cycles,
        0 <= n < 4,
    ensures
        clear_passes(cycles).len() == 8 * cycles,
        clear_passes(cycles)[8 * cycle + n] == (Pass { color: 0, pause: None }),
        clear_passes(cycles)[8 * cycle + 4 + n] == (Pass { color: 1, pause: None }),
{
}

/// A solid pass over the whole width drives every pixel of its rows with one code.
pub proof fn law_solid_row(color: u16, b: int)
    requires
        0 <= b < BYTES_PER_LINE,
    ensures
        halves_swapped(solid_pattern(0, Display::WIDTH as int, color as int))[b] == if color == 1 {
            0xAAu8
        } else {
            0x55u8
        },
{
}

/// A solid pass drives exactly the rows of its rectangle.
pub proof fn law_solid_rows(area: Rectangle, time: u16, pass: Pass, y: int)
    requires
        0 <= y < Display::HEIGHT,
    ensures
        solid_frame(area, time, pass).driven[y] <==> area.y <= y < area.y + area.height,
{
}

/// What was drawn is there, and nothing else has changed.
pub proof fn law_pixel_drawn(d: DisplayView, x: int, y: int, color: u8, other_x: int, other_y: int)
    requires
        d.pixels.len() == Display::WIDTH * Display::HEIGHT,
        0 <= x < Display::WIDTH,
        0 <= y < Display::HEIGHT,
        0 <= other_x < Display::WIDTH,
        0 <= other_y < Display::HEIGHT,
    ensures
        ({
            let drawn = DisplayView { pixels: d.pixels.update(y * Display::WIDTH + x, color), ..d };
            drawn.pixel(other_x, other_y) == if (other_x, other_y) == (x, y) {
                color
            } else {
                d.pixel(other_x, other_y)
            }
        }),
{
    assert(other_y * Display::WIDTH + other_x == y * Display::WIDTH + x <==> (other_x, other_y) == (
        x,
        y,
    ));
}

proof fn lemma_port_prefix(
    a: Seq<Action<Seq<u8>>>,
    b: Seq<Action<Seq<u8>>>,
    port: u8,
    n: int,
)
    requires
        0 <= n <= a.len(),
    ensures
        port_before(a + b, port, n) == port_before(a, port, n),
    decreases n,
{
    if n > 0 {
        lemma_port_prefix(a, b, port, n - 1);
    }
}

/// The control port after all of `plan`.
pub open spec fn port_after_all(plan: Seq<Action<Seq<u8>>>, port: u8) -> u8 {
    port_before(plan, port, plan.len() as int)
}

proof fn lemma_port_concat(a: Seq<Action<Seq<u8>>>, b: Seq<Action<Seq<u8>>>, port: u8, m: int)
    requires
        0 <= m <= b.len(),
    ensures
        port_before(a + b, port, a.len() + m) == port_before(b, port_after_all(a, port), m),
    decreases m,
{
    if m > 0 {
        lemma_port_concat(a, b, port, m - 1);
        assert((a + b)[a.len() + m - 1] == b[m - 1]);
    } else {
        lemma_port_prefix(a, b, port, a.len() as int);
    }
}

proof fn lemma_port_all(a: Seq<Action<Seq<u8>>>, b: Seq<Action<Seq<u8>>>, port: u8)
    ensures
        port_after_all(a + b, port) == port_after_all(b, port_after_all(a, port)),
{
    lemma_port_concat(a, b, port, b.len() as int);
}

/// A plan that does not touch the control port.
proof fn lemma_port_kept(plan: Seq<Action<Seq<u8>>>, port: u8, n: int)
    requires
        0 <= n <= plan.len(),
        forall|i: int| 0 <= i < plan.len() ==> (#[trigger] plan[i]) is Do,
    ensures
        port_before(plan, port, n) == port,
    decreases n,
{
    if n > 0 {
        lemma_port_kept(plan, port, n - 1);
    }
}

/// The control port with the outputs of the panel switched on or off.
pub open spec fn with_outputs(port: u8, on: bool) -> u8 {
    if on {
        port | PCA_OE
    } else {
        port & !PCA_OE
    }
}

/// The outputs of the panel follow the rows: after each row, the control port differs from what it
/// was at most in the output bit, which is on exactly if the row was driven. While the data of a
/// driven row is sent, the outputs are on.
pub proof fn law_row_outputs(frame: Frame, y: int, run: int, port: u8)
    requires
        0 <= run,
        port == with_outputs(port, run == 0),
    ensures
        port_after_all(frame.row_actions(y, run), port) == with_outputs(
            port,
            frame.run_after(y, run) == 0,
        ),
        frame.driven[y] ==> forall|n: int|
            0 <= n < frame.row_actions(y, run).len() && #[trigger] frame.row_actions(y, run)[n]
                == Action::<Seq<u8>>::Do(Op::Send) ==> port_before(
                frame.row_actions(y, run),
                port,
                n,
            ) == port | PCA_OE,
{
    let zeros = Seq::new(BYTES_PER_LINE as nat, |i: int| 0u8);
    assert((port | PCA_OE) | PCA_OE == port | PCA_OE && (port & !PCA_OE) & !PCA_OE == port
        & !PCA_OE && (port & !PCA_OE) | 0u8 == port & !PCA_OE) by (bit_vector);
    lemma_row_write_port(frame, run, port);
    if frame.driven[y] {
        lemma_sent_with_outputs(frame, y, run, port);
        match frame.loads[y] {
            Some(data) => {
                lemma_port_kept(set_buffer_actions(data), port, 1);
                lemma_port_all(
                    set_buffer_actions(data),
                    row_write_actions(run, frame.time),
                    port,
                );
            },
            None => {
                assert(seq![] + row_write_actions(run, frame.time) =~= row_write_actions(
                    run,
                    frame.time,
                ));
            },
        }
    } else if run == 0 {
        let sent = set_buffer_actions(zeros) + output_row_actions(frame.time);
        lemma_port_kept(sent, port, sent.len() as int);
        lemma_port_all(sent, set_output_enabled_actions(true, false), port);
        reveal_with_fuel(port_before, 2);
    } else {
        let row = row_skip_actions(run, frame.time);
        lemma_port_kept(row, port, row.len() as int);
    }
}

proof fn lemma_sent_with_outputs(frame: Frame, y: int, run: int, port: u8)
    requires
        frame.driven[y],
        0 <= run,
        port == with_outputs(port, run == 0),
    ensures
        forall|n: int|
            0 <= n < frame.row_actions(y, run).len() && #[trigger] frame.row_actions(y, run)[n]
                == Action::<Seq<u8>>::Do(Op::Send) ==> port_before(
                frame.row_actions(y, run),
                port,
                n,
            ) == port | PCA_OE,
{
    let load: Seq<Action<Seq<u8>>> = match frame.loads[y] {
        Some(data) => set_buffer_actions(data),
        None => seq![],
    };
    let enable = set_output_enabled_actions(run == 0, true);
    let row = output_row_actions(frame.time);
    let all = frame.row_actions(y, run);
    assert(all =~= (load + enable) + row);
    assert(port & !0u8 == port) by (bit_vector);
    reveal_with_fuel(port_before, 2);
    lemma_port_kept(load, port, load.len() as int);
    lemma_port_all(load, enable, port);
    assert forall|n: int|
        0 <= n < all.len() && #[trigger] all[n] == Action::<Seq<u8>>::Do(
            Op::Send,
        ) implies port_before(all, port, n) == port | PCA_OE by {
        let m = n - (load + enable).len();
        assert(m >= 0);
        lemma_port_concat(load + enable, row, port, m);
        lemma_port_kept(row, port | PCA_OE, m);
    }
}

proof fn lemma_row_write_port(frame: Frame, run: int, port: u8)
    ensures
        port_after_all(row_write_actions(run, frame.time), port) == if run == 0 {
            port
        } else {
            port | PCA_OE
        },
{
    let enable = set_output_enabled_actions(run == 0, true);
    let row = output_row_actions(frame.time);
    assert(port & !0u8 == port) by (bit_vector);
    reveal_with_fuel(port_before, 2);
    lemma_port_all(enable, row, port);
    lemma_port_kept(row, port_after_all(enable, port), row.len() as int);
}

/// The bits of the control port that a frame does not use.
pub open spec fn power_bits(port: u8) -> u8 {
    port & !(PCA_OE | PCA_MODE)
}

proof fn lemma_from_port(frame: Frame, y: int, run: int, port: u8)
    requires
        0 <= run,
        port == with_outputs(port, run == 0),
    ensures
        port_after_all(frame.actions_from(y, run), port) == power_bits(port),
    decreases Display::HEIGHT - y,
{
    if y < Display::HEIGHT {
        let row = frame.row_actions(y, run);
        let next = frame.run_after(y, run);
        let after = port_after_all(row, port);
        law_row_outputs(frame, y, run, port);
        assert((port | PCA_OE) | PCA_OE == port | PCA_OE && (port & !PCA_OE) & !PCA_OE == port
            & !PCA_OE) by (bit_vector);
        assert((port | PCA_OE) & !(PCA_OE | PCA_MODE) == port & !(PCA_OE | PCA_MODE) && (port
            & !PCA_OE) & !(PCA_OE | PCA_MODE) == port & !(PCA_OE | PCA_MODE)) by (bit_vector);
        lemma_from_port(frame, y + 1, next, after);
        lemma_port_all(row, frame.actions_from(y + 1, next), port);
    } else {
        let last: Seq<Action<Seq<u8>>> = if frame.closes || run == 0 {
            row_write_actions(run, frame.time)
        } else {
            seq![]
        };
        let pause: Seq<Action<Seq<u8>>> = match frame.pause {
            Some(millis) => seq![Action::Do(Op::DelayMillis { millis })],
            None => seq![],
        };
        lemma_row_write_port(frame, run, port);
        let driven = port_after_all(last, port);
        assert((port | PCA_OE) & !(PCA_OE | PCA_MODE) == port & !(PCA_OE | PCA_MODE)) by (
        bit_vector);
        assert((driven & !(PCA_OE | PCA_MODE)) | 0u8 == driven & !(PCA_OE | PCA_MODE)) by (
        bit_vector);
        reveal_with_fuel(port_before, 4);
        lemma_port_all(last, frame_end_actions(), port);
        lemma_port_all(last + frame_end_actions(), pause, port);
    }
}

/// A frame switches the outputs and the mode line of the panel off in the end and leaves the bits
/// of the supply alone.
pub proof fn law_frame_port(frame: Frame, port: u8)
    ensures
        port_after_all(frame.actions(), port) == power_bits(port),
{
    let begun = port_after_all(frame_start_actions(), port);
    assert(port & !0u8 == port && (port | PCA_MODE) & !0u8 == port | PCA_MODE) by (bit_vector);
    reveal_with_fuel(port_before, 11);
    assert(begun == (port | PCA_MODE) | PCA_OE);
    assert(begun | PCA_OE == begun && begun & !(PCA_OE | PCA_MODE) == port & !(PCA_OE | PCA_MODE))
        by (bit_vector)
        requires
            begun == (port | PCA_MODE) | PCA_OE,
    ;
    lemma_from_port(frame, 0, 0, begun);
    lemma_port_all(frame_start_actions(), frame.actions_from(0, 0), port);
}

/// So does a scan of at least one frame.
pub proof fn law_scan_port(frames: Seq<Frame>, n: int, port: u8)
    requires
        0 <= n <= frames.len(),
    ensures
        port_after_all(frames_from(frames, n), port) == if n < frames.len() {
            power_bits(port)
        } else {
            port
        },
    decreases frames.len() - n,
{
    if n < frames.len() {
        law_frame_port(frames[n], port);
        law_scan_port(frames, n + 1, power_bits(port));
        lemma_port_all(frames[n].actions(), frames_from(frames, n + 1), port);
        assert((port & !(PCA_OE | PCA_MODE)) & !(PCA_OE | PCA_MODE) == port & !(PCA_OE | PCA_MODE))
            by (bit_vector);
    }
}

/// The run of rows passed over before row `y` of a frame.
pub open spec fn run_before(frame: Frame, y: int) -> int
    decreases y,
{
    if y <= 0 {
        0
    } else {
        frame.run_after(y - 1, run_before(frame, y - 1))
    }
}

/// The actions of a frame up to row `y`.
pub open spec fn actions_until(frame: Frame, y: int) -> Seq<Action<Seq<u8>>>
    decreases y,
{
    if y <= 0 {
        frame_start_actions()
    } else {
        actions_until(frame, y - 1) + frame.row_actions(y - 1, run_before(frame, y - 1))
    }
}

/// A full transfer buffer of zeros, which drives no pixel.
pub open spec fn no_drive() -> Seq<u8> {
    Seq::new(DMA_BUFFER_SIZE as nat, |i: int| 0u8)
}

/// What the transfer buffer holds before action `n` of row `y` of a frame, where it held `buffer`
/// before the frame.
pub open spec fn buffer_in_row(frame: Frame, buffer: Seq<u8>, y: int, n: int) -> Seq<u8> {
    buffer_before(frame.actions(), buffer, actions_until(frame, y).len() + n)
}

/// Whether row `y` of a frame sends nothing but `data`, whatever the buffer held before the frame.
pub open spec fn row_sends(frame: Frame, y: int, data: Seq<u8>) -> bool {
    forall|buffer: Seq<u8>, n: int|
        0 <= n < frame.row_actions(y, run_before(frame, y)).len() && frame.row_actions(
            y,
            run_before(frame, y),
        )[n] == Action::<Seq<u8>>::Do(Op::Send) ==> #[trigger] buffer_in_row(frame, buffer, y, n)
            == data
}

proof fn lemma_buffer_prefix(
    a: Seq<Action<Seq<u8>>>,
    b: Seq<Action<Seq<u8>>>,
    buffer: Seq<u8>,
    n: int,
)
    requires
        0 <= n <= a.len(),
    ensures
        buffer_before(a + b, buffer, n) == buffer_before(a, buffer, n),
    decreases n,
{
    if n > 0 {
        lemma_buffer_prefix(a, b, buffer, n - 1);
    }
}

proof fn lemma_buffer_concat(
    a: Seq<Action<Seq<u8>>>,
    b: Seq<Action<Seq<u8>>>,
    buffer: Seq<u8>,
    m: int,
)
    requires
        0 <= m <= b.len(),
    ensures
        buffer_before(a + b, buffer, a.len() + m) == buffer_before(
            b,
            buffer_before(a, buffer, a.len() as int),
            m,
        ),
    decreases m,
{
    if m > 0 {
        lemma_buffer_concat(a, b, buffer, m - 1);
        assert((a + b)[a.len() + m - 1] == b[m - 1]);
    } else {
        lemma_buffer_prefix(a, b, buffer, a.len() as int);
    }
}

/// Without a load the buffer is kept.
proof fn lemma_buffer_kept(plan: Seq<Action<Seq<u8>>>, buffer: Seq<u8>, n: int)
    requires
        0 <= n <= plan.len(),
        forall|i: int|
            0 <= i < plan.len() ==> !(#[trigger] plan[i] matches Action::Do(Op::Load { .. })),
    ensures
        buffer_before(plan, buffer, n) == buffer,
    decreases n,
{
    if n > 0 {
        lemma_buffer_kept(plan, buffer, n - 1);
    }
}

/// A frame is what comes before a row, the row, and the rest: the actions of row `y` start where
/// [`actions_until`] ends.
pub proof fn law_frame_at_row(frame: Frame, y: int)
    requires
        0 <= y <= Display::HEIGHT,
    ensures
        frame.actions() == actions_until(frame, y) + frame.actions_from(y, run_before(frame, y)),
    decreases y,
{
    if y > 0 {
        law_frame_at_row(frame, y - 1);
        let run = run_before(frame, y - 1);
        assert(frame.actions_from(y - 1, run) == frame.row_actions(y - 1, run) + frame.actions_from(
            y,
            run_before(frame, y),
        ));
        assert(frame.actions() =~= actions_until(frame, y) + frame.actions_from(
            y,
            run_before(frame, y),
        ));
    }
}

/// Within a row, the buffer is what the row makes of what it held before the row.
proof fn lemma_buffer_in_row(frame: Frame, buffer: Seq<u8>, y: int, n: int)
    requires
        0 <= y < Display::HEIGHT,
        0 <= n <= frame.row_actions(y, run_before(frame, y)).len(),
    ensures
        buffer_in_row(frame, buffer, y, n) == buffer_before(
            frame.row_actions(y, run_before(frame, y)),
            buffer_in_row(frame, buffer, y, 0),
            n,
        ),
        n == frame.row_actions(y, run_before(frame, y)).len() ==> buffer_in_row(
            frame,
            buffer,
            y,
            n,
        ) == buffer_in_row(frame, buffer, y + 1, 0),
{
    let run = run_before(frame, y);
    let row = frame.row_actions(y, run);
    let until = actions_until(frame, y);
    let rest = frame.actions_from(y, run);
    let held = buffer_before(until, buffer, until.len() as int);
    law_frame_at_row(frame, y);
    assert(rest == row + frame.actions_from(y + 1, frame.run_after(y, run)));
    lemma_buffer_concat(until, rest, buffer, n);
    lemma_buffer_concat(until, rest, buffer, 0);
    lemma_buffer_prefix(row, frame.actions_from(y + 1, frame.run_after(y, run)), held, n);
}

/// What a row with a load sends, and leaves in the buffer.
proof fn lemma_loaded_row(row: Seq<Action<Seq<u8>>>, bytes: Seq<u8>, buffer: Seq<u8>, n: int)
    requires
        0 < n <= row.len(),
        row[0] == Action::Do(Op::Load { bytes }),
        forall|i: int|
            0 < i < row.len() ==> !(#[trigger] row[i] matches Action::Do(Op::Load { .. })),
    ensures
        buffer_before(row, buffer, n) == bytes,
    decreases n,
{
    if n > 1 {
        lemma_loaded_row(row, bytes, buffer, n - 1);
    }
}

/// After a row that was passed over, the buffer holds zeros.
proof fn lemma_zeros_held(frame: Frame, buffer: Seq<u8>, y: int)
    requires
        0 <= y <= Display::HEIGHT,
    ensures
        run_before(frame, y) >= 0,
        run_before(frame, y) > 0 ==> buffer_in_row(frame, buffer, y, 0) == no_drive(),
    decreases y,
{
    if y > 0 {
        lemma_zeros_held(frame, buffer, y - 1);
        let run = run_before(frame, y - 1);
        let row = frame.row_actions(y - 1, run);
        lemma_buffer_in_row(frame, buffer, y - 1, row.len() as int);
        if !frame.driven[y - 1] {
            lemma_zeros_sent(frame, buffer, y - 1, row.len() as int);
        }
    }
}

proof fn lemma_zeros_sent(frame: Frame, buffer: Seq<u8>, y: int, n: int)
    requires
        0 <= y < Display::HEIGHT,
        !frame.driven[y],
        run_before(frame, y) >= 0,
        run_before(frame, y) > 0 ==> buffer_in_row(frame, buffer, y, 0) == no_drive(),
        0 < n <= frame.row_actions(y, run_before(frame, y)).len(),
    ensures
        buffer_in_row(frame, buffer, y, n) == no_drive(),
{
    let run = run_before(frame, y);
    let row = frame.row_actions(y, run);
    let held = buffer_in_row(frame, buffer, y, 0);
    lemma_buffer_in_row(frame, buffer, y, n);
    if run == 0 {
        let zeros = Seq::new(BYTES_PER_LINE as nat, |i: int| 0u8);
        assert(padded(zeros) =~= no_drive());
        lemma_loaded_row(row, no_drive(), held, n);
    } else {
        lemma_buffer_kept(row, held, n);
    }
}

/// Whatever the buffer held before the frame, a row that is passed over is only ever sent zeros,
/// which drive no pixel: the first of a run loads them, the second sends them again, and the rest
/// send nothing.
pub proof fn law_passed_rows_undriven(frame: Frame, y: int)
    requires
        0 <= y < Display::HEIGHT,
        !frame.driven[y],
    ensures
        row_sends(frame, y, no_drive()),
{
    let run = run_before(frame, y);
    let row = frame.row_actions(y, run);
    assert forall|buffer: Seq<u8>, n: int|
        0 <= n < row.len() && row[n] == Action::<Seq<u8>>::Do(
            Op::Send,
        ) implies #[trigger] buffer_in_row(frame, buffer, y, n) == no_drive() by {
        lemma_zeros_held(frame, buffer, y);
        assert(run != 0 || row[0] == set_buffer_actions(
            Seq::new(BYTES_PER_LINE as nat, |i: int| 0u8),
        )[0]);
        if n > 0 {
            lemma_zeros_sent(frame, buffer, y, n);
        }
    }
}

/// A driven row with data of its own is sent that data.
pub proof fn law_driven_rows_sent(frame: Frame, y: int, data: Seq<u8>)
    requires
        0 <= y < Display::HEIGHT,
        frame.driven[y],
        frame.loads[y] == Some(data),
    ensures
        row_sends(frame, y, padded(data)),
{
    let row = frame.row_actions(y, run_before(frame, y));
    assert(row[0] == set_buffer_actions(data)[0]);
    assert forall|buffer: Seq<u8>, n: int|
        0 <= n < row.len() && row[n] == Action::<Seq<u8>>::Do(
            Op::Send,
        ) implies #[trigger] buffer_in_row(frame, buffer, y, n) == padded(data) by {
        lemma_buffer_in_row(frame, buffer, y, n);
        lemma_loaded_row(row, padded(data), buffer_in_row(frame, buffer, y, 0), n);
    }
}

/// Every row of the rectangle of a solid pass holds its data after it.
proof fn lemma_solid_held(area: Rectangle, time: u16, pass: Pass, buffer: Seq<u8>, y: int, n: int)
    requires
        0 <= y < Display::HEIGHT,
        area.y <= y < area.y + area.height,
        0 < n <= solid_frame(area, time, pass).row_actions(
            y,
            run_before(solid_frame(area, time, pass), y),
        ).len(),
    ensures
        buffer_in_row(solid_frame(area, time, pass), buffer, y, n) == padded(
            halves_swapped(solid_pattern(area.x as int, area.width as int, pass.color as int)),
        ),
    decreases y,
{
    let frame = solid_frame(area, time, pass);
    let data = halves_swapped(
        solid_pattern(area.x as int, area.width as int, pass.color as int),
    );
    let row = frame.row_actions(y, run_before(frame, y));
    let held = buffer_in_row(frame, buffer, y, 0);
    lemma_buffer_in_row(frame, buffer, y, n);
    if y == area.y {
        lemma_loaded_row(row, padded(data), held, n);
    } else {
        let last = frame.row_actions(y - 1, run_before(frame, y - 1));
        lemma_solid_held(area, time, pass, buffer, y - 1, last.len() as int);
        lemma_buffer_in_row(frame, buffer, y - 1, last.len() as int);
        lemma_buffer_kept(row, held, n);
    }
}

/// A solid pass sends every row of its rectangle the same data, and every other row zeros.
pub proof fn law_solid_rows_sent(area: Rectangle, time: u16, pass: Pass, y: int)
    requires
        0 <= y < Display::HEIGHT,
    ensures
        row_sends(
            solid_frame(area, time, pass),
            y,
            if area.y <= y < area.y + area.height {
                padded(
                    halves_swapped(
                        solid_pattern(area.x as int, area.width as int, pass.color as int),
                    ),
                )
            } else {
                no_drive()
            },
        ),
{
    let frame = solid_frame(area, time, pass);
    let row = frame.row_actions(y, run_before(frame, y));
    if area.y <= y < area.y + area.height {
        let data = halves_swapped(
            solid_pattern(area.x as int, area.width as int, pass.color as int),
        );
        assert forall|buffer: Seq<u8>, n: int|
            0 <= n < row.len() && row[n] == Action::<Seq<u8>>::Do(
                Op::Send,
            ) implies #[trigger] buffer_in_row(frame, buffer, y, n) == padded(data) by {
            assert(row[0] != Action::<Seq<u8>>::Do(Op::Send));
            lemma_solid_held(area, time, pass, buffer, y, n);
        }
    } else {
        law_passed_rows_undriven(frame, y);
    }
}

/// An image refresh sends each dirty row its own codes, and every clean row zeros.
pub proof fn law_image_rows_sent(
    pixels: Seq<u8>,
    dirty: Seq<bool>,
    mode: DrawMode,
    x_start: int,
    x_end: int,
    frame: int,
    y: int,
)
    requires
        0 <= frame < DRAW_IMAGE_FRAME_COUNT,
        0 <= y < Display::HEIGHT,
    ensures
        row_sends(
            image_frames(pixels, dirty, mode, x_start, x_end)[frame],
            y,
            if dirty[y] {
                padded(image_row(pixels, mode, frame, x_start, x_end, y))
            } else {
                no_drive()
            },
        ),
{
    let whole = image_frame(pixels, dirty, mode, x_start, x_end, frame);
    if dirty[y] {
        law_driven_rows_sent(whole, y, image_row(pixels, mode, frame, x_start, x_end, y));
    } else {
        law_passed_rows_undriven(whole, y);
    }
}

} // verus!
