//! The waveform: which drive code a pixel of a given gray level gets in each frame, and the
//! buffers that carry a row of codes to the panel.
use vstd::prelude::*;

use crate::bits::{
    from_slots, keep_mask, lemma_byte_of_slots, lemma_fill_slot, lemma_keep_mask, mask_without,
    nibble, reverse_slots, slot, slot_pattern,
};

verus! {

/// Pixels in a row of the panel.
pub const ROW_PIXELS: usize = 960;

/// Bytes in a row at two bits a pixel.
pub const BYTES_PER_LINE: usize = 240;

/// Bytes in a row at four bits a pixel.
pub const LINE_BYTES_4BPP: usize = 480;

/// Frames of one image refresh.
pub const DRAW_IMAGE_FRAME_COUNT: usize = 15;

/// Entries of the conversion table: one for each group of four 4-bit gray levels.
pub const LUT_SIZE: usize = 0x1_0000;

const CONTRAST_CYCLES_4BPP: [u16; 15] = [
    30, 30, 20, 20, 30, 30, 30, 40, 40, 50, 50, 50, 100, 200, 300,
];

const CONTRAST_CYCLES_4BPP_WHITE: [u16; 15] = [
    10, 10, 8, 8, 8, 8, 8, 10, 10, 15, 15, 20, 20, 100, 300,
];

/// How an image is driven onto the panel.
#[derive(Clone, Copy, Debug)]
pub enum DrawMode {
    /// Darkens pixels of a white panel, the darkest for the longest.
    BlackOnWhite,
    /// As `BlackOnWhite`, with the lightening code.
    WhiteOnWhite,
    /// Lightens pixels, the lightest for the longest.
    WhiteOnBlack,
}

impl DrawMode {
    /// The drive code of a pixel that has not reached its level: `01` darkens, `10` lightens.
    pub open spec fn drive(self) -> int {
        match self {
            DrawMode::BlackOnWhite => 1,
            _ => 2,
        }
    }

    /// The gray level that stops being driven in frame `frame`: from the lightest down, or, for
    /// `WhiteOnBlack`, from the darkest up.
    pub open spec fn level(self, frame: int) -> int {
        match self {
            DrawMode::WhiteOnBlack => frame,
            _ => DRAW_IMAGE_FRAME_COUNT - frame,
        }
    }

    /// Whether a pixel of gray level `gray` is left undriven in frame `frame`.
    pub open spec fn floats(self, frame: int, gray: int) -> bool {
        match self {
            DrawMode::WhiteOnBlack => gray <= frame,
            _ => gray >= DRAW_IMAGE_FRAME_COUNT - frame,
        }
    }

    /// The drive code of a pixel of gray level `gray` in frame `frame`; `00` is no drive.
    pub open spec fn code(self, frame: int, gray: int) -> int {
        if self.floats(frame, gray) {
            0
        } else {
            self.drive()
        }
    }

    /// The time that the rows of frame `frame` are driven for, in microseconds.
    pub open spec fn row_time(self, frame: int) -> u16 {
        match self {
            DrawMode::WhiteOnBlack => seq![
                10u16, 10, 8, 8, 8, 8, 8, 10, 10, 15, 15, 20, 20, 100, 300,
            ][frame],
            _ => seq![
                30u16, 30, 20, 20, 30, 30, 30, 40, 40, 50, 50, 50, 100, 200, 300,
            ][frame],
        }
    }

    /// The table entry that drives all four of its pixels.
    pub fn lut_default(&self) -> (byte: u8)
        ensures
            forall|i: int| 0 <= i < 4 ==> #[trigger] slot(byte, i) == self.drive(),
    {
        match self {
            DrawMode::BlackOnWhite => 0x55,
            DrawMode::WhiteOnBlack | DrawMode::WhiteOnWhite => 0xAA,
        }
    }

    /// The row times of the frames of a refresh, in microseconds.
    pub fn contrast_cycles(&self) -> (times: [u16; 15])
        ensures
            forall|k: int| 0 <= k < 15 ==> times[k] == #[trigger] self.row_time(k),
    {
        match self {
            DrawMode::WhiteOnBlack => CONTRAST_CYCLES_4BPP_WHITE,
            DrawMode::BlackOnWhite | DrawMode::WhiteOnWhite => CONTRAST_CYCLES_4BPP,
        }
    }
}

/// `lut` is the conversion table of frame `frame`: slot `i` of entry `v` is the drive code of the
/// `i`-th gray level packed in `v`.
pub open spec fn is_lut(lut: Seq<u8>, mode: DrawMode, frame: int) -> bool {
    &&& lut.len() == LUT_SIZE
    &&& forall|v: int, i: int|
        0 <= v < LUT_SIZE && 0 <= i < 4 ==> #[trigger] slot(lut[v], i) == mode.code(
            frame,
            nibble(v, i),
        )
}

/// `after` is `before` with no drive for every pixel of gray level `level`.
pub open spec fn level_cleared(before: Seq<u8>, after: Seq<u8>, level: int) -> bool {
    &&& after.len() == before.len()
    &&& forall|v: int, i: int|
        0 <= v < LUT_SIZE && 0 <= i < 4 ==> #[trigger] slot(after[v], i) == if nibble(v, i)
            == level {
            0
        } else {
            slot(before[v], i)
        }
    &&& forall|v: int| LUT_SIZE <= v < after.len() ==> after[v] == before[v]
}

/// How many consecutive entries share gray level `i`.
pub open spec fn run_length(i: int) -> int {
    if i == 0 {
        1
    } else if i == 1 {
        16
    } else if i == 2 {
        256
    } else {
        4096
    }
}

/// Entry `v` lies in a run of entries that starts at `start` and holds `level` as gray level `i`.
proof fn lemma_in_run(i: int, level: int, round: int, v: int)
    requires
        0 <= i < 4,
        0 <= level < 16,
        0 <= round,
        run_length(i) * (16 * round + level) <= v < run_length(i) * (16 * round + level + 1),
    ensures
        nibble(v, i) == level,
{
}

/// From the start of one run of `level` to the start of the next, only the run itself holds it.
proof fn lemma_outside_run(i: int, level: int, round: int, v: int)
    requires
        0 <= i < 4,
        0 <= level < 16,
        0 <= round,
        run_length(i) * (16 * round + level + 1) <= v < run_length(i) * (16 * round + level + 16),
    ensures
        nibble(v, i) != level,
{
}

/// No entry before the first run of `level` holds it.
proof fn lemma_before_runs(i: int, level: int, v: int)
    requires
        0 <= i < 4,
        0 <= level < 16,
        0 <= v < run_length(i) * level,
    ensures
        nibble(v, i) != level,
{
}

/// Zeroes slot `i` of every entry whose gray level `i` is `level`.
fn clear_slot(lut: &mut [u8], level: usize, i: usize, run: usize, mask: u8)
    requires
        old(lut)@.len() >= LUT_SIZE,
        level < 16,
        i < 4,
        run == run_length(i as int),
        mask == keep_mask(i as int),
    ensures
        final(lut)@.len() == old(lut)@.len(),
        forall|v: int|
            0 <= v < LUT_SIZE ==> #[trigger] final(lut)@[v] == if nibble(v, i as int) == level {
                old(lut)@[v] & mask
            } else {
                old(lut)@[v]
            },
        forall|v: int| LUT_SIZE <= v < old(lut)@.len() ==> final(lut)@[v] == old(lut)@[v],
{
    let ghost before = lut@;
    let ghost mut round: int = 0;
    let mut l: usize = level * run;
    proof {
        assert forall|v: int| 0 <= v < l implies nibble(v, i as int) != level by {
            lemma_before_runs(i as int, level as int, v);
        }
    }
    while l < LUT_SIZE
        invariant
            before.len() >= LUT_SIZE,
            lut@.len() == before.len(),
            level < 16,
            i < 4,
            run == run_length(i as int),
            0 <= round,
            l == run * (16 * round + level),
            forall|v: int|
                0 <= v < LUT_SIZE && v < l ==> #[trigger] lut@[v] == if nibble(v, i as int)
                    == level {
                    before[v] & mask
                } else {
                    before[v]
                },
            forall|v: int| l <= v < before.len() ==> #[trigger] lut@[v] == before[v],
            forall|v: int| LUT_SIZE <= v < before.len() ==> lut@[v] == before[v],
        decreases LUT_SIZE + 65536 - l,
    {
        let mut p: usize = 0;
        while p < run
            invariant
                before.len() >= LUT_SIZE,
                lut@.len() == before.len(),
                level < 16,
                i < 4,
                run == run_length(i as int),
                0 <= round,
                l == run * (16 * round + level),
                l < LUT_SIZE,
                p <= run,
                forall|v: int|
                    0 <= v < l + p ==> #[trigger] lut@[v] == if nibble(v, i as int) == level {
                        before[v] & mask
                    } else {
                        before[v]
                    },
                forall|v: int| l + p <= v < before.len() ==> #[trigger] lut@[v] == before[v],
            decreases run - p,
        {
            proof {
                lemma_in_run(i as int, level as int, round, l + p);
                assert(l + p < LUT_SIZE);
            }
            lut[l + p] = lut[l + p] & mask;
            p += 1;
        }
        proof {
            assert forall|v: int| l + run <= v < l + 16 * run implies nibble(v, i as int)
                != level by {
                lemma_outside_run(i as int, level as int, round, v);
            }
            round = round + 1;
        }
        l += 16 * run;
    }
}

/// What a mask on slot `i` that is applied where `hit` holds does to slot `j`.
proof fn lemma_masked_slot(before: u8, after: u8, i: int, hit: bool, j: int)
    requires
        0 <= i < 4,
        0 <= j < 4,
        after == if hit {
            before & keep_mask(i)
        } else {
            before
        },
    ensures
        slot(after, j) == if hit && j == i {
            0
        } else {
            slot(before, j)
        },
{
    lemma_keep_mask(before, i);
}

/// Stops driving the gray level whose turn it is in frame `k`.
pub fn update_lut(conversion_lut: &mut [u8], k: usize, mode: DrawMode)
    requires
        old(conversion_lut)@.len() >= LUT_SIZE,
        k <= 15,
    ensures
        level_cleared(old(conversion_lut)@, final(conversion_lut)@, mode.level(k as int)),
{
    let level: usize = match mode {
        DrawMode::BlackOnWhite | DrawMode::WhiteOnWhite => DRAW_IMAGE_FRAME_COUNT - k,
        DrawMode::WhiteOnBlack => k,
    };
    let ghost before = conversion_lut@;
    clear_slot(conversion_lut, level, 0, 1, 0xFC);
    let ghost first = conversion_lut@;
    clear_slot(conversion_lut, level, 1, 16, 0xF3);
    let ghost second = conversion_lut@;
    clear_slot(conversion_lut, level, 2, 256, 0xCF);
    let ghost third = conversion_lut@;
    clear_slot(conversion_lut, level, 3, 4096, 0x3F);
    proof {
        let after = conversion_lut@;
        assert forall|v: int, i: int| 0 <= v < LUT_SIZE && 0 <= i < 4 implies #[trigger] slot(
            after[v],
            i,
        ) == if nibble(v, i) == level {
            0
        } else {
            slot(before[v], i)
        } by {
            lemma_masked_slot(before[v], first[v], 0, nibble(v, 0) == level, i);
            lemma_masked_slot(first[v], second[v], 1, nibble(v, 1) == level, i);
            lemma_masked_slot(second[v], third[v], 2, nibble(v, 2) == level, i);
            lemma_masked_slot(third[v], after[v], 3, nibble(v, 3) == level, i);
        }
    }
}

/// Clearing the level of each frame in turn, from a table that drives everything, gives the
/// conversion table of that frame: a pixel is driven until its gray level has been cleared, and
/// not after.
pub proof fn law_lut_evolution(mode: DrawMode, frame: int, before: Seq<u8>, after: Seq<u8>)
    requires
        0 <= frame < DRAW_IMAGE_FRAME_COUNT,
        before.len() == LUT_SIZE,
        if frame == 0 {
            forall|v: int, i: int|
                0 <= v < LUT_SIZE && 0 <= i < 4 ==> #[trigger] slot(before[v], i) == mode.drive()
        } else {
            is_lut(before, mode, frame - 1)
        },
        level_cleared(before, after, mode.level(frame)),
    ensures
        is_lut(after, mode, frame),
{
}

/// The level whose turn it is counts down from 15 with the frames, or for white on black up from 0:
/// one level in each frame, and each level once.
pub proof fn law_level_turns(mode: DrawMode, frame: int)
    ensures
        mode.level(0) == if mode is WhiteOnBlack {
            0int
        } else {
            15
        },
        mode.level(frame + 1) == if mode is WhiteOnBlack {
            mode.level(frame) + 1
        } else {
            mode.level(frame) - 1
        },
{
}

/// Clearing a level takes the drive from every pixel of that gray level, in every entry of the
/// table, and from no other.
pub proof fn law_level_cleared(before: Seq<u8>, after: Seq<u8>, level: int, v: int, i: int)
    requires
        level_cleared(before, after, level),
        0 <= v < after.len(),
        0 <= i < 4,
    ensures
        after.len() == before.len(),
        v < 65536 && nibble(v, i) == level ==> slot(after[v], i) == 0,
        v < 65536 && nibble(v, i) != level ==> slot(after[v], i) == slot(before[v], i),
        v >= 65536 ==> after[v] == before[v],
{
}

/// The `b`-th little-endian 16-bit value of a row: four packed gray levels.
pub open spec fn group(line: Seq<u8>, b: int) -> int {
    line[2 * b] + 256 * line[2 * b + 1]
}

/// Converts a row of packed gray levels to drive codes. Eight bytes of gray levels, sixteen
/// pixels, make four bytes of codes; what is left over is ignored. The panel takes the leftmost of
/// the four pixels of a byte from bits 7:6, the table holds it in bits 1:0.
pub fn prepare_dma_buffer(line_data: &[u8], conversion_lut: &[u8]) -> (buf: Vec<u8>)
    requires
        line_data@.len() % 2 == 0,
        line_data@.len() / 8 <= BYTES_PER_LINE / 4,
        forall|b: int|
            0 <= b < 4 * (line_data@.len() / 8) ==> #[trigger] group(line_data@, b)
                < conversion_lut@.len(),
    ensures
        buf@.len() == BYTES_PER_LINE,
        forall|b: int, i: int|
            0 <= b < 4 * (line_data@.len() / 8) && 0 <= i < 4 ==> #[trigger] slot(buf@[b], i)
                == slot(conversion_lut@[group(line_data@, b)], 3 - i),
        forall|b: int| 4 * (line_data@.len() / 8) <= b < BYTES_PER_LINE ==> buf@[b] == 0,
{
    let mut buf: Vec<u8> = vec![0u8; BYTES_PER_LINE];
    let filled: usize = 4 * (line_data.len() / 8);
    let mut b: usize = 0;
    while b < filled
        invariant
            filled == 4 * (line_data@.len() / 8),
            filled <= BYTES_PER_LINE,
            b <= filled,
            buf@.len() == BYTES_PER_LINE,
            forall|b: int|
                0 <= b < filled ==> #[trigger] group(line_data@, b) < conversion_lut@.len(),
            forall|c: int, i: int|
                0 <= c < b && 0 <= i < 4 ==> #[trigger] slot(buf@[c], i) == slot(
                    conversion_lut@[group(line_data@, c)],
                    3 - i,
                ),
            forall|c: int| b <= c < BYTES_PER_LINE ==> buf@[c] == 0,
        decreases filled - b,
    {
        let value: usize = line_data[2 * b] as usize + 256 * line_data[2 * b + 1] as usize;
        assert(value == group(line_data@, b as int));
        buf[b] = reverse_slots(conversion_lut[value]);
        b += 1;
    }
    buf
}

/// Zeroes the drive codes of the pixels outside columns `x_start` to `x_end`: byte `b` holds pixels
/// `4 * b` to `4 * b + 3`, the leftmost in bits 7:6, and a zero code leaves its pixel undriven.
pub fn clip_dma_buffer(buf: &mut [u8], x_start: u16, x_end: u16)
    requires
        4 * old(buf)@.len() <= u16::MAX,
    ensures
        final(buf)@.len() == old(buf)@.len(),
        forall|b: int, i: int|
            0 <= b < old(buf)@.len() && 0 <= i < 4 ==> #[trigger] slot(final(buf)@[b], i) == if x_start
                <= 4 * b + (3 - i) < x_end {
                slot(old(buf)@[b], i)
            } else {
                0
            },
{
    let ghost before = buf@;
    let mut b: usize = 0;
    while b < buf.len()
        invariant
            4 * before.len() <= u16::MAX,
            buf@.len() == before.len(),
            b <= buf@.len(),
            forall|c: int, i: int|
                0 <= c < b && 0 <= i < 4 ==> #[trigger] slot(buf@[c], i) == if x_start <= 4 * c
                    + (3 - i) < x_end {
                    slot(before[c], i)
                } else {
                    0
                },
            forall|c: int| b <= c < buf@.len() ==> #[trigger] buf@[c] == before[c],
        decreases buf@.len() - b,
    {
        let px_base: u16 = b as u16 * 4;
        if px_base + 4 <= x_start || px_base >= x_end {
            buf[b] = 0x00;
        } else if px_base < x_start || px_base + 4 > x_end {
            let mut byte: u8 = buf[b];
            let mut p: u16 = 0;
            while p < 4
                invariant
                    p <= 4,
                    px_base == 4 * b,
                    px_base + 4 <= u16::MAX,
                    b < before.len(),
                    forall|i: int|
                        0 <= i < 4 ==> #[trigger] slot(byte, i) == if 3 - i >= p || x_start <= 4 * b
                            + (3 - i) < x_end {
                            slot(before[b as int], i)
                        } else {
                            0
                        },
                decreases 4 - p,
            {
                let px: u16 = px_base + p;
                if px < x_start || px >= x_end {
                    let i: usize = 3 - p as usize;
                    proof {
                        lemma_keep_mask(byte, i as int);
                    }
                    byte = byte & mask_without(i);
                }
                p += 1;
            }
            buf[b] = byte;
        }
        b += 1;
    }
}

/// A buffer with the two 16-bit halves of each complete 32-bit word swapped.
pub open spec fn halves_swapped(data: Seq<u8>) -> Seq<u8> {
    Seq::new(
        data.len(),
        |i: int|
            if 4 * (i / 4) + 4 <= data.len() {
                data[4 * (i / 4) + (i + 2) % 4]
            } else {
                data[i]
            },
    )
}

/// Swaps the two 16-bit halves of each complete 32-bit word.
pub fn line_buffer_reorder(data: &mut [u8])
    ensures
        final(data)@ == halves_swapped(old(data)@),
{
    let ghost before = data@;
    let words: usize = data.len() / 4;
    let mut w: usize = 0;
    while w < words
        invariant
            words == before.len() / 4,
            before.len() <= usize::MAX,
            data@.len() == before.len(),
            w <= words,
            forall|i: int| 0 <= i < 4 * w ==> #[trigger] data@[i] == halves_swapped(before)[i],
            forall|i: int| 4 * w <= i < data@.len() ==> #[trigger] data@[i] == before[i],
        decreases words - w,
    {
        let b0: u8 = data[4 * w];
        let b1: u8 = data[4 * w + 1];
        data[4 * w] = data[4 * w + 2];
        data[4 * w + 1] = data[4 * w + 3];
        data[4 * w + 2] = b0;
        data[4 * w + 3] = b1;
        w += 1;
    }
    assert(data@ =~= halves_swapped(before));
}

/// Swapping the halves twice gives the buffer back.
pub proof fn law_reorder_undoes_itself(data: Seq<u8>)
    ensures
        halves_swapped(halves_swapped(data)) == data,
{
    assert(halves_swapped(halves_swapped(data)) =~= data);
}

/// The drive code of a solid pass: `10` for colour 1, `01` for any other.
pub open spec fn solid_code(color: int) -> int {
    if color == 1 {
        2
    } else {
        1
    }
}

/// The code of pixel `p` in a solid pass over columns `x` to `x + width`.
pub open spec fn solid_pixel(x: int, width: int, color: int, p: int) -> int {
    if x <= p < x + width {
        solid_code(color)
    } else {
        0
    }
}

/// A row that drives columns `x` to `x + width` with one code, four pixels to a byte, the leftmost
/// in bits 1:0.
pub open spec fn solid_pattern(x: int, width: int, color: int) -> Seq<u8> {
    Seq::new(
        BYTES_PER_LINE as nat,
        |b: int|
            from_slots(
                solid_pixel(x, width, color, 4 * b),
                solid_pixel(x, width, color, 4 * b + 1),
                solid_pixel(x, width, color, 4 * b + 2),
                solid_pixel(x, width, color, 4 * b + 3),
            ),
    )
}

/// The row that a solid pass sends: one code in columns `x` to `x + width`, in the byte order of
/// the panel.
pub fn solid_row(x: u16, width: u16, color: u16) -> (row: Vec<u8>)
    requires
        width == 0 || x + width <= ROW_PIXELS,
    ensures
        row@ == halves_swapped(solid_pattern(x as int, width as int, color as int)),
{
    let mut row: Vec<u8> = vec![0u8; BYTES_PER_LINE];
    let mut i: u16 = 0;
    while i < width
        invariant
            width == 0 || x + width <= ROW_PIXELS,
            i <= width,
            row@.len() == BYTES_PER_LINE,
            forall|b: int, j: int|
                0 <= b < BYTES_PER_LINE && 0 <= j < 4 ==> #[trigger] slot(row@[b], j)
                    == solid_pixel(x as int, i as int, color as int, 4 * b + j),
        decreases width - i,
    {
        let pos: u16 = i + x % 4;
        let b: usize = (x / 4 + pos / 4) as usize;
        let s: u8 = (pos % 4) as u8;
        assert(4 * b + s == x + i);
        proof {
            assert(slot(row@[b as int], s as int) == 0);
            lemma_fill_slot(row@[b as int], s as int, solid_code(color as int));
        }
        let mask: u8 = slot_pattern(s, color == 1);
        row[b] = row[b] | mask;
        i += 1;
    }
    proof {
        let pattern = solid_pattern(x as int, width as int, color as int);
        assert forall|b: int| 0 <= b < BYTES_PER_LINE implies row@[b] == pattern[b] by {
            let byte = row@[b];
            assert(slot(byte, 0) == solid_pixel(x as int, width as int, color as int, 4 * b));
            assert(slot(byte, 1) == solid_pixel(x as int, width as int, color as int, 4 * b + 1));
            assert(slot(byte, 2) == solid_pixel(x as int, width as int, color as int, 4 * b + 2));
            assert(slot(byte, 3) == solid_pixel(x as int, width as int, color as int, 4 * b + 3));
            lemma_byte_of_slots(byte);
        }
        assert(row@ =~= pattern);
    }
    line_buffer_reorder(&mut row);
    row
}

} // verus!
