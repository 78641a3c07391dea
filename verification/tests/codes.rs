use epaper::bits::{mask_without, reverse_slots, slot_pattern};
use epaper::waveform::{
    clip_dma_buffer, line_buffer_reorder, prepare_dma_buffer, solid_row, update_lut,
};
use epaper::DrawMode;

const MODES: [DrawMode; 3] =
    [DrawMode::BlackOnWhite, DrawMode::WhiteOnWhite, DrawMode::WhiteOnBlack];

fn table(mode: DrawMode, frame: usize) -> Vec<u8> {
    let mut lut = vec![mode.lut_default(); 1 << 16];
    for k in 0..=frame {
        update_lut(&mut lut, k, mode);
    }
    lut
}

#[test]
fn the_modes_start_from_their_drive() {
    assert_eq!(DrawMode::BlackOnWhite.lut_default(), 0x55);
    assert_eq!(DrawMode::WhiteOnWhite.lut_default(), 0xAA);
    assert_eq!(DrawMode::WhiteOnBlack.lut_default(), 0xAA);
}

#[test]
fn row_times_of_the_frames() {
    let slow = [30, 30, 20, 20, 30, 30, 30, 40, 40, 50, 50, 50, 100, 200, 300];
    let fast = [10, 10, 8, 8, 8, 8, 8, 10, 10, 15, 15, 20, 20, 100, 300];
    assert_eq!(DrawMode::BlackOnWhite.contrast_cycles(), slow);
    assert_eq!(DrawMode::WhiteOnWhite.contrast_cycles(), slow);
    assert_eq!(DrawMode::WhiteOnBlack.contrast_cycles(), fast);
}

#[test]
fn a_level_is_driven_for_its_number_of_frames() {
    for mode in MODES {
        let drive = mode.lut_default() & 0x03;
        for frame in 0..15 {
            let lut = table(mode, frame);
            for gray in 0..16usize {
                let driven = match mode {
                    DrawMode::WhiteOnBlack => frame < gray,
                    _ => frame < 15 - gray,
                };
                let code = if driven { drive } else { 0 };
                for i in 0..4 {
                    let entry = lut[gray << (4 * i)];
                    assert_eq!((entry >> (2 * i)) & 0x03, code);
                }
            }
        }
    }
}

#[test]
fn entries_mix_the_codes_of_four_levels() {
    let lut = table(DrawMode::BlackOnWhite, 7);
    // Levels 7, 8, 0 and 15, the lowest first: driven, not, driven, not.
    assert_eq!(lut[0xF087], 0b00_01_00_01);
    let lut = table(DrawMode::WhiteOnBlack, 7);
    assert_eq!(lut[0xF087], 0b10_00_10_00);
}

#[test]
fn the_two_passes_erase_and_render() {
    for frame in 0..15 {
        assert_eq!(table(DrawMode::WhiteOnBlack, frame)[0xFFFF], 0xAA);
        assert_eq!(table(DrawMode::BlackOnWhite, frame)[0x0000], 0x55);
        assert_eq!(table(DrawMode::BlackOnWhite, frame)[0xFFFF], 0x00);
    }
}

#[test]
fn any_two_levels_differ_in_some_frame() {
    for mode in MODES {
        for a in 0..16usize {
            for b in 0..a {
                assert!((0..15).any(|k| {
                    let lut = table_of_level(mode, k);
                    lut[a] != lut[b]
                }));
            }
        }
    }
}

fn table_of_level(mode: DrawMode, frame: usize) -> [u8; 16] {
    let mut codes = [mode.lut_default() & 0x03; 16];
    for k in 0..=frame {
        let level = match mode {
            DrawMode::WhiteOnBlack => k,
            _ => 15 - k,
        };
        codes[level] = 0;
    }
    let lut = table(mode, frame);
    for (gray, code) in codes.iter().enumerate() {
        assert_eq!(lut[gray] & 0x03, *code);
    }
    codes
}

#[test]
fn a_longer_table_is_left_alone_behind_its_entries() {
    let mut lut = vec![0x55u8; (1 << 16) + 3];
    update_lut(&mut lut, 0, DrawMode::BlackOnWhite);
    assert_eq!(&lut[1 << 16..], &[0x55, 0x55, 0x55]);
    assert_eq!(lut[0xFFFF], 0x00);
}

#[test]
fn the_leftmost_pixel_stands_in_the_high_bits() {
    let lut = table(DrawMode::BlackOnWhite, 0);
    let mut line = vec![0xFFu8; 480];
    // Column 0 black, the others white.
    line[0] = 0xF0;
    // Columns 956 to 959 black, black, white, black.
    line[478] = 0x00;
    line[479] = 0x0F;
    let buf = prepare_dma_buffer(&line, &lut);
    assert_eq!(buf.len(), 240);
    assert_eq!(buf[0], 0b01_00_00_00);
    assert_eq!(buf[239], 0b01_01_00_01);
    assert!(buf[1..239].iter().all(|b| *b == 0));
}

#[test]
fn a_short_row_fills_whole_groups_only() {
    let lut = vec![0xE4u8; 1 << 16];
    let buf = prepare_dma_buffer(&[0u8; 14], &lut);
    assert_eq!(buf.len(), 240);
    assert_eq!(&buf[..4], &[0x1B; 4]);
    assert!(buf[4..].iter().all(|b| *b == 0));
}

#[test]
fn columns_outside_the_clip_get_no_drive() {
    let mut buf = vec![0x55u8; 240];
    clip_dma_buffer(&mut buf, 5, 10);
    assert_eq!(buf[0], 0x00);
    assert_eq!(buf[1], 0b00_01_01_01);
    assert_eq!(buf[2], 0b01_01_00_00);
    assert!(buf[3..].iter().all(|b| *b == 0));
}

#[test]
fn a_clip_within_four_columns_masks_both_sides() {
    let mut buf = vec![0xFFu8; 2];
    clip_dma_buffer(&mut buf, 1, 3);
    assert_eq!(buf, [0b00_11_11_00, 0x00]);
}

#[test]
fn a_clip_of_everything_keeps_everything_and_an_empty_one_nothing() {
    let mut buf = vec![0xA5u8; 240];
    clip_dma_buffer(&mut buf, 0, 960);
    assert!(buf.iter().all(|b| *b == 0xA5));
    clip_dma_buffer(&mut buf, 100, 100);
    assert!(buf.iter().all(|b| *b == 0));
}

#[test]
fn reordering_swaps_the_halves_of_words() {
    let mut data = vec![0, 1, 2, 3, 4, 5, 6, 7, 8, 9];
    line_buffer_reorder(&mut data);
    assert_eq!(data, [2, 3, 0, 1, 6, 7, 4, 5, 8, 9]);
    line_buffer_reorder(&mut data);
    assert_eq!(data, [0, 1, 2, 3, 4, 5, 6, 7, 8, 9]);
}

#[test]
fn solid_rows_drive_their_columns() {
    assert!(solid_row(0, 960, 0).iter().all(|b| *b == 0x55));
    assert!(solid_row(0, 960, 1).iter().all(|b| *b == 0xAA));
    // Columns 3 to 5 are the high slot of byte 0 and the low slots of byte 1, halves swapped.
    let row = solid_row(3, 3, 1);
    assert_eq!(&row[..4], &[0x00, 0x00, 0b10_00_00_00, 0b00_00_10_10]);
    assert!(row[4..].iter().all(|b| *b == 0));
    assert!(solid_row(65_535, 0, 1).iter().all(|b| *b == 0));
}

#[test]
fn slots_of_a_byte() {
    assert_eq!(reverse_slots(0b11_10_01_00), 0b00_01_10_11);
    assert_eq!(mask_without(0), 0xFC);
    assert_eq!(mask_without(3), 0x3F);
    assert_eq!(slot_pattern(2, true), 0b00_10_00_00);
    assert_eq!(slot_pattern(1, false), 0b00_00_01_00);
}
