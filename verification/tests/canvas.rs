use epaper::graphics::translate_coord_rotation;
use epaper::{Display, DisplayRotation, Error};

#[test]
fn points_are_turned_onto_the_panel() {
    assert_eq!(translate_coord_rotation(DisplayRotation::Rotate0, 3, 4), (3, 4));
    assert_eq!(translate_coord_rotation(DisplayRotation::Rotate90, 3, 4), (955, 3));
    assert_eq!(translate_coord_rotation(DisplayRotation::Rotate180, 3, 4), (956, 535));
    assert_eq!(translate_coord_rotation(DisplayRotation::Rotate270, 3, 4), (4, 536));
}

#[test]
fn the_far_ends_of_the_plane_do_not_overflow() {
    let (x, y) = translate_coord_rotation(DisplayRotation::Rotate180, i32::MIN, i32::MIN);
    assert_eq!((x, y), (959 + 2_147_483_648, 539 + 2_147_483_648));
}

#[test]
fn quarter_turns_swap_the_size() {
    let mut display = Display::new();
    assert_eq!(display.size(), (960, 540));
    display.set_rotation(DisplayRotation::Rotate90);
    assert_eq!(display.rotation(), DisplayRotation::Rotate90);
    assert_eq!(display.size(), (540, 960));
    display.set_rotation(DisplayRotation::Rotate180);
    assert_eq!(display.size(), (960, 540));
    display.set_rotation(DisplayRotation::Rotate270);
    assert_eq!(display.size(), (540, 960));
}

#[test]
fn the_default_is_not_turned() {
    assert_eq!(DisplayRotation::default(), DisplayRotation::Rotate0);
}

#[test]
fn drawing_goes_through_the_rotation() {
    let mut display = Display::new();
    display.set_rotation(DisplayRotation::Rotate90);
    assert_eq!(display.draw_pixel(5, 0, 0), Ok(()));
    assert_eq!(display.framebuffer()[959 / 2 + 5 * 480], 0x0F);
    assert!(display.is_tainted(5));
}

#[test]
fn every_canvas_point_has_a_pixel_of_its_own() {
    for rotation in [
        DisplayRotation::Rotate0,
        DisplayRotation::Rotate90,
        DisplayRotation::Rotate180,
        DisplayRotation::Rotate270,
    ] {
        let mut display = Display::new();
        display.set_rotation(rotation);
        let (width, height) = display.size();
        let mut seen = vec![false; 960 * 540];
        for y in 0..height as i32 {
            for x in 0..width as i32 {
                let (column, row) = translate_coord_rotation(rotation, x, y);
                let at = row as usize * 960 + column as usize;
                assert!(!seen[at]);
                seen[at] = true;
            }
        }
        assert!(seen.iter().all(|s| *s));
    }
}

#[test]
fn points_outside_the_canvas_are_discarded() {
    let mut display = Display::new();
    display.set_rotation(DisplayRotation::Rotate270);
    assert_eq!(display.draw_pixel(-1, 0, 0), Ok(()));
    assert_eq!(display.draw_pixel(540, 0, 0), Ok(()));
    assert_eq!(display.draw_pixel(0, 960, 200), Ok(()));
    assert!(display.framebuffer().iter().all(|b| *b == 0xFF));
    assert!((0..540).all(|y| !display.is_tainted(y)));
}

#[test]
fn a_drawn_gray_level_above_fifteen_is_refused() {
    let mut display = Display::new();
    assert_eq!(display.draw_pixel(0, 0, 16), Err(Error::InvalidColor));
    assert!(!display.is_tainted(0));
}
