use epaper::{Display, DisplayRotation, Error};

fn byte(display: &Display, x: usize, y: usize) -> u8 {
    display.framebuffer()[x / 2 + y * 480]
}

#[test]
fn a_new_display_is_white_and_clean() {
    let display = Display::new();
    assert_eq!(display.framebuffer().len(), 259_200);
    assert!(display.framebuffer().iter().all(|b| *b == 0xFF));
    assert!((0..540).all(|y| !display.is_tainted(y)));
    assert_eq!(display.rotation(), DisplayRotation::Rotate0);
}

#[test]
fn even_columns_are_low_halves_and_odd_columns_high_halves() {
    let mut display = Display::new();
    assert_eq!(display.set_pixel(10, 7, 0x3), Ok(()));
    assert_eq!(byte(&display, 10, 7), 0xF3);
    assert_eq!(display.set_pixel(11, 7, 0xA), Ok(()));
    assert_eq!(byte(&display, 10, 7), 0xA3);
    assert_eq!(display.set_pixel(10, 7, 0x0), Ok(()));
    assert_eq!(byte(&display, 10, 7), 0xA0);
}

#[test]
fn a_pixel_marks_its_row_and_no_other() {
    let mut display = Display::new();
    display.set_pixel(0, 8, 0).unwrap();
    display.set_pixel(959, 539, 15).unwrap();
    for y in 0..540 {
        assert_eq!(display.is_tainted(y), y == 8 || y == 539);
    }
}

#[test]
fn pixels_outside_the_panel_are_refused() {
    let mut display = Display::new();
    assert_eq!(display.set_pixel(960, 0, 0), Err(Error::OutOfBounds));
    assert_eq!(display.set_pixel(0, 540, 0), Err(Error::OutOfBounds));
    assert_eq!(display.set_pixel(960, 0, 16), Err(Error::OutOfBounds));
    assert!(display.framebuffer().iter().all(|b| *b == 0xFF));
    assert!((0..540).all(|y| !display.is_tainted(y)));
}

#[test]
fn gray_levels_above_fifteen_are_refused() {
    let mut display = Display::new();
    assert_eq!(display.set_pixel(0, 0, 16), Err(Error::InvalidColor));
    assert_eq!(display.fill(16), Err(Error::InvalidColor));
    assert!(display.framebuffer().iter().all(|b| *b == 0xFF));
    assert!(!display.is_tainted(0));
}

#[test]
fn fill_sets_both_halves_and_marks_every_row() {
    let mut display = Display::new();
    assert_eq!(display.fill(0x6), Ok(()));
    assert!(display.framebuffer().iter().all(|b| *b == 0x66));
    assert!((0..540).all(|y| display.is_tainted(y)));
}

#[test]
fn the_bounding_box_is_the_panel() {
    let area = Display::bounding_box();
    assert_eq!((area.x, area.y, area.width, area.height), (0, 0, 960, 540));
    assert_eq!((Display::WIDTH, Display::HEIGHT), (960, 540));
}
