use epaper::gt911::{config_in, product_id_in, GT911_ADDR_ALT, GT911_ADDR_PRIMARY};
use epaper::hardware::{Op, Reply, Step};
use epaper::{Display, Gt911};

fn read(addr: u8, reg: [u8; 2], len: usize) -> Op<Vec<u8>> {
    Op::Read { addr, send: reg.to_vec(), len }
}

fn write(addr: u8, bytes: &[u8]) -> Op<Vec<u8>> {
    Op::Write { addr, bytes: bytes.to_vec() }
}

fn received(bytes: &[u8]) -> Reply {
    Reply::Received { acknowledged: true, bytes: bytes.to_vec() }
}

fn silent(len: usize) -> Reply {
    Reply::Received { acknowledged: false, bytes: vec![0; len] }
}

fn configured() -> Gt911 {
    let mut touch = Gt911::new(0x5D);
    touch.configure(960, 540);
    touch
}

/// Polls a controller with this status and this point.
fn poll(touch: &Gt911, status: Reply, point: Reply) -> (Vec<Op<Vec<u8>>>, Option<(u16, u16)>) {
    let mut read_touch = Display::new().read_touch(touch);
    let mut replies = vec![point, Reply::Done, status, Reply::Done];
    let mut work = Vec::new();
    loop {
        match read_touch.step(replies.pop().unwrap()) {
            Step::Perform(op) => work.push(op),
            Step::Finished(found) => return (work, found),
        }
    }
}

#[test]
fn a_configuration_is_a_block_its_checksum_and_the_word_to_take_it() {
    let display = Display::new();
    let mut touch = Gt911::new(GT911_ADDR_ALT);
    let work = display.configure_touch(&mut touch, 960, 540);
    let mut block = [0u8; 184];
    block[0] = 0xC0;
    block[1] = 0x03;
    block[2] = 0x1C;
    block[3] = 0x02;
    block[4] = 0x05;
    block[5] = 0x01;
    block[10] = 0x01;
    block[11] = 0x10;
    block[13] = 0x05;
    let mut first = vec![0x80, 0x47];
    first.extend_from_slice(&block);
    assert_eq!(
        work,
        vec![
            write(0x14, &first),
            write(0x14, &[0x80, 0xFF, 0x03]),
            write(0x14, &[0x81, 0x00, 0x01]),
        ]
    );
}

#[test]
fn a_block_and_its_checksum_sum_to_zero() {
    for (x_max, y_max) in [(0, 0), (65_535, 65_535), (960, 540), (228, 0), (255, 1)] {
        let work = Gt911::new(0x5D).configure(x_max, y_max);
        let mut sum = 0u8;
        match (&work[0], &work[1]) {
            (Op::Write { bytes: block, .. }, Op::Write { bytes: check, .. }) => {
                for b in &block[2..] {
                    sum = sum.wrapping_add(*b);
                }
                sum = sum.wrapping_add(check[2]);
            }
            _ => panic!("not writes"),
        }
        assert_eq!(sum, 0);
    }
}

#[test]
fn init_sets_coordinate_output_and_clears_the_flag() {
    let touch = Gt911::new(0x5D);
    let work = Display::new().init_touch(&touch);
    assert_eq!(work, vec![write(0x5D, &[0x80, 0x40, 0x00]), write(0x5D, &[0x81, 0x4E, 0x00])]);
}

#[test]
fn a_touch_point_is_kept_on_the_panel_and_mirrored() {
    let touch = configured();
    let (work, found) = poll(
        &touch,
        received(&[0x81]),
        received(&[0x10, 0x00, 0x2C, 0x01, 9, 9, 9, 9]),
    );
    assert_eq!(
        work,
        vec![
            read(0x5D, [0x81, 0x4E], 1),
            write(0x5D, &[0x81, 0x4E, 0x00]),
            read(0x5D, [0x81, 0x50], 8),
        ]
    );
    assert_eq!(found, Some((300, 524)));
}

#[test]
fn a_touch_point_outside_the_range_is_moved_to_its_edge() {
    let touch = configured();
    let far = received(&[0xFF, 0xFF, 0xFF, 0xFF, 0, 0, 0, 0]);
    assert_eq!(poll(&touch, received(&[1]), far).1, Some((960, 0)));
    let near = received(&[0; 8]);
    assert_eq!(poll(&touch, received(&[1]), near).1, Some((0, 540)));
}

#[test]
fn an_unconfigured_controller_reports_the_origin() {
    let touch = Gt911::new(0x5D);
    let point = received(&[5, 0, 7, 0, 0, 0, 0, 0]);
    assert_eq!(poll(&touch, received(&[1]), point).1, Some((0, 0)));
}

#[test]
fn the_flag_is_cleared_without_a_touch_too() {
    let touch = configured();
    let (work, found) = poll(&touch, received(&[0x80]), received(&[1; 8]));
    assert_eq!(work, vec![read(0x5D, [0x81, 0x4E], 1), write(0x5D, &[0x81, 0x4E, 0x00])]);
    assert_eq!(found, None);
}

#[test]
fn a_silent_controller_has_no_touch() {
    let touch = configured();
    let (work, found) = poll(&touch, silent(1), received(&[1; 8]));
    assert_eq!((work.len(), found), (1, None));
    let (work, found) = poll(&touch, received(&[1]), silent(8));
    assert_eq!((work.len(), found), (3, None));
}

#[test]
fn a_finished_poll_keeps_its_point() {
    let mut read_touch = configured().read_touch();
    let replies = [
        Reply::Done,
        received(&[1]),
        Reply::Done,
        received(&[0, 0, 5, 0]),
        received(&[9; 8]),
    ];
    let mut last = None;
    for reply in replies {
        last = Some(read_touch.step(reply));
    }
    assert_eq!(last, Some(Step::Finished(Some((5, 540)))));
}

#[test]
fn detection_prefers_the_primary_address() {
    let mut detect = Display::new().detect_touch_addr();
    assert_eq!(detect.step(Reply::Done), Step::Perform(read(GT911_ADDR_PRIMARY, [0x81, 0x4E], 1)));
    assert_eq!(detect.step(received(&[0])), Step::Finished(Some(0x5D)));
    assert_eq!(detect.step(silent(1)), Step::Finished(Some(0x5D)));
}

#[test]
fn detection_tries_the_other_address() {
    let mut detect = Gt911::detect();
    detect.step(Reply::Done);
    assert_eq!(detect.step(silent(1)), Step::Perform(read(GT911_ADDR_ALT, [0x81, 0x4E], 1)));
    assert_eq!(detect.step(received(&[0])), Step::Finished(Some(0x14)));
}

#[test]
fn detection_finds_nothing_on_an_empty_bus() {
    let mut detect = Gt911::detect();
    detect.step(Reply::Done);
    detect.step(silent(1));
    assert_eq!(detect.step(silent(1)), Step::Finished(None));
}

#[test]
fn diagnostics_read_and_clear_the_registers() {
    let display = Display::new();
    let touch = Gt911::new(0x14);
    assert_eq!(touch.addr, 0x14);
    assert_eq!(display.touch_product_id(&touch), read(0x14, [0x81, 0x40], 4));
    assert_eq!(display.touch_read_config(&touch), read(0x14, [0x80, 0x46], 7));
    assert_eq!(display.touch_read_status_raw(&touch), read(0x14, [0x81, 0x4E], 1));
    assert_eq!(display.touch_clear_status(&touch), write(0x14, &[0x81, 0x4E, 0x00]));
    assert_eq!(product_id_in(&received(b"911\0")), *b"911\0");
    assert_eq!(product_id_in(&received(b"91")), *b"91\0\0");
    assert_eq!(config_in(&received(&[1, 2, 3, 4, 5, 6, 7])), [1, 2, 3, 4, 5, 6, 7]);
    assert_eq!(config_in(&Reply::Done), [0; 7]);
}
