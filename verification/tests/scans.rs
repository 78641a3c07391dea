use epaper::error::{
    DmaAlignmentError, DmaBufError, DmaError, RmtConfigError, RmtError,
};
use epaper::hardware::{busy_delay, pulse, Op, Pulse, Reply, Step};
use epaper::panel::bring_up;
use epaper::power::VCOM_MV;
use epaper::scan::Scan;
use epaper::{Display, DrawMode, Error, Rectangle};

type Work = Vec<Op<Vec<u8>>>;

fn port(value: u8) -> Op<Vec<u8>> {
    Op::Write { addr: 0x20, bytes: vec![0x03, value] }
}

fn clock(high: u16, low: u16, wait: bool) -> Op<Vec<u8>> {
    Op::Pulse { pulse: pulse(high, low), wait }
}

fn load(row: &[u8]) -> Op<Vec<u8>> {
    let mut bytes = row.to_vec();
    bytes.resize(248, 0);
    Op::Load { bytes }
}

fn row(time: u16) -> Work {
    vec![
        Op::Leh { high: true },
        Op::Leh { high: false },
        clock(time, 50, false),
        Op::Send,
        Op::FinishSend,
        Op::FinishPulse,
    ]
}

fn frame_start() -> Work {
    vec![
        port(0x02),
        clock(10, 10, true),
        Op::Stv { high: false },
        Op::Delay { cycles: 240 },
        clock(100, 100, false),
        Op::Stv { high: true },
        Op::FinishPulse,
        clock(0, 100, true),
        port(0x03),
        clock(10, 10, true),
    ]
}

fn frame_end() -> Work {
    vec![port(0x00), clock(10, 10, true), clock(10, 10, true)]
}

/// Runs a scan without failures and hands each piece of work to `seen`.
fn run(display: &mut Display, mut scan: Scan, mut seen: impl FnMut(usize, &Op<Vec<u8>>)) {
    let mut n = 0;
    loop {
        match scan.step(display, Reply::Done) {
            Step::Perform(op) => seen(n, &op),
            Step::Finished(result) => {
                assert_eq!(result, Ok(()));
                assert_eq!(scan.step(display, Reply::Done), Step::Finished(Ok(())));
                return;
            }
        }
        n += 1;
    }
}

fn collect(display: &mut Display, scan: Scan) -> Work {
    let mut work = Vec::new();
    run(display, scan, |_, op| work.push(op.clone()));
    work
}

/// Runs a scan and fails piece of work `n` with `error`; returns how many pieces followed it.
fn fail(display: &mut Display, mut scan: Scan, n: usize, error: Error) -> (usize, Error) {
    let mut reply = Reply::Done;
    let mut at = 0;
    loop {
        match scan.step(display, reply) {
            Step::Perform(_) => {
                reply = if at == n { Reply::Failed(error) } else { Reply::Done };
                at += 1;
            }
            Step::Finished(Ok(())) => panic!("no failure"),
            Step::Finished(Err(e)) => return (at - n - 1, e),
        }
    }
}

#[test]
fn a_clean_flush_passes_over_every_row() {
    let mut display = Display::new();
    let scan = display.flush(DrawMode::WhiteOnBlack);
    let work = collect(&mut display, scan);
    let times = DrawMode::WhiteOnBlack.contrast_cycles();
    let mut expected = Vec::new();
    for time in times {
        expected.extend(frame_start());
        expected.push(load(&[0; 240]));
        expected.extend(row(time));
        expected.push(port(0x02));
        expected.extend(row(10));
        for _ in 2..540 {
            expected.push(clock(45, 5, true));
        }
        expected.extend(frame_end());
    }
    assert_eq!(work, expected);
}

#[test]
fn a_flush_drives_the_dirty_rows() {
    let mut display = Display::new();
    // Columns 0 to 3 of row 1: black, level 7, white, black.
    display.set_pixel(0, 1, 0).unwrap();
    display.set_pixel(1, 1, 7).unwrap();
    display.set_pixel(3, 1, 0).unwrap();
    let scan = display.flush(DrawMode::BlackOnWhite);
    let work = collect(&mut display, scan);
    let times = DrawMode::BlackOnWhite.contrast_cycles();
    let mut expected = Vec::new();
    for (k, time) in times.into_iter().enumerate() {
        let mut data = vec![0u8; 240];
        data[0] = if k < 8 { 0b01_01_00_01 } else { 0b01_00_00_01 };
        expected.extend(frame_start());
        expected.push(load(&[0; 240]));
        expected.extend(row(time));
        expected.push(port(0x02));
        expected.push(load(&data));
        expected.push(port(0x03));
        expected.extend(row(time));
        expected.push(load(&[0; 240]));
        expected.extend(row(time));
        expected.push(port(0x02));
        expected.extend(row(10));
        for _ in 4..540 {
            expected.push(clock(45, 5, true));
        }
        expected.extend(frame_end());
    }
    assert_eq!(work, expected);
}

#[test]
fn every_row_is_sent_its_own_data() {
    let mut display = Display::new();
    display.set_pixel(0, 1, 0).unwrap();
    display.set_pixel(4, 3, 0).unwrap();
    let scan = display.flush(DrawMode::BlackOnWhite);
    let mut buffer = vec![0xEE; 248];
    let mut sent = Vec::new();
    run(&mut display, scan, |_, op| match op {
        Op::Load { bytes } => buffer = bytes.clone(),
        Op::Send => sent.push((buffer[0], buffer[1], buffer[2..].iter().all(|b| *b == 0))),
        _ => (),
    });
    // Rows 0 to 5; the others are clocked past.
    let frame = [
        (0x00, 0x00, true),
        (0x40, 0x00, true),
        (0x00, 0x00, true),
        (0x00, 0x40, true),
        (0x00, 0x00, true),
        (0x00, 0x00, true),
    ];
    assert_eq!(sent, frame.repeat(15));
}

#[test]
fn an_area_is_sent_one_row_and_the_rest_zeros() {
    let mut display = Display::new();
    let area = Rectangle { x: 0, y: 2, width: 960, height: 3 };
    let scan = display.clear_area(area);
    let mut buffer = vec![0xEE; 248];
    let mut sent = Vec::new();
    run(&mut display, scan, |_, op| match op {
        Op::Load { bytes } => buffer = bytes.clone(),
        Op::Send => sent.push(buffer[0]),
        _ => (),
    });
    // Two rows above, three of the area, two below, and the closing row.
    assert_eq!(sent[..8], [0x00, 0x00, 0x55, 0x55, 0x55, 0x00, 0x00, 0x00]);
    assert_eq!(sent.len(), 32 * 8);
}

#[test]
fn a_flush_of_the_last_row_drives_it_once_more() {
    let mut display = Display::new();
    display.set_pixel(0, 539, 0).unwrap();
    let scan = display.flush(DrawMode::BlackOnWhite);
    let work = collect(&mut display, scan);
    let tail = work.len() - frame_end().len() - 2 * 6;
    let mut expected = row(300);
    expected.extend(row(300));
    expected.extend(frame_end());
    assert_eq!(work[tail..], expected[..]);
}

#[test]
fn a_flush_leaves_a_white_and_clean_framebuffer() {
    let mut display = Display::new();
    display.fill(3).unwrap();
    let scan = display.flush(DrawMode::BlackOnWhite);
    run(&mut display, scan, |_, _| ());
    assert!(display.framebuffer().iter().all(|b| *b == 0xFF));
    assert!((0..540).all(|y| !display.is_tainted(y)));
}

#[test]
fn a_clipped_flush_drives_nothing_beside_the_clip() {
    let mut display = Display::new();
    display.fill(0).unwrap();
    let clip = Rectangle { x: 5, y: 0, width: 4, height: 540 };
    let scan = display.flush_clip(DrawMode::BlackOnWhite, clip);
    let mut data = vec![0u8; 240];
    data[1] = 0b00_01_01_01;
    data[2] = 0b01_00_00_00;
    let row = load(&data);
    let mut loads = 0;
    run(&mut display, scan, |_, op| {
        if let Op::Load { .. } = op {
            loads += 1;
            assert_eq!(*op, row);
        }
    });
    assert_eq!(loads, 15 * 540);
}

#[test]
fn a_clip_that_leaves_the_panel_ends_with_it() {
    let mut display = Display::new();
    display.set_pixel(959, 0, 0).unwrap();
    let clip = Rectangle { x: 958, y: 0, width: 65_535, height: 1 };
    let scan = display.flush_clip(DrawMode::WhiteOnWhite, clip);
    let mut data = vec![0u8; 240];
    data[239] = 0b00_00_00_10;
    let mut first = None;
    run(&mut display, scan, |n, op| {
        if n == 10 {
            first = Some(op.clone());
        }
    });
    assert_eq!(first, Some(load(&data)));
}

#[test]
fn a_clear_passes_to_both_sides_and_keeps_the_framebuffer() {
    let mut display = Display::new();
    display.fill(9).unwrap();
    let scan = display.clear();
    let mut colors = Vec::new();
    let mut sends = 0;
    run(&mut display, scan, |_, op| match op {
        Op::Load { bytes } => colors.push(bytes[0]),
        Op::Send => sends += 1,
        _ => (),
    });
    let cycle = [0x55, 0x55, 0x55, 0x55, 0xAA, 0xAA, 0xAA, 0xAA];
    assert_eq!(colors, cycle.repeat(4));
    assert_eq!(sends, 32 * 541);
    assert!(display.framebuffer().iter().all(|b| *b == 0x99));
    assert!((0..540).all(|y| display.is_tainted(y)));
}

#[test]
fn a_cleared_area_is_driven_and_the_rest_passed_over() {
    let mut display = Display::new();
    let area = Rectangle { x: 4, y: 3, width: 4, height: 2 };
    let scan = display.clear_area(area);
    let work = collect(&mut display, scan);
    let mut data = vec![0u8; 240];
    data[3] = 0x55;
    let mut first = frame_start();
    first.push(load(&[0; 240]));
    first.extend(row(50));
    first.push(port(0x02));
    first.extend(row(10));
    first.push(clock(45, 5, true));
    first.push(load(&data));
    first.push(port(0x03));
    first.extend(row(50));
    first.extend(row(50));
    first.push(load(&[0; 240]));
    first.extend(row(50));
    first.push(port(0x02));
    first.extend(row(10));
    for _ in 7..540 {
        first.push(clock(45, 5, true));
    }
    first.push(port(0x03));
    first.extend(row(50));
    first.extend(frame_end());
    assert_eq!(work[..first.len()], first[..]);
    assert_eq!(work.len(), 32 * first.len());
}

#[test]
fn an_area_without_height_drives_no_row() {
    let mut display = Display::new();
    let area = Rectangle { x: 0, y: 10, width: 960, height: 0 };
    let scan = display.clear_area(area);
    let mut frames = 0;
    run(&mut display, scan, |_, op| {
        if let Op::Load { bytes } = op {
            frames += 1;
            assert!(bytes.iter().all(|b| *b == 0));
        }
    });
    assert_eq!(frames, 32);
}

#[test]
fn a_repair_pauses_between_its_slow_passes() {
    let mut display = Display::new();
    let scan = display.repair();
    let mut log = String::new();
    run(&mut display, scan, |_, op| match op {
        Op::Load { bytes } if bytes[0] == 0x55 => log.push('0'),
        Op::Load { bytes } if bytes[0] == 0xAA => log.push('1'),
        Op::DelayMillis { millis } => {
            assert_eq!(*millis, 500);
            log.push('.');
        }
        _ => (),
    });
    let clear = "00001111".repeat(4);
    assert_eq!(
        log,
        format!("{}{}{}{}{}", clear, "0.".repeat(20), clear, "1.".repeat(40), clear)
    );
}

#[test]
fn a_scan_keeps_the_supply_on() {
    let mut display = Display::new();
    let mut on = display.power_on();
    let ready = Reply::Received { acknowledged: true, bytes: vec![0xFF] };
    while on.step(&mut display, ready.clone()) != Step::Finished(()) {}
    let scan = display.flush(DrawMode::BlackOnWhite);
    let mut ports = Vec::new();
    run(&mut display, scan, |_, op| {
        if let Op::Write { bytes, .. } = op {
            ports.push(bytes[1]);
        }
    });
    assert_eq!(ports, [0x3A, 0x3B, 0x3A, 0x38].repeat(15));
}

#[test]
fn a_failed_pulse_ends_a_scan_at_once() {
    let mut display = Display::new();
    display.set_pixel(1, 1, 1).unwrap();
    let error = Error::Rmt(RmtError::TransmissionError);
    let scan = display.flush(DrawMode::BlackOnWhite);
    assert_eq!(fail(&mut display, scan, 1, error), (0, error));
    // What was drawn is still there, and so is the bus.
    assert!(display.is_tainted(1));
    assert_eq!(display.framebuffer()[480], 0x1F);
    let scan = display.flush(DrawMode::BlackOnWhite);
    run(&mut display, scan, |_, _| ());
}

#[test]
fn every_failure_is_handed_on() {
    for error in [
        Error::Rmt(RmtError::EndMarkerMissing),
        Error::RmtConfig(RmtConfigError::MemoryBlockNotAvailable),
        Error::Dma(DmaError::InvalidAlignment(DmaAlignmentError::Size)),
        Error::DmaBuffer(DmaBufError::InsufficientDescriptors),
        Error::Unknown,
    ] {
        let mut display = Display::new();
        let scan = display.repair();
        assert_eq!(fail(&mut display, scan, 9, error), (0, error));
    }
}

#[test]
fn a_transfer_that_does_not_start_keeps_the_bus() {
    let mut display = Display::new();
    let error = Error::Dma(DmaError::BufferTooSmall);
    let scan = display.clear();
    assert_eq!(fail(&mut display, scan, 14, error), (0, error));
    let scan = display.clear();
    run(&mut display, scan, |_, _| ());
}

#[test]
fn a_failed_transfer_ends_a_scan_after_its_pulse_and_loses_the_bus() {
    let mut display = Display::new();
    display.fill(0).unwrap();
    let error = Error::Dma(DmaError::DescriptorError);
    let scan = display.flush(DrawMode::BlackOnWhite);
    assert_eq!(fail(&mut display, scan, 15, error), (1, error));
    assert!((0..540).all(|y| display.is_tainted(y)));
    let mut scan = display.flush(DrawMode::BlackOnWhite);
    let mut steps = 0;
    loop {
        match scan.step(&mut display, Reply::Done) {
            Step::Perform(_) => steps += 1,
            Step::Finished(result) => {
                assert_eq!((steps, result), (10, Err(Error::Unknown)));
                break;
            }
        }
    }
    let scan = display.clear();
    assert_eq!(fail(&mut display, scan, 0, Error::OutOfBounds), (9, Error::Unknown));
}

#[test]
fn a_pulse_that_fails_beside_a_transfer_loses_the_bus() {
    let mut display = Display::new();
    let error = Error::Rmt(RmtError::Overflow);
    let scan = display.clear();
    assert_eq!(fail(&mut display, scan, 16, error), (0, error));
    let scan = display.clear();
    assert_eq!(fail(&mut display, scan, 0, error), (9, Error::Unknown));
}

#[test]
fn a_lost_frame_start_pulse_keeps_the_bus() {
    let mut display = Display::new();
    let error = Error::Rmt(RmtError::Overflow);
    let scan = display.clear();
    assert_eq!(fail(&mut display, scan, 6, error), (0, error));
    let scan = display.clear();
    run(&mut display, scan, |_, _| ());
}

#[test]
fn replies_to_writes_make_no_difference() {
    let mut display = Display::new();
    let mut scan = display.clear();
    let first = scan.step(&mut display, Reply::Failed(Error::Unknown));
    assert_eq!(first, Step::Perform(port(0x02)));
    let second = scan.step(&mut display, Reply::Failed(Error::Unknown));
    assert_eq!(second, Step::Perform(clock(10, 10, true)));
}

#[test]
fn pulses_without_a_high_part_stay_low() {
    let high = Pulse { level1: true, length1: 30, level2: false, length2: 50 };
    let low = Pulse { level1: false, length1: 100, level2: false, length2: 0 };
    assert_eq!(pulse(30, 50), high);
    assert_eq!(pulse(0, 100), low);
}

#[test]
fn waits_end_at_their_cycle() {
    assert!(!busy_delay(1_000, 240, 1_239));
    assert!(busy_delay(1_000, 240, 1_240));
    assert!(!busy_delay(u32::MAX, 1, u32::MAX));
    assert!(busy_delay(7, 0, 7));
}

#[test]
fn waits_end_after_the_counter_wraps() {
    assert!(busy_delay(u32::MAX, 1, 0));
    let start = u32::MAX - 100;
    assert!(!busy_delay(start, 240, u32::MAX));
    assert!(!busy_delay(start, 240, 138));
    assert!(busy_delay(start, 240, 139));
}

#[test]
fn the_panel_is_brought_up_with_its_ports_and_lines() {
    let write = |reg, value| Op::Write { addr: 0x20, bytes: vec![reg, value] };
    assert_eq!(
        bring_up(),
        vec![
            write(0x06, 0x00),
            write(0x07, 0xC4),
            write(0x02, 0xFF),
            write(0x03, 0x00),
            Op::Leh { high: false },
            Op::Stv { high: true },
        ]
    );
    assert_eq!(VCOM_MV, 1600);
}
