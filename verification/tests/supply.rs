use epaper::hardware::{Op, Reply, Step};
use epaper::Display;

fn write(addr: u8, reg: u8, value: u8) -> Op<Vec<u8>> {
    Op::Write { addr, bytes: vec![reg, value] }
}

fn read(addr: u8, reg: u8) -> Op<Vec<u8>> {
    Op::Read { addr, send: vec![reg], len: 1 }
}

fn received(byte: u8) -> Reply {
    Reply::Received { acknowledged: true, bytes: vec![byte] }
}

/// Runs a power-on against a supply that misses its flags so many times.
fn power_on(display: &mut Display, good: usize, rails: usize) -> Vec<Op<Vec<u8>>> {
    let mut on = display.power_on();
    let mut reply = Reply::Done;
    let mut work = Vec::new();
    let (mut asked_good, mut asked_rails) = (0, 0);
    loop {
        match on.step(display, reply) {
            Step::Finished(()) => return work,
            Step::Perform(op) => {
                reply = if op == read(0x20, 0x01) {
                    asked_good += 1;
                    received(if asked_good > good { 0x40 } else { 0xBF })
                } else if op == read(0x68, 0x0F) {
                    asked_rails += 1;
                    received(if asked_rails > rails { 0xFA } else { 0xF8 })
                } else {
                    Reply::Done
                };
                work.push(op);
            }
        }
    }
}

#[test]
fn power_on_of_a_ready_supply() {
    let mut display = Display::new();
    let work = power_on(&mut display, 0, 0);
    assert_eq!(
        work,
        vec![
            write(0x20, 0x03, 0x20),
            write(0x20, 0x03, 0x28),
            write(0x20, 0x03, 0x38),
            Op::Delay { cycles: 240_000 },
            read(0x20, 0x01),
            write(0x68, 0x01, 0x3F),
            write(0x68, 0x04, 0x00),
            write(0x68, 0x03, 0xA0),
            read(0x68, 0x0F),
        ]
    );
}

#[test]
fn power_on_asks_again_a_millisecond_later() {
    let mut display = Display::new();
    let work = power_on(&mut display, 2, 1);
    assert_eq!(
        work[4..9],
        [
            read(0x20, 0x01),
            Op::Delay { cycles: 240_000 },
            read(0x20, 0x01),
            Op::Delay { cycles: 240_000 },
            read(0x20, 0x01),
        ]
    );
    assert_eq!(
        work[9..],
        [
            write(0x68, 0x01, 0x3F),
            write(0x68, 0x04, 0x00),
            write(0x68, 0x03, 0xA0),
            read(0x68, 0x0F),
            Op::Delay { cycles: 240_000 },
            read(0x68, 0x0F),
        ]
    );
}

#[test]
fn power_on_goes_on_after_the_last_miss() {
    let mut display = Display::new();
    let work = power_on(&mut display, usize::MAX, usize::MAX);
    assert_eq!(work.iter().filter(|op| **op == read(0x20, 0x01)).count(), 501);
    assert_eq!(work.iter().filter(|op| **op == read(0x68, 0x0F)).count(), 500);
    assert_eq!(work.len(), 7 + 2 * 501 + 2 * 500);
    assert_eq!(work[4 + 2 * 501], write(0x68, 0x01, 0x3F));
    assert_eq!(work[work.len() - 1], Op::Delay { cycles: 240_000 });
}

#[test]
fn power_on_at_the_last_try_is_not_a_miss() {
    let mut display = Display::new();
    let work = power_on(&mut display, 500, 499);
    assert_eq!(work.len(), 7 + 1001 + 999);
    assert_eq!(work[work.len() - 1], read(0x68, 0x0F));
}

#[test]
fn a_silent_supply_counts_as_missing() {
    let mut display = Display::new();
    let mut on = display.power_on();
    for _ in 0..5 {
        on.step(&mut display, Reply::Done);
    }
    let silent = Reply::Received { acknowledged: false, bytes: vec![0] };
    assert_eq!(on.step(&mut display, silent), Step::Perform(Op::Delay { cycles: 240_000 }));
}

#[test]
fn a_finished_power_on_stays_finished() {
    let mut display = Display::new();
    let mut on = display.power_on();
    let mut steps = 0;
    while on.step(&mut display, received(0xFF)) != Step::Finished(()) {
        steps += 1;
    }
    assert_eq!(steps, 9);
    assert_eq!(on.step(&mut display, Reply::Done), Step::Finished(()));
}

#[test]
fn power_off_keeps_the_supply_awake_for_a_moment() {
    let mut display = Display::new();
    power_on(&mut display, 0, 0);
    assert_eq!(
        display.power_off(),
        vec![
            write(0x20, 0x03, 0x20),
            Op::Delay { cycles: 240_000 },
            write(0x20, 0x03, 0x00),
        ]
    );
}
