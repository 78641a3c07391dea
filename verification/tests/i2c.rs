use epaper::bus::i2c_found;
use epaper::hardware::{Op, Reply};
use epaper::Display;

#[test]
fn registers_are_asked_for() {
    let display = Display::new();
    assert_eq!(
        display.i2c_read_u8(0x55, 0x2C),
        Op::Read { addr: 0x55, send: vec![0x2C], len: 1 }
    );
    assert_eq!(
        display.i2c_read_u16(0x55, 0x08),
        Op::Read { addr: 0x55, send: vec![0x08], len: 2 }
    );
    assert_eq!(
        display.i2c_read_i16(0x55, 0x0C),
        Op::Read { addr: 0x55, send: vec![0x0C], len: 2 }
    );
}

#[test]
fn words_are_little_endian() {
    let reply = Reply::Received { acknowledged: true, bytes: vec![0x34, 0x92] };
    assert_eq!(reply.byte(0), 0x34);
    assert_eq!(reply.word(0), 0x9234);
    assert_eq!(reply.signed_word(), -0x6DCC);
    let reply = Reply::Received { acknowledged: true, bytes: vec![0xFF, 0x7F] };
    assert_eq!(reply.signed_word(), 32_767);
    let reply = Reply::Received { acknowledged: true, bytes: vec![0xFF, 0xFF] };
    assert_eq!(reply.signed_word(), -1);
}

#[test]
fn a_missing_answer_reads_as_zero() {
    let silent = Reply::Received { acknowledged: false, bytes: vec![] };
    assert_eq!((silent.byte(0), silent.word(0), silent.signed_word()), (0, 0, 0));
    assert_eq!((Reply::Done.byte(0), Reply::Done.acknowledged()), (0, false));
}

#[test]
fn a_bus_scan_asks_every_address() {
    let work = Display::new().i2c_scan();
    assert_eq!(work.len(), 128);
    for (addr, op) in work.iter().enumerate() {
        assert_eq!(*op, Op::Read { addr: addr as u8, send: vec![], len: 1 });
    }
}

#[test]
fn a_bus_scan_finds_those_that_answer() {
    let replies: Vec<Reply> = (0..128u8)
        .map(|a| Reply::Received {
            acknowledged: [0x00, 0x20, 0x68, 0x7F].contains(&a),
            bytes: vec![0],
        })
        .collect();
    assert_eq!(i2c_found(&replies), vec![0x00, 0x20, 0x68, 0x7F]);
    assert_eq!(i2c_found(&vec![]), Vec::<u8>::new());
}
