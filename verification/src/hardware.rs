//! The boundary to the hardware: the work that the library asks for, one piece at a time, and the
//! replies that it gets.
//!
//! An operation that takes more than one piece of work is a value with a `step` method. The caller
//! passes the reply to the last piece of work ([`Reply::Done`] at the start) and gets the next
//! piece, until the operation is finished. Operations on one display run one at a time.
use vstd::prelude::*;

use crate::error::Error;

verus! {

/// A pulse on the row clock: a level for some microseconds, then a level for some more. A length
/// of zero ends the pulse.
#[derive(Clone, Copy, Debug, PartialEq, Eq)]
pub struct Pulse {
    pub level1: bool,
    pub length1: u16,
    pub level2: bool,
    pub length2: u16,
}

/// A pulse that is high for `high` and then low for `low`. Without a high part the clock stays low.
pub open spec fn pulse_of(high: u16, low: u16) -> Pulse {
    if high > 0 {
        Pulse { level1: true, length1: high, level2: false, length2: low }
    } else {
        Pulse { level1: false, length1: low, level2: false, length2: 0 }
    }
}

/// A pulse that is high for `high` and then low for `low`, see [`pulse_of`].
pub fn pulse(high: u16, low: u16) -> (p: Pulse)
    ensures
        p == pulse_of(high, low),
{
    if high > 0 {
        Pulse { level1: true, length1: high, level2: false, length2: low }
    } else {
        Pulse { level1: false, length1: low, level2: false, length2: 0 }
    }
}

/// One piece of work for the hardware. `R` holds bytes: `Vec<u8>`, or `Seq<u8>` in contracts.
#[derive(Clone, Debug, PartialEq, Eq)]
pub enum Op<R> {
    /// Write `bytes` to the I2C device at `addr`. Whether it answers makes no difference.
    Write { addr: u8, bytes: R },
    /// Write `send` to the I2C device at `addr`, unless it is empty, then read `len` bytes into a
    /// buffer of zeros. The reply is [`Reply::Received`].
    Read { addr: u8, send: R, len: usize },
    /// Wait for this many processor cycles.
    Delay { cycles: u32 },
    /// Wait for this many milliseconds.
    DelayMillis { millis: u32 },
    /// Set the start-vertical line.
    Stv { high: bool },
    /// Set the latch-enable line.
    Leh { high: bool },
    /// Start a pulse on the row clock, and with `wait` see it through. May fail.
    Pulse { pulse: Pulse, wait: bool },
    /// See the started pulse through, if one is still running. May fail.
    FinishPulse,
    /// Put these bytes in the transfer buffer.
    Load { bytes: R },
    /// Start sending the transfer buffer to the panel. May fail.
    Send,
    /// See the transfer through. May fail.
    FinishSend,
}

impl Op<Vec<u8>> {
    pub open spec fn view(&self) -> Op<Seq<u8>> {
        match self {
            Op::Write { addr, bytes } => Op::Write { addr: *addr, bytes: bytes@ },
            Op::Read { addr, send, len } => Op::Read { addr: *addr, send: send@, len: *len },
            Op::Delay { cycles } => Op::Delay { cycles: *cycles },
            Op::DelayMillis { millis } => Op::DelayMillis { millis: *millis },
            Op::Stv { high } => Op::Stv { high: *high },
            Op::Leh { high } => Op::Leh { high: *high },
            Op::Pulse { pulse, wait } => Op::Pulse { pulse: *pulse, wait: *wait },
            Op::FinishPulse => Op::FinishPulse,
            Op::Load { bytes } => Op::Load { bytes: bytes@ },
            Op::Send => Op::Send,
            Op::FinishSend => Op::FinishSend,
        }
    }
}

/// The contents of a list of work.
pub open spec fn contents(ops: Seq<Op<Vec<u8>>>) -> Seq<Op<Seq<u8>>> {
    Seq::new(ops.len(), |i: int| ops[i]@)
}

/// The write of `value` to register `reg` of the device at `addr`.
pub open spec fn register_write(addr: u8, reg: u8, value: u8) -> Op<Seq<u8>> {
    Op::Write { addr, bytes: seq![reg, value] }
}

/// The read of `len` bytes from register `reg` of the device at `addr`.
pub open spec fn register_read(addr: u8, reg: u8, len: usize) -> Op<Seq<u8>> {
    Op::Read { addr, send: seq![reg], len }
}

/// The write of `value` to register `reg` of the device at `addr`.
pub fn write_register(addr: u8, reg: u8, value: u8) -> (op: Op<Vec<u8>>)
    ensures
        op@ == register_write(addr, reg, value),
{
    let bytes: Vec<u8> = vec![reg, value];
    assert(bytes@ =~= seq![reg, value]);
    Op::Write { addr, bytes }
}

/// The read of `len` bytes from register `reg` of the device at `addr`.
pub fn read_register(addr: u8, reg: u8, len: usize) -> (op: Op<Vec<u8>>)
    ensures
        op@ == register_read(addr, reg, len),
{
    let send: Vec<u8> = vec![reg];
    assert(send@ =~= seq![reg]);
    Op::Read { addr, send, len }
}

/// What became of a piece of work.
#[derive(Clone, Debug, PartialEq, Eq)]
pub enum Reply {
    /// It is done, or none was asked for yet.
    Done,
    /// It failed.
    Failed(Error),
    /// What an [`Op::Read`] left in its buffer, and whether the device answered.
    Received { acknowledged: bool, bytes: Vec<u8> },
}

impl Reply {
    /// The error that the reply reports.
    pub open spec fn error(&self) -> Option<Error> {
        match self {
            Reply::Failed(e) => Some(*e),
            _ => None,
        }
    }

    /// Whether a device answered.
    pub open spec fn acked(&self) -> bool {
        match self {
            Reply::Received { acknowledged, .. } => *acknowledged,
            _ => false,
        }
    }

    /// Byte `i` of what was received, zero where there is none.
    pub open spec fn byte_at(&self, i: int) -> u8 {
        match self {
            Reply::Received { bytes, .. } => if 0 <= i < bytes@.len() {
                bytes@[i]
            } else {
                0
            },
            _ => 0,
        }
    }

    /// The two bytes from `i` on as a number, the low byte first.
    pub open spec fn word_at(&self, i: int) -> u16 {
        (self.byte_at(i) + 256 * self.byte_at(i + 1)) as u16
    }

    /// The error that the reply reports.
    pub fn failure(&self) -> (e: Option<Error>)
        ensures
            e == self.error(),
    {
        match self {
            Reply::Failed(e) => Some(*e),
            _ => None,
        }
    }

    /// Whether a device answered.
    pub fn acknowledged(&self) -> (yes: bool)
        ensures
            yes == self.acked(),
    {
        match self {
            Reply::Received { acknowledged, .. } => *acknowledged,
            _ => false,
        }
    }

    /// Byte `i` of what was received, zero where there is none.
    pub fn byte(&self, i: usize) -> (b: u8)
        ensures
            b == self.byte_at(i as int),
    {
        match self {
            Reply::Received { bytes, .. } => if i < bytes.len() {
                bytes[i]
            } else {
                0
            },
            _ => 0,
        }
    }

    /// The two bytes from `i` on as a number, the low byte first.
    pub fn word(&self, i: usize) -> (w: u16)
        requires
            i < usize::MAX,
        ensures
            w == self.word_at(i as int),
            w == self.byte_at(i as int) + 256 * self.byte_at(i + 1),
    {
        self.byte(i) as u16 + 256 * self.byte(i + 1) as u16
    }

    /// The first two bytes as a number in two's complement, the low byte first.
    pub fn signed_word(&self) -> (w: i16)
        ensures
            w == if self.word_at(0) < 0x8000 {
                self.word_at(0) as int
            } else {
                self.word_at(0) - 0x10000
            },
            w == self.byte_at(0) + 256 * self.byte_at(1) - if self.byte_at(1) >= 0x80 {
                0x10000int
            } else {
                0
            },
    {
        let word: u16 = self.word(0);
        assert(word < 0x8000 ==> word as i16 == word) by (bit_vector);
        assert(word >= 0x8000 ==> word as i16 == word - 0x10000) by (bit_vector);
        #[verifier::truncate]
        (word as i16)
    }
}

/// What an operation wants next, or what came of it.
#[derive(Clone, Debug, PartialEq, Eq)]
pub enum Step<R, T> {
    Perform(Op<R>),
    Finished(T),
}

impl<T> Step<Vec<u8>, T> {
    pub open spec fn view(&self) -> Step<Seq<u8>, T> {
        match self {
            Step::Perform(op) => Step::Perform(op@),
            Step::Finished(t) => Step::Finished(*t),
        }
    }
}

/// Whether a wait of `wait_cycles` that began at cycle count `start` is over at count `now`, within
/// one turn of the counter. The counter wraps to zero after its last value.
pub fn busy_delay(start: u32, wait_cycles: u32, now: u32) -> (over: bool)
    ensures
        over == ((now - start) % 0x1_0000_0000 >= wait_cycles),
{
    now.wrapping_sub(start) >= wait_cycles
}

/// A wait ends after its number of cycles and not before, also where the counter wraps in between:
/// `passed` cycles after `start`, it is over exactly if `passed` is at least `wait_cycles`.
pub proof fn law_wait(start: u32, wait_cycles: u32, passed: u32, now: u32)
    requires
        now == (start + passed) % 0x1_0000_0000,
    ensures
        (now - start) % 0x1_0000_0000 >= wait_cycles <==> passed >= wait_cycles,
{
}

} // verus!
