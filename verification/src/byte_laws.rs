//! What bytes, words and pieces of work are: the fields of bytes as digits, what replies hold, and
//! the order of bytes in rows.
use vstd::prelude::*;

use crate::bits::{keep_mask, lemma_keep_mask, nibble, one_slot, slot};
use crate::display::DisplayView;
use crate::error::Error;
use crate::hardware::{contents, pulse_of, register_read, register_write, Op, Reply, Step};
use crate::panel::{control_write, padded, Action};
use crate::waveform::{group, halves_swapped};

verus! {

/// The slots of a byte are its four digits to base 4, the lowest first.
pub proof fn law_slots(byte: u8)
    ensures
        forall|i: int| 0 <= i < 4 ==> 0 <= #[trigger] slot(byte, i) <= 3,
        byte == slot(byte, 0) + 4 * slot(byte, 1) + 16 * slot(byte, 2) + 64 * slot(byte, 3),
{
}

/// A mask takes one digit out of a byte: what is left and what was taken add up to the byte.
pub proof fn law_masked(byte: u8, i: int)
    requires
        0 <= i < 4,
    ensures
        byte == (byte & keep_mask(i)) + slot(byte, i) * if i == 0 {
            1int
        } else if i == 1 {
            4
        } else if i == 2 {
            16
        } else {
            64
        },
{
    let left = byte & keep_mask(i);
    lemma_keep_mask(byte, i);
    law_slots(byte);
    law_slots(left);
    assert(slot(left, 0) == if i == 0 { 0 } else { slot(byte, 0) });
    assert(slot(left, 1) == if i == 1 { 0 } else { slot(byte, 1) });
    assert(slot(left, 2) == if i == 2 { 0 } else { slot(byte, 2) });
    assert(slot(left, 3) == if i == 3 { 0 } else { slot(byte, 3) });
}

/// A byte with one slot filled is that code at the slot's place.
pub proof fn law_one_slot(i: int, code: int)
    requires
        0 <= i < 4,
        0 <= code < 4,
    ensures
        one_slot(i, code) == code * if i == 0 {
            1int
        } else if i == 1 {
            4
        } else if i == 2 {
            16
        } else {
            64
        },
{
}

/// The gray levels packed in a 16-bit value are its four digits to base 16, the lowest first.
pub proof fn law_nibbles(value: int)
    requires
        0 <= value <= 0xFFFF,
    ensures
        forall|i: int| 0 <= i < 4 ==> 0 <= #[trigger] nibble(value, i) <= 15,
        value == nibble(value, 0) + 16 * nibble(value, 1) + 256 * nibble(value, 2) + 4096 * nibble(
            value,
            3,
        ),
{
}

/// Four neighbouring pixels of a row, the leftmost lowest: the low and the high half of one byte,
/// then those of the next.
pub proof fn law_group(line: Seq<u8>, b: int)
    requires
        0 <= b,
        2 * b + 1 < line.len(),
    ensures
        0 <= group(line, b) <= 0xFFFF,
        nibble(group(line, b), 0) + 16 * nibble(group(line, b), 1) == line[2 * b],
        nibble(group(line, b), 2) + 16 * nibble(group(line, b), 3) == line[2 * b + 1],
{
}

/// In each complete word of four bytes the first two bytes change places with the last two.
pub proof fn law_halves(data: Seq<u8>, w: int)
    requires
        0 <= w,
        4 * w + 4 <= data.len(),
    ensures
        halves_swapped(data).len() == data.len(),
        halves_swapped(data)[4 * w] == data[4 * w + 2],
        halves_swapped(data)[4 * w + 1] == data[4 * w + 3],
        halves_swapped(data)[4 * w + 2] == data[4 * w],
        halves_swapped(data)[4 * w + 3] == data[4 * w + 1],
{
}

/// What is left over behind the complete words stays.
pub proof fn law_halves_rest(data: Seq<u8>, i: int)
    requires
        data.len() - data.len() % 4 <= i < data.len(),
    ensures
        halves_swapped(data)[i] == data[i],
{
}

/// A padded row is the row and then zeros, as long as the transfer buffer.
pub proof fn law_padded(data: Seq<u8>, i: int)
    requires
        data.len() <= 248,
        0 <= i < 248,
    ensures
        padded(data).len() == 248,
        padded(data)[i] == if i < data.len() {
            data[i]
        } else {
            0u8
        },
{
}

/// A pulse is high for its first length and low for its second; without a high part it is low all
/// through, for the low length.
pub proof fn law_pulse(high: u16, low: u16)
    ensures
        pulse_of(high, low).level1 == (high > 0),
        !pulse_of(high, low).level2,
        pulse_of(high, low).length1 == if high > 0 {
            high
        } else {
            low
        },
        pulse_of(high, low).length1 + pulse_of(high, low).length2 == high + low,
{
}

/// What a reply holds: the bytes that were received and whether the device answered, or the error.
pub proof fn law_received(acknowledged: bool, bytes: Vec<u8>, i: int)
    ensures
        ({
            let reply = Reply::Received { acknowledged, bytes };
            &&& reply.error() is None
            &&& reply.acked() == acknowledged
            &&& 0 <= i < bytes@.len() ==> reply.byte_at(i) == bytes@[i]
            &&& !(0 <= i < bytes@.len()) ==> reply.byte_at(i) == 0
        }),
{
}

/// Any other reply holds no bytes and no answer, and only a failure holds an error.
pub proof fn law_not_received(error: Error, i: int)
    ensures
        Reply::Failed(error).error() == Some(error),
        Reply::Done.error() is None,
        !Reply::Failed(error).acked() && !Reply::Done.acked(),
        Reply::Failed(error).byte_at(i) == 0 && Reply::Done.byte_at(i) == 0,
{
}

/// A word is its two bytes, the low one first.
pub proof fn law_word(reply: Reply, i: int)
    ensures
        reply.word_at(i) == reply.byte_at(i) + 256 * reply.byte_at(i + 1),
        reply.word_at(i) as int % 256 == reply.byte_at(i),
        reply.word_at(i) as int / 256 == reply.byte_at(i + 1),
{
}

/// The view of a piece of work holds what the work holds.
pub proof fn law_work_view(op: Op<Vec<u8>>)
    ensures
        match op {
            Op::Write { addr, bytes } => op@ == (Op::Write { addr, bytes: bytes@ }),
            Op::Read { addr, send, len } => op@ == (Op::Read { addr, send: send@, len }),
            Op::Delay { cycles } => op@ == (Op::<Seq<u8>>::Delay { cycles }),
            Op::DelayMillis { millis } => op@ == (Op::<Seq<u8>>::DelayMillis { millis }),
            Op::Stv { high } => op@ == (Op::<Seq<u8>>::Stv { high }),
            Op::Leh { high } => op@ == (Op::<Seq<u8>>::Leh { high }),
            Op::Pulse { pulse, wait } => op@ == (Op::<Seq<u8>>::Pulse { pulse, wait }),
            Op::FinishPulse => op@ == Op::<Seq<u8>>::FinishPulse,
            Op::Load { bytes } => op@ == (Op::Load { bytes: bytes@ }),
            Op::Send => op@ == Op::<Seq<u8>>::Send,
            Op::FinishSend => op@ == Op::<Seq<u8>>::FinishSend,
        },
        (Action::Do(op))@ == Action::Do(op@),
{
}

/// So do the views of an action, of a list of work and of a step.
pub proof fn law_list_view(ops: Seq<Op<Vec<u8>>>, i: int, set: u8, clear: u8)
    requires
        0 <= i < ops.len(),
    ensures
        contents(ops).len() == ops.len(),
        contents(ops)[i] == ops[i]@,
        (Action::<Vec<u8>>::Port { set, clear })@ == (Action::<Seq<u8>>::Port { set, clear }),
        Step::<Vec<u8>, bool>::Perform(ops[i])@ == Step::<Seq<u8>, bool>::Perform(ops[i]@),
        forall|t: bool| #[trigger]
            Step::<Vec<u8>, bool>::Finished(t)@ == Step::<Seq<u8>, bool>::Finished(t),
{
}

/// A register is written by its number and the value, and read by its number.
pub proof fn law_registers(addr: u8, reg: u8, value: u8, len: usize)
    ensures
        register_write(addr, reg, value) == (Op::Write { addr, bytes: seq![reg, value] }),
        register_read(addr, reg, len) == (Op::Read { addr, send: seq![reg], len }),
        control_write(value) == (Op::Write { addr: 0x20, bytes: seq![0x03u8, value] }),
{
}

/// A change of the control port clears some bits, sets some, and writes the value that comes out to
/// the expander; other work leaves the port alone.
pub proof fn law_port_change(set: u8, clear: u8, port: u8, op: Op<Seq<u8>>)
    ensures
        ({
            let change = Action::<Seq<u8>>::Port { set, clear };
            let after = (port & !clear) | set;
            &&& change.port_after(port) == after
            &&& change.resolve(port) == (Op::Write { addr: 0x20, bytes: seq![0x03u8, after] })
            &&& Action::Do(op).port_after(port) == port
            &&& Action::Do(op).resolve(port) == op
        }),
{
}

/// The pixels of a display stand row by row, 960 to a row.
pub proof fn law_pixel_place(d: DisplayView, x: int, y: int)
    ensures
        d.pixel(x, y) == d.pixels[960 * y + x],
{
}

/// A blank display is white all over and has no dirty row; nothing else of it is touched.
pub proof fn law_blank(d: DisplayView, i: int, y: int)
    requires
        0 <= i < 518_400,
        0 <= y < 540,
    ensures
        d.blank().pixels.len() == 518_400,
        d.blank().pixels[i] == 15,
        d.blank().dirty.len() == 540,
        !d.blank().dirty[y],
        d.blank().rotation == d.rotation,
        d.blank().port == d.port,
        d.blank().linked == d.linked,
        DisplayView::initial() == d.blank() <==> d.rotation is Rotate0 && d.port == 0 && d.linked,
{
    assert(DisplayView::initial().pixels =~= d.blank().pixels);
    assert(DisplayView::initial().dirty =~= d.blank().dirty);
}

} // verus!
