//! The ED047TC1 panel: the actions that make up a frame, a row, and the start of the panel.
//!
//! The panel is driven by five wires and by a control port on a PCA9555 expander, whose value is
//! kept by the display; the supply is a TPS65185. Both chips share the I2C bus.
use vstd::prelude::*;

use crate::hardware::{contents, pulse, pulse_of, register_write, write_register, Op};
use std::collections::VecDeque;

verus! {

/// I2C address of the PCA9555 expander.
pub const PCA9555_ADDR: u8 = 0x20;

/// I2C address of the TPS65185 supply.
pub const TPS65185_ADDR: u8 = 0x68;

/// Input register of the control port.
pub const PCA_REG_INPUT1: u8 = 0x01;

/// Output register of the board port.
pub const PCA_REG_OUTPUT0: u8 = 0x02;

/// Output register of the control port.
pub const PCA_REG_OUTPUT1: u8 = 0x03;

/// Direction register of the board port, 0 is output.
pub const PCA_REG_CONFIG0: u8 = 0x06;

/// Direction register of the control port.
pub const PCA_REG_CONFIG1: u8 = 0x07;

/// Control port: the panel's output enable.
pub const PCA_OE: u8 = 0x01;

/// Control port: the panel's mode line.
pub const PCA_MODE: u8 = 0x02;

/// Control port: power-up of the supply.
pub const PCA_PWRUP: u8 = 0x08;

/// Control port: VCOM control of the supply.
pub const PCA_VCOM_CTRL: u8 = 0x10;

/// Control port: wake-up of the supply.
pub const PCA_WAKEUP: u8 = 0x20;

/// Control port: the supply's power-good flag, an input.
pub const PCA_PWRGOOD: u8 = 0x40;

/// Enable register of the supply.
pub const TPS_REG_ENABLE: u8 = 0x01;

/// Low byte of the VCOM voltage.
pub const TPS_REG_VCOM1: u8 = 0x03;

/// High byte of the VCOM voltage.
pub const TPS_REG_VCOM2: u8 = 0x04;

/// Power-good register of the supply.
pub const TPS_REG_PG: u8 = 0x0F;

/// Size of the transfer buffer: a row of codes and a margin.
pub const DMA_BUFFER_SIZE: usize = 248;

/// A piece of work of a scan: a change of bits in the control port, or work for the hardware.
pub enum Action<R> {
    Port { set: u8, clear: u8 },
    Do(Op<R>),
}

impl Action<Vec<u8>> {
    pub open spec fn view(&self) -> Action<Seq<u8>> {
        match self {
            Action::Port { set, clear } => Action::Port { set: *set, clear: *clear },
            Action::Do(op) => Action::Do(op@),
        }
    }
}

impl Action<Seq<u8>> {
    /// The value of the control port after the action.
    pub open spec fn port_after(self, port: u8) -> u8 {
        match self {
            Action::Port { set, clear } => (port & !clear) | set,
            Action::Do(_) => port,
        }
    }

    /// The work for the hardware, where the control port holds `port`.
    pub open spec fn resolve(self, port: u8) -> Op<Seq<u8>> {
        match self {
            Action::Port { .. } => control_write(self.port_after(port)),
            Action::Do(op) => op,
        }
    }
}

/// The write of `port` to the control port.
pub open spec fn control_write(port: u8) -> Op<Seq<u8>> {
    Op::Write { addr: PCA9555_ADDR, bytes: seq![PCA_REG_OUTPUT1, port] }
}

/// Actions that wait to be handed out, first in, first out.
pub struct Queue {
    actions: VecDeque<Action<Vec<u8>>>,
}

impl View for Queue {
    type V = Seq<Action<Seq<u8>>>;

    closed spec fn view(&self) -> Seq<Action<Seq<u8>>> {
        Seq::new(self.actions@.len(), |i: int| self.actions@[i]@)
    }
}

impl Queue {
    /// No actions.
    pub fn new() -> (queue: Queue)
        ensures
            queue@ == Seq::<Action<Seq<u8>>>::empty(),
    {
        let queue = Queue { actions: VecDeque::new() };
        assert(queue@ =~= Seq::<Action<Seq<u8>>>::empty());
        queue
    }

    /// Adds an action at the end.
    pub fn push(&mut self, action: Action<Vec<u8>>)
        ensures
            final(self)@ == old(self)@.push(action@),
    {
        self.actions.push_back(action);
        assert(self@ =~= old(self)@.push(action@));
    }

    /// Whether there are no actions.
    pub fn is_empty(&self) -> (empty: bool)
        ensures
            empty == (self@.len() == 0),
    {
        self.actions.len() == 0
    }

    /// Takes the action at the front.
    pub fn pop(&mut self) -> (action: Option<Action<Vec<u8>>>)
        ensures
            match action {
                Some(a) => {
                    &&& old(self)@.len() > 0
                    &&& a@ == old(self)@[0]
                    &&& final(self)@ == old(self)@.drop_first()
                },
                None => old(self)@.len() == 0 && final(self)@ == old(self)@,
            },
    {
        let action = self.actions.pop_front();
        assert(action is Some ==> self@ =~= old(self)@.drop_first());
        action
    }
}

/// A pulse on the row clock.
pub open spec fn clock(high: u16, low: u16, wait: bool) -> Action<Seq<u8>> {
    Action::Do(Op::Pulse { pulse: pulse_of(high, low), wait })
}

/// Puts a pulse on the row clock in the queue.
fn push_clock(queue: &mut Queue, high: u16, low: u16, wait: bool)
    ensures
        final(queue)@ == old(queue)@.push(clock(high, low, wait)),
{
    queue.push(Action::Do(Op::Pulse { pulse: pulse(high, low), wait }));
}

/// What begins a frame: the mode line, a low start-vertical line under the row clock, then the
/// outputs.
pub open spec fn frame_start_actions() -> Seq<Action<Seq<u8>>> {
    seq![
        Action::Port { set: PCA_MODE, clear: 0 },
        clock(10, 10, true),
        Action::Do(Op::Stv { high: false }),
        Action::Do(Op::Delay { cycles: 240 }),
        clock(100, 100, false),
        Action::Do(Op::Stv { high: true }),
        Action::Do(Op::FinishPulse),
        clock(0, 100, true),
        Action::Port { set: PCA_OE, clear: 0 },
        clock(10, 10, true),
    ]
}

/// Begins a frame.
pub fn frame_start(queue: &mut Queue)
    ensures
        final(queue)@ == old(queue)@ + frame_start_actions(),
{
    queue.push(Action::Port { set: PCA_MODE, clear: 0 });
    push_clock(queue, 10, 10, true);
    queue.push(Action::Do(Op::Stv { high: false }));
    queue.push(Action::Do(Op::Delay { cycles: 240 }));
    push_clock(queue, 100, 100, false);
    queue.push(Action::Do(Op::Stv { high: true }));
    queue.push(Action::Do(Op::FinishPulse));
    push_clock(queue, 0, 100, true);
    queue.push(Action::Port { set: PCA_OE, clear: 0 });
    push_clock(queue, 10, 10, true);
    assert(queue@ =~= old(queue)@ + frame_start_actions());
}

/// What loads the row drivers with the data sent last.
pub open spec fn latch_row_actions() -> Seq<Action<Seq<u8>>> {
    seq![Action::Do(Op::Leh { high: true }), Action::Do(Op::Leh { high: false })]
}

/// Loads the row drivers with the data sent last.
pub fn latch_row(queue: &mut Queue)
    ensures
        final(queue)@ == old(queue)@ + latch_row_actions(),
{
    queue.push(Action::Do(Op::Leh { high: true }));
    queue.push(Action::Do(Op::Leh { high: false }));
    assert(queue@ =~= old(queue)@ + latch_row_actions());
}

/// What clocks past a row without data.
pub open spec fn skip_actions() -> Seq<Action<Seq<u8>>> {
    seq![clock(45, 5, true)]
}

/// Clocks past a row without data. The pulse is seen through, so that the clock is free for the
/// next row.
pub fn skip(queue: &mut Queue)
    ensures
        final(queue)@ == old(queue)@ + skip_actions(),
{
    push_clock(queue, 45, 5, true);
    assert(queue@ =~= old(queue)@ + skip_actions());
}

/// What drives a row for `output_time` microseconds: latch it, then send the transfer buffer while
/// the row clock is high.
pub open spec fn output_row_actions(output_time: u16) -> Seq<Action<Seq<u8>>> {
    latch_row_actions() + seq![
        clock(output_time, 50, false),
        Action::Do(Op::Send),
        Action::Do(Op::FinishSend),
        Action::Do(Op::FinishPulse),
    ]
}

/// Drives a row for `output_time` microseconds.
pub fn output_row(queue: &mut Queue, output_time: u16)
    ensures
        final(queue)@ == old(queue)@ + output_row_actions(output_time),
{
    latch_row(queue);
    push_clock(queue, output_time, 50, false);
    queue.push(Action::Do(Op::Send));
    queue.push(Action::Do(Op::FinishSend));
    queue.push(Action::Do(Op::FinishPulse));
    assert(queue@ =~= old(queue)@ + output_row_actions(output_time));
}

/// What ends a frame: outputs and mode line off, and two pulses.
pub open spec fn frame_end_actions() -> Seq<Action<Seq<u8>>> {
    seq![
        Action::Port { set: 0, clear: PCA_OE | PCA_MODE },
        clock(10, 10, true),
        clock(10, 10, true),
    ]
}

/// Ends a frame.
pub fn frame_end(queue: &mut Queue)
    ensures
        final(queue)@ == old(queue)@ + frame_end_actions(),
{
    queue.push(Action::Port { set: 0, clear: PCA_OE | PCA_MODE });
    push_clock(queue, 10, 10, true);
    push_clock(queue, 10, 10, true);
    assert(queue@ =~= old(queue)@ + frame_end_actions());
}

/// `data`, followed by zeros up to the size of the transfer buffer.
pub open spec fn padded(data: Seq<u8>) -> Seq<u8> {
    data + Seq::new((DMA_BUFFER_SIZE - data.len()) as nat, |i: int| 0u8)
}

/// What puts a row in the transfer buffer.
pub open spec fn set_buffer_actions(data: Seq<u8>) -> Seq<Action<Seq<u8>>> {
    seq![Action::Do(Op::Load { bytes: padded(data) })]
}

/// Puts a row in the transfer buffer.
pub fn set_buffer(queue: &mut Queue, data: Vec<u8>)
    requires
        data@.len() <= DMA_BUFFER_SIZE,
    ensures
        final(queue)@ == old(queue)@ + set_buffer_actions(data@),
{
    let ghost row = data@;
    let mut bytes: Vec<u8> = data;
    bytes.resize(DMA_BUFFER_SIZE, 0);
    assert(bytes@ =~= padded(row));
    queue.push(Action::Do(Op::Load { bytes }));
    assert(queue@ =~= old(queue)@ + set_buffer_actions(row));
}

/// What switches the outputs of the panel: nothing where they are as wanted.
pub open spec fn set_output_enabled_actions(was: bool, enabled: bool) -> Seq<Action<Seq<u8>>> {
    if was == enabled {
        seq![]
    } else if enabled {
        seq![Action::Port { set: PCA_OE, clear: 0 }]
    } else {
        seq![Action::Port { set: 0, clear: PCA_OE }]
    }
}

/// Switches the outputs of the panel, which are on where `was` holds.
pub fn set_output_enabled(queue: &mut Queue, was: bool, enabled: bool)
    ensures
        final(queue)@ == old(queue)@ + set_output_enabled_actions(was, enabled),
{
    if was != enabled {
        if enabled {
            queue.push(Action::Port { set: PCA_OE, clear: 0 });
        } else {
            queue.push(Action::Port { set: 0, clear: PCA_OE });
        }
    }
    assert(queue@ =~= old(queue)@ + set_output_enabled_actions(was, enabled));
}

/// What readies the expander and the panel's lines: the board port all high, the control port all
/// low with bits 2, 6 and 7 as inputs, the latch low and start-vertical high.
pub open spec fn bring_up_ops() -> Seq<Op<Seq<u8>>> {
    seq![
        register_write(PCA9555_ADDR, PCA_REG_CONFIG0, 0x00),
        register_write(PCA9555_ADDR, PCA_REG_CONFIG1, 0xC4),
        register_write(PCA9555_ADDR, PCA_REG_OUTPUT0, 0xFF),
        register_write(PCA9555_ADDR, PCA_REG_OUTPUT1, 0x00),
        Op::Leh { high: false },
        Op::Stv { high: true },
    ]
}

/// The work that readies the expander and the panel's lines before the bus is set up.
pub fn bring_up() -> (ops: Vec<Op<Vec<u8>>>)
    ensures
        contents(ops@) == bring_up_ops(),
{
    let mut ops: Vec<Op<Vec<u8>>> = Vec::new();
    ops.push(write_register(PCA9555_ADDR, PCA_REG_CONFIG0, 0x00));
    ops.push(write_register(PCA9555_ADDR, PCA_REG_CONFIG1, 0xC4));
    ops.push(write_register(PCA9555_ADDR, PCA_REG_OUTPUT0, 0xFF));
    ops.push(write_register(PCA9555_ADDR, PCA_REG_OUTPUT1, 0x00));
    ops.push(Op::Leh { high: false });
    ops.push(Op::Stv { high: true });
    assert(contents(ops@) =~= bring_up_ops());
    ops
}

} // verus!
