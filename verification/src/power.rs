//! Power: the supply is woken and its rails are switched on in steps, and switched off again.
use vstd::prelude::*;

use crate::display::{Display, DisplayView};
use crate::hardware::{
    contents, read_register, register_read, register_write, write_register, Op, Reply, Step,
};
use crate::panel::{
    control_write, PCA9555_ADDR, PCA_PWRGOOD, PCA_PWRUP, PCA_REG_INPUT1, PCA_REG_OUTPUT1,
    PCA_VCOM_CTRL, PCA_WAKEUP, TPS65185_ADDR, TPS_REG_ENABLE, TPS_REG_PG, TPS_REG_VCOM1,
    TPS_REG_VCOM2,
};

verus! {

/// VCOM voltage of the panel in millivolts; the supply takes it in steps of ten.
pub const VCOM_MV: u16 = 1600;

/// About a millisecond, in processor cycles.
pub const MILLISECOND: u32 = 240_000;

/// How often the power-good flag is asked for at most.
pub const GOOD_READS: u32 = 501;

/// How often the power-good register is asked for at most.
pub const RAILS_READS: u32 = 500;

/// Bits of the power-good register that are all set once the rails are up.
pub const ALL_RAILS: u8 = 0xFA;

/// What a power-on does next.
#[derive(Clone, Copy, Debug, PartialEq, Eq)]
pub enum PowerStage {
    Wakeup,
    PowerUp,
    VcomControl,
    Settle,
    AskGood,
    JudgeGood,
    EnableRails,
    VcomHigh,
    VcomLow,
    AskRails,
    JudgeRails,
    Done,
}

/// The state of a power-on.
pub struct PowerOnView {
    pub stage: PowerStage,
    /// How often the present flag was found missing.
    pub tries: int,
}

/// Whether the expander reports power-good.
pub open spec fn reports_good(reply: Reply) -> bool {
    reply.byte_at(0) & PCA_PWRGOOD != 0
}

/// Whether the supply reports all rails.
pub open spec fn reports_rails(reply: Reply) -> bool {
    reply.byte_at(0) & ALL_RAILS == ALL_RAILS
}

impl PowerOnView {
    /// A power-on that has not begun.
    pub open spec fn starting() -> PowerOnView {
        PowerOnView { stage: PowerStage::Wakeup, tries: 0 }
    }

    /// The power-on after a reply, the value of the control port, and what comes next.
    pub open spec fn next(self, port: u8, reply: Reply) -> (
        PowerOnView,
        u8,
        Step<Seq<u8>, ()>,
    ) {
        match self.stage {
            PowerStage::Wakeup => (
                self.at(PowerStage::PowerUp),
                PCA_WAKEUP,
                Step::Perform(control_write(PCA_WAKEUP)),
            ),
            PowerStage::PowerUp => (
                self.at(PowerStage::VcomControl),
                port | PCA_PWRUP,
                Step::Perform(control_write(port | PCA_PWRUP)),
            ),
            PowerStage::VcomControl => (
                self.at(PowerStage::Settle),
                port | PCA_VCOM_CTRL,
                Step::Perform(control_write(port | PCA_VCOM_CTRL)),
            ),
            PowerStage::Settle => (
                self.at(PowerStage::AskGood),
                port,
                Step::Perform(Op::Delay { cycles: MILLISECOND }),
            ),
            PowerStage::AskGood => (
                self.at(PowerStage::JudgeGood),
                port,
                Step::Perform(register_read(PCA9555_ADDR, PCA_REG_INPUT1, 1)),
            ),
            PowerStage::JudgeGood => if reports_good(reply) {
                (
                    PowerOnView { stage: PowerStage::VcomHigh, tries: 0 },
                    port,
                    Step::Perform(register_write(TPS65185_ADDR, TPS_REG_ENABLE, 0x3F)),
                )
            } else {
                (
                    self.missed(GOOD_READS as int, PowerStage::AskGood, PowerStage::EnableRails),
                    port,
                    Step::Perform(Op::Delay { cycles: MILLISECOND }),
                )
            },
            PowerStage::EnableRails => (
                PowerOnView { stage: PowerStage::VcomHigh, tries: 0 },
                port,
                Step::Perform(register_write(TPS65185_ADDR, TPS_REG_ENABLE, 0x3F)),
            ),
            PowerStage::VcomHigh => (
                self.at(PowerStage::VcomLow),
                port,
                Step::Perform(register_write(TPS65185_ADDR, TPS_REG_VCOM2, 0)),
            ),
            PowerStage::VcomLow => (
                self.at(PowerStage::AskRails),
                port,
                Step::Perform(register_write(TPS65185_ADDR, TPS_REG_VCOM1, 160)),
            ),
            PowerStage::AskRails => (
                self.at(PowerStage::JudgeRails),
                port,
                Step::Perform(register_read(TPS65185_ADDR, TPS_REG_PG, 1)),
            ),
            PowerStage::JudgeRails => if reports_rails(reply) {
                (self.at(PowerStage::Done), port, Step::Finished(()))
            } else {
                (
                    self.missed(RAILS_READS as int, PowerStage::AskRails, PowerStage::Done),
                    port,
                    Step::Perform(Op::Delay { cycles: MILLISECOND }),
                )
            },
            PowerStage::Done => (self, port, Step::Finished(())),
        }
    }

    /// The same tries at another stage.
    pub open spec fn at(self, stage: PowerStage) -> PowerOnView {
        PowerOnView { stage, ..self }
    }

    /// After a flag was found missing: ask `again`, or `after` the last of `reads` go on.
    pub open spec fn missed(self, reads: int, again: PowerStage, after: PowerStage) -> PowerOnView {
        PowerOnView {
            stage: if self.tries + 1 >= reads {
                after
            } else {
                again
            },
            tries: self.tries + 1,
        }
    }

    /// A bound on the pieces of work still to come, whatever the replies.
    pub open spec fn budget(self) -> int {
        let good = 2 * (GOOD_READS - self.tries);
        let rails = 2 * RAILS_READS;
        match self.stage {
            PowerStage::Wakeup => 7 + good + rails,
            PowerStage::PowerUp => 6 + good + rails,
            PowerStage::VcomControl => 5 + good + rails,
            PowerStage::Settle => 4 + good + rails,
            PowerStage::AskGood => 3 + good + rails,
            PowerStage::JudgeGood => 2 + good + rails,
            PowerStage::EnableRails => 3 + rails,
            PowerStage::VcomHigh => 2 + rails,
            PowerStage::VcomLow => 1 + rails,
            PowerStage::AskRails => 2 * (RAILS_READS - self.tries),
            PowerStage::JudgeRails => 2 * (RAILS_READS - self.tries) - 1,
            PowerStage::Done => 0,
        }
    }

    /// The counts of missing flags that can come up.
    pub open spec fn valid(self) -> bool {
        match self.stage {
            PowerStage::AskGood | PowerStage::JudgeGood => 0 <= self.tries < GOOD_READS,
            PowerStage::AskRails | PowerStage::JudgeRails => 0 <= self.tries < RAILS_READS,
            PowerStage::EnableRails => self.tries == GOOD_READS,
            PowerStage::Done => 0 <= self.tries <= RAILS_READS,
            _ => self.tries == 0,
        }
    }
}

/// A power-on, see [`PowerOn::step`].
pub struct PowerOn {
    stage: PowerStage,
    tries: u32,
}

impl View for PowerOn {
    type V = PowerOnView;

    closed spec fn view(&self) -> PowerOnView {
        PowerOnView { stage: self.stage, tries: self.tries as int }
    }
}

impl PowerOn {
    /// The counts are among those that can come up.
    pub open spec fn wf(&self) -> bool {
        self@.valid()
    }

    /// A power-on that has not begun.
    pub fn new() -> (on: PowerOn)
        ensures
            on.wf(),
            on@ == PowerOnView::starting(),
    {
        PowerOn { stage: PowerStage::Wakeup, tries: 0 }
    }

    /// Writes the control port.
    fn control(display: &mut Display, port: u8) -> (step: Step<Vec<u8>, ()>)
        requires
            old(display).wf(),
        ensures
            final(display).wf(),
            final(display)@ == (DisplayView { port, ..old(display)@ }),
            step@ == Step::<Seq<u8>, ()>::Perform(control_write(port)),
    {
        display.set_port(port);
        Step::Perform(write_register(PCA9555_ADDR, PCA_REG_OUTPUT1, port))
    }

    /// Takes the reply to the last piece of work and hands out the next one, or the end. See
    /// [`PowerOnView::next`].
    pub fn step(&mut self, display: &mut Display, reply: Reply) -> (step: Step<Vec<u8>, ()>)
        requires
            old(self).wf(),
            old(display).wf(),
        ensures
            final(self).wf(),
            final(display).wf(),
            ({
                let (state, port, wanted) = old(self)@.next(old(display)@.port, reply);
                &&& final(self)@ == state
                &&& final(display)@ == (DisplayView { port, ..old(display)@ })
                &&& step@ == wanted
            }),
    {
        match self.stage {
            PowerStage::Wakeup => {
                self.stage = PowerStage::PowerUp;
                Self::control(display, PCA_WAKEUP)
            },
            PowerStage::PowerUp => {
                self.stage = PowerStage::VcomControl;
                let port: u8 = display.port() | PCA_PWRUP;
                Self::control(display, port)
            },
            PowerStage::VcomControl => {
                self.stage = PowerStage::Settle;
                let port: u8 = display.port() | PCA_VCOM_CTRL;
                Self::control(display, port)
            },
            PowerStage::Settle => {
                self.stage = PowerStage::AskGood;
                Step::Perform(Op::Delay { cycles: MILLISECOND })
            },
            PowerStage::AskGood => {
                self.stage = PowerStage::JudgeGood;
                Step::Perform(read_register(PCA9555_ADDR, PCA_REG_INPUT1, 1))
            },
            PowerStage::JudgeGood => {
                if reply.byte(0) & PCA_PWRGOOD != 0 {
                    self.stage = PowerStage::VcomHigh;
                    self.tries = 0;
                    return Step::Perform(write_register(TPS65185_ADDR, TPS_REG_ENABLE, 0x3F));
                }
                self.tries = self.tries + 1;
                self.stage = if self.tries >= GOOD_READS {
                    PowerStage::EnableRails
                } else {
                    PowerStage::AskGood
                };
                Step::Perform(Op::Delay { cycles: MILLISECOND })
            },
            PowerStage::EnableRails => {
                self.stage = PowerStage::VcomHigh;
                self.tries = 0;
                Step::Perform(write_register(TPS65185_ADDR, TPS_REG_ENABLE, 0x3F))
            },
            PowerStage::VcomHigh => {
                self.stage = PowerStage::VcomLow;
                let value: u16 = VCOM_MV / 10;
                let high: u8 = (value / 256) as u8;
                Step::Perform(write_register(TPS65185_ADDR, TPS_REG_VCOM2, high))
            },
            PowerStage::VcomLow => {
                self.stage = PowerStage::AskRails;
                let value: u16 = VCOM_MV / 10;
                let low: u8 = (value % 256) as u8;
                Step::Perform(write_register(TPS65185_ADDR, TPS_REG_VCOM1, low))
            },
            PowerStage::AskRails => {
                self.stage = PowerStage::JudgeRails;
                Step::Perform(read_register(TPS65185_ADDR, TPS_REG_PG, 1))
            },
            PowerStage::JudgeRails => {
                if reply.byte(0) & ALL_RAILS == ALL_RAILS {
                    self.stage = PowerStage::Done;
                    return Step::Finished(());
                }
                self.tries = self.tries + 1;
                self.stage = if self.tries >= RAILS_READS {
                    PowerStage::Done
                } else {
                    PowerStage::AskRails
                };
                Step::Perform(Op::Delay { cycles: MILLISECOND })
            },
            PowerStage::Done => Step::Finished(()),
        }
    }
}

/// What switches the supply off: it is kept awake alone for a moment, then all is low.
pub open spec fn power_off_ops() -> Seq<Op<Seq<u8>>> {
    seq![control_write(PCA_WAKEUP), Op::Delay { cycles: MILLISECOND }, control_write(0)]
}

impl Display {
    /// Switches the supply of the panel on. A supply that does not report good in time is taken to
    /// be good.
    pub fn power_on(&self) -> (on: PowerOn)
        ensures
            on.wf(),
            on@ == PowerOnView::starting(),
    {
        PowerOn::new()
    }

    /// Switches the supply of the panel off: the work to do, in order.
    pub fn power_off(&mut self) -> (ops: Vec<Op<Vec<u8>>>)
        requires
            old(self).wf(),
        ensures
            final(self).wf(),
            final(self)@ == (DisplayView { port: 0, ..old(self)@ }),
            contents(ops@) == power_off_ops(),
    {
        let mut ops: Vec<Op<Vec<u8>>> = Vec::new();
        ops.push(write_register(PCA9555_ADDR, PCA_REG_OUTPUT1, PCA_WAKEUP));
        ops.push(Op::Delay { cycles: MILLISECOND });
        self.set_port(0x00);
        ops.push(write_register(PCA9555_ADDR, PCA_REG_OUTPUT1, 0x00));
        assert(contents(ops@) =~= power_off_ops());
        ops
    }
}

/// The power-on and the control port after the first `n` of `replies`, where the port held `port`.
pub open spec fn power_on_reached(port: u8, replies: Seq<Reply>, n: int) -> (PowerOnView, u8)
    decreases n,
{
    if n <= 0 {
        (PowerOnView::starting(), port)
    } else {
        let (on, port) = power_on_reached(port, replies, n - 1);
        let (on, port, _) = on.next(port, replies[n - 1]);
        (on, port)
    }
}

/// What a power-on hands out for reply `n`.
pub open spec fn power_on_handed(port: u8, replies: Seq<Reply>, n: int) -> Step<Seq<u8>, ()> {
    let (on, port) = power_on_reached(port, replies, n);
    on.next(port, replies[n]).2
}

/// How many pieces of work it takes to ask for a flag that is missing `missed` times, where it is
/// asked for `reads` times at most: a wait follows each answer that misses it.
pub open spec fn asking(missed: int, reads: int) -> int {
    2 * missed + (if missed < reads {
        1int
    } else {
        0
    })
}

/// Piece of work `n` of a power-on where power-good is missing `good` times.
pub open spec fn power_on_op(good: int, n: int) -> Op<Seq<u8>> {
    let rails = 4 + asking(good, 501);
    if n == 0 {
        Op::Write { addr: 0x20, bytes: seq![0x03u8, 0x20] }
    } else if n == 1 {
        Op::Write { addr: 0x20, bytes: seq![0x03u8, 0x28] }
    } else if n == 2 {
        Op::Write { addr: 0x20, bytes: seq![0x03u8, 0x38] }
    } else if n == 3 {
        Op::Delay { cycles: 240_000 }
    } else if n < rails {
        if n % 2 == 0 {
            Op::Read { addr: 0x20, send: seq![0x01u8], len: 1 }
        } else {
            Op::Delay { cycles: 240_000 }
        }
    } else if n == rails {
        Op::Write { addr: 0x68, bytes: seq![0x01u8, 0x3F] }
    } else if n == rails + 1 {
        Op::Write { addr: 0x68, bytes: seq![0x04u8, 0x00] }
    } else if n == rails + 2 {
        Op::Write { addr: 0x68, bytes: seq![0x03u8, 0xA0] }
    } else if (n - rails) % 2 == 1 {
        Op::Read { addr: 0x68, send: seq![0x0Fu8], len: 1 }
    } else {
        Op::Delay { cycles: 240_000 }
    }
}

/// The byte that a reply brings, zero where it brings none.
pub open spec fn received(reply: Reply) -> int {
    match reply {
        Reply::Received { bytes, .. } => if bytes@.len() > 0 {
            bytes@[0] as int
        } else {
            0
        },
        _ => 0,
    }
}

/// Bit 6 of the received byte, whatever the other bits.
pub open spec fn good_bit(reply: Reply) -> bool {
    (received(reply) / 64) % 2 == 1
}

/// Bits 7 to 3 and bit 1 of the received byte, all of them, whatever the other bits.
pub open spec fn rails_bits(reply: Reply) -> bool {
    received(reply) / 8 == 31 && (received(reply) / 2) % 2 == 1
}

proof fn lemma_flags(reply: Reply)
    ensures
        reports_good(reply) == good_bit(reply),
        reports_rails(reply) == rails_bits(reply),
{
    let b = reply.byte_at(0);
    assert(b & 0x40 != 0 <==> (b / 64) % 2 == 1) by (bit_vector);
    assert(b & 0xFA == 0xFA <==> (b / 8 == 31 && (b / 2) % 2 == 1)) by (bit_vector);
}

/// After a read of the expander's input, a power-on enables the rails exactly if bit 6 of the byte
/// is set. Else it waits, and reads again, or after the last read enables the rails all the same.
pub proof fn law_power_good(on: PowerOnView, port: u8, reply: Reply, later: Reply)
    requires
        on.stage is JudgeGood,
        0 <= on.tries < 501,
    ensures
        ({
            let (judged, port1, step) = on.next(port, reply);
            let (_, port2, then) = judged.next(port1, later);
            let enable = Step::<Seq<u8>, ()>::Perform(
                Op::Write { addr: 0x68, bytes: seq![0x01u8, 0x3F] },
            );
            &&& port1 == port && port2 == port
            &&& good_bit(reply) ==> step == enable
            &&& !good_bit(reply) ==> {
                &&& step == Step::<Seq<u8>, ()>::Perform(Op::Delay { cycles: 240_000 })
                &&& then == if on.tries == 500 {
                    enable
                } else {
                    Step::<Seq<u8>, ()>::Perform(
                        Op::Read { addr: 0x20, send: seq![0x01u8], len: 1 },
                    )
                }
            }
        }),
{
    lemma_flags(reply);
}

/// After a read of the supply's power-good register, a power-on is over exactly if bits 7 to 3 and
/// bit 1 of the byte are set. Else it waits, and reads again, or after the last read is over all
/// the same.
pub proof fn law_rails_good(on: PowerOnView, port: u8, reply: Reply, later: Reply)
    requires
        on.stage is JudgeRails,
        0 <= on.tries < 500,
    ensures
        ({
            let (judged, port1, step) = on.next(port, reply);
            let (_, port2, then) = judged.next(port1, later);
            &&& port1 == port && port2 == port
            &&& rails_bits(reply) ==> step == Step::<Seq<u8>, ()>::Finished(())
            &&& !rails_bits(reply) ==> {
                &&& step == Step::<Seq<u8>, ()>::Perform(Op::Delay { cycles: 240_000 })
                &&& then == if on.tries == 499 {
                    Step::<Seq<u8>, ()>::Finished(())
                } else {
                    Step::<Seq<u8>, ()>::Perform(
                        Op::Read { addr: 0x68, send: seq![0x0Fu8], len: 1 },
                    )
                }
            }
        }),
{
    lemma_flags(reply);
}

/// The supply is switched off by a port with wake-up alone, a wait, and a port that is all low.
pub proof fn law_power_off()
    ensures
        power_off_ops() == seq![
            Op::Write { addr: 0x20, bytes: seq![0x03u8, 0x20] },
            Op::Delay { cycles: 240_000 },
            Op::Write { addr: 0x20, bytes: seq![0x03u8, 0x00] },
        ],
{
    assert(power_off_ops() =~= seq![
        Op::Write { addr: 0x20, bytes: seq![0x03u8, 0x20] },
        Op::Delay { cycles: 240_000 },
        Op::Write { addr: 0x20, bytes: seq![0x03u8, 0x00] },
    ]);
}

/// Where a power-on stands after `n` replies, if power-good is missing `good` times.
spec fn power_on_stands(port: u8, good: int, n: int) -> (PowerOnView, u8) {
    let rails = 4 + asking(good, GOOD_READS as int);
    let (stage, tries) = if n == 0 {
        (PowerStage::Wakeup, 0)
    } else if n == 1 {
        (PowerStage::PowerUp, 0)
    } else if n == 2 {
        (PowerStage::VcomControl, 0)
    } else if n == 3 {
        (PowerStage::Settle, 0)
    } else if n < rails || (n == rails && good < GOOD_READS) {
        if n % 2 == 0 {
            (PowerStage::AskGood, (n - 4) / 2)
        } else {
            (PowerStage::JudgeGood, (n - 4) / 2)
        }
    } else if n == rails {
        (PowerStage::EnableRails, GOOD_READS as int)
    } else if n == rails + 1 {
        (PowerStage::VcomHigh, 0)
    } else if n == rails + 2 {
        (PowerStage::VcomLow, 0)
    } else if n == rails + 3 + 2 * RAILS_READS {
        (PowerStage::Done, RAILS_READS as int)
    } else if (n - rails) % 2 == 1 {
        (PowerStage::AskRails, (n - rails - 3) / 2)
    } else {
        (PowerStage::JudgeRails, (n - rails - 3) / 2)
    };
    (
        PowerOnView { stage, tries },
        if n == 0 {
            port
        } else if n == 1 {
            0x20
        } else if n == 2 {
            0x28
        } else {
            0x38
        },
    )
}

/// The replies to a power-on of a supply that misses power-good `good` times and its rails `rails`
/// times. Reply 0 starts it, reply `n` answers piece of work `n - 1`.
pub open spec fn power_on_replies(replies: Seq<Reply>, good: int, rails: int) -> bool {
    let first = 8 + asking(good, 501);
    &&& 0 <= good <= 501
    &&& 0 <= rails <= 500
    &&& replies.len() > 7 + asking(good, 501) + asking(rails, 500)
    &&& forall|i: int| 0 <= i < good ==> !good_bit(#[trigger] replies[5 + 2 * i])
    &&& good < 501 ==> good_bit(replies[5 + 2 * good])
    &&& forall|i: int| 0 <= i < rails ==> !rails_bits(#[trigger] replies[first + 2 * i])
    &&& rails < 500 ==> rails_bits(replies[first + 2 * rails])
}

proof fn lemma_power_on_reached(port: u8, replies: Seq<Reply>, good: int, rails: int, n: int)
    requires
        power_on_replies(replies, good, rails),
        0 <= n <= 7 + asking(good, 501) + asking(rails, 500),
    ensures
        power_on_reached(port, replies, n) == power_on_stands(port, good, n),
    decreases n,
{
    if n > 0 {
        lemma_power_on_reached(port, replies, good, rails, n - 1);
        assert(0x20u8 | PCA_PWRUP == 0x28u8 && 0x28u8 | PCA_VCOM_CTRL == 0x38u8) by (bit_vector);
        let first = 8 + asking(good, 501);
        let (on, _) = power_on_reached(port, replies, n - 1);
        lemma_flags(replies[n - 1]);
        if on.stage is JudgeGood {
            assert(n - 1 == 5 + 2 * on.tries);
            assert(on.tries < good ==> !good_bit(replies[5 + 2 * on.tries]));
        }
        if on.stage is JudgeRails {
            assert(n - 1 == first + 2 * on.tries);
            assert(on.tries < rails ==> !rails_bits(replies[first + 2 * on.tries]));
        }
    }
}

/// A power-on raises wake-up, power-up and VCOM control in this order, waits, asks for power-good,
/// then enables the rails, sets VCOM and asks for the rails. It asks until the flag is there, a
/// millisecond apart, and goes on after the last miss.
pub proof fn law_power_on(port: u8, replies: Seq<Reply>, good: int, rails: int)
    requires
        power_on_replies(replies, good, rails),
    ensures
        ({
            let count = 7 + asking(good, 501) + asking(rails, 500);
            &&& forall|n: int|
                0 <= n < count ==> #[trigger] power_on_handed(port, replies, n)
                    == Step::<Seq<u8>, ()>::Perform(power_on_op(good, n))
            &&& power_on_handed(port, replies, count) == Step::<Seq<u8>, ()>::Finished(())
            &&& power_on_reached(port, replies, count).1 == 0x38
        }),
{
    let count = 7 + asking(good, 501) + asking(rails, 500);
    let first = 8 + asking(good, 501);
    assert(0x20u8 | PCA_PWRUP == 0x28u8 && 0x28u8 | PCA_VCOM_CTRL == 0x38u8) by (bit_vector);
    assert forall|n: int| 0 <= n < count implies #[trigger] power_on_handed(port, replies, n)
        == Step::<Seq<u8>, ()>::Perform(power_on_op(good, n)) by {
        lemma_power_on_reached(port, replies, good, rails, n);
        let (on, _) = power_on_reached(port, replies, n);
        lemma_flags(replies[n]);
        if on.stage is JudgeGood {
            assert(n == 5 + 2 * on.tries);
            assert(on.tries < good ==> !good_bit(replies[5 + 2 * on.tries]));
        }
        if on.stage is JudgeRails {
            assert(n == first + 2 * on.tries);
            assert(on.tries < rails ==> !rails_bits(replies[first + 2 * on.tries]));
        }
    }
    lemma_power_on_reached(port, replies, good, rails, count);
    lemma_flags(replies[count]);
}

/// A power-on that is over stays over and hands out nothing more.
pub proof fn law_power_on_over(on: PowerOnView, port: u8, reply: Reply)
    requires
        on.next(port, reply).2 is Finished,
    ensures
        forall|later: Reply|
            (#[trigger] on.next(port, reply).0.next(port, later)) == (
                on.next(port, reply).0,
                port,
                Step::<Seq<u8>, ()>::Finished(()),
            ),
{
}

/// A power-on ends whatever the replies: each piece of work brings it nearer to its end.
pub proof fn law_power_on_ends(on: PowerOnView, port: u8, reply: Reply)
    requires
        on.valid(),
    ensures
        on.next(port, reply).0.valid(),
        on.next(port, reply).2 is Finished || 0 <= on.next(port, reply).0.budget() < on.budget(),
        PowerOnView::starting().budget() == 2009,
{
}

} // verus!
