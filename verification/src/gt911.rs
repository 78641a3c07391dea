//! The GT911 capacitive touch controller (polling, no interrupt pin).
use vstd::prelude::*;

use crate::display::Display;
use crate::hardware::{contents, Op, Reply, Step};

verus! {

/// The usual I2C address of the controller.
pub const GT911_ADDR_PRIMARY: u8 = 0x5D;

/// The other I2C address that the controller can have.
pub const GT911_ADDR_ALT: u8 = 0x14;

/// Bytes of the configuration block, registers 0x8047 to 0x80FE.
pub const CFG_LEN: usize = 184;

/// What a touch controller driver holds.
pub struct Gt911View {
    pub addr: u8,
    /// The largest column that the controller reports.
    pub x_max: u16,
    /// The largest row that the controller reports.
    pub y_max: u16,
}

/// The write of bytes `bytes` to the device at `addr`.
pub open spec fn bytes_write(addr: u8, bytes: Seq<u8>) -> Op<Seq<u8>> {
    Op::Write { addr, bytes }
}

/// The read of `len` bytes from the 16-bit register of the device at `addr`.
pub open spec fn wide_read(addr: u8, high: u8, low: u8, len: usize) -> Op<Seq<u8>> {
    Op::Read { addr, send: seq![high, low], len }
}

/// The read of `len` bytes from the 16-bit register of the device at `addr`.
fn read_wide(addr: u8, high: u8, low: u8, len: usize) -> (op: Op<Vec<u8>>)
    ensures
        op@ == wide_read(addr, high, low, len),
{
    let send: Vec<u8> = vec![high, low];
    assert(send@ =~= seq![high, low]);
    Op::Read { addr, send, len }
}

/// The write of one byte to the 16-bit register of the device at `addr`.
fn write_wide(addr: u8, high: u8, low: u8, value: u8) -> (op: Op<Vec<u8>>)
    ensures
        op@ == bytes_write(addr, seq![high, low, value]),
{
    let bytes: Vec<u8> = vec![high, low, value];
    assert(bytes@ =~= seq![high, low, value]);
    Op::Write { addr, bytes }
}

/// The read of the status register.
pub open spec fn status_read(addr: u8) -> Op<Seq<u8>> {
    wide_read(addr, 0x81, 0x4E, 1)
}

/// The write that clears the status register, and with it the buffer-ready flag.
pub open spec fn status_clear(addr: u8) -> Op<Seq<u8>> {
    bytes_write(addr, seq![0x81, 0x4E, 0x00])
}

/// The configuration block for a panel of columns up to `x_max` and rows up to `y_max`: five
/// touch points, interrupts on falling edges, touch level 1, leave level 16, no deep sleep, and
/// a scan every 5 ms.
pub open spec fn config_block(x_max: u16, y_max: u16) -> Seq<u8> {
    Seq::new(
        CFG_LEN as nat,
        |i: int|
            if i == 0 {
                (x_max % 256) as u8
            } else if i == 1 {
                (x_max / 256) as u8
            } else if i == 2 {
                (y_max % 256) as u8
            } else if i == 3 {
                (y_max / 256) as u8
            } else if i == 4 || i == 13 {
                0x05
            } else if i == 5 || i == 10 {
                0x01
            } else if i == 11 {
                0x10
            } else {
                0x00
            },
    )
}

/// The sum of bytes.
pub open spec fn byte_sum(bytes: Seq<u8>) -> int
    decreases bytes.len(),
{
    if bytes.len() == 0 {
        0
    } else {
        byte_sum(bytes.drop_last()) + bytes.last()
    }
}

/// The checksum of a configuration block: the two's complement of its sum.
pub open spec fn config_checksum(block: Seq<u8>) -> u8 {
    ((256 - byte_sum(block) % 256) % 256) as u8
}

/// What configures a touch controller: the block, its checksum, and the word to take them.
pub open spec fn configure_ops(addr: u8, x_max: u16, y_max: u16) -> Seq<Op<Seq<u8>>> {
    let block = config_block(x_max, y_max);
    seq![
        bytes_write(addr, seq![0x80u8, 0x47] + block),
        bytes_write(addr, seq![0x80, 0xFF, config_checksum(block)]),
        bytes_write(addr, seq![0x81, 0x00, 0x01]),
    ]
}

/// What readies a touch controller: coordinate output, and no stale buffer-ready flag.
pub open spec fn init_ops(addr: u8) -> Seq<Op<Seq<u8>>> {
    seq![bytes_write(addr, seq![0x80, 0x40, 0x00]), status_clear(addr)]
}

/// The smaller of two numbers.
pub open spec fn least(a: u16, b: u16) -> u16 {
    if a <= b {
        a
    } else {
        b
    }
}

/// The touch point in a reply: the column is kept within the panel, the row too and counted from
/// the other end.
pub open spec fn touch_point(touch: Gt911View, reply: Reply) -> (u16, u16) {
    (
        least(reply.word_at(2), touch.x_max),
        (touch.y_max - least(reply.word_at(0), touch.y_max)) as u16,
    )
}

/// The sum of a configuration block and its checksum is a multiple of 256, which is what the
/// controller asks of a valid configuration.
pub proof fn law_config_checksum(x_max: u16, y_max: u16)
    ensures
        ({
            let block = config_block(x_max, y_max);
            (byte_sum(block) + config_checksum(block)) % 256 == 0
        }),
{
}

/// A touch point lies on the panel, and a row that the controller reports within its range is
/// mirrored.
pub proof fn law_touch_point(touch: Gt911View, reply: Reply)
    ensures
        touch_point(touch, reply).0 <= touch.x_max,
        touch_point(touch, reply).1 <= touch.y_max,
        reply.word_at(2) <= touch.x_max ==> touch_point(touch, reply).0 == reply.word_at(2),
        reply.word_at(0) <= touch.y_max ==> touch_point(touch, reply).1 + reply.word_at(0)
            == touch.y_max,
{
}

/// The touch point on the bytes that were received: the third and fourth are the column, the first
/// and second the row, each the low byte first. The column is at most `x_max`; the row is counted
/// from the other end, at most `y_max` away.
pub proof fn law_touch_bytes(touch: Gt911View, acknowledged: bool, bytes: Vec<u8>)
    requires
        bytes@.len() >= 4,
    ensures
        ({
            let (column, row) = touch_point(touch, Reply::Received { acknowledged, bytes });
            let x = bytes@[2] + 256 * bytes@[3];
            let y = bytes@[0] + 256 * bytes@[1];
            &&& column == if x <= touch.x_max {
                x
            } else {
                touch.x_max as int
            }
            &&& row == if y <= touch.y_max {
                touch.y_max - y
            } else {
                0
            }
        }),
{
}

/// One raw column further right is one column further right, and one raw row further down one row
/// further up, as far as the range goes.
pub proof fn law_touch_moves(touch: Gt911View, here: Reply, there: Reply)
    requires
        there.byte_at(2) + 256 * there.byte_at(3) == here.byte_at(2) + 256 * here.byte_at(3) + 1,
        there.byte_at(0) + 256 * there.byte_at(1) == here.byte_at(0) + 256 * here.byte_at(1) + 1,
    ensures
        touch_point(touch, there).0 == if touch_point(touch, here).0 < touch.x_max {
            touch_point(touch, here).0 + 1
        } else {
            touch.x_max as int
        },
        touch_point(touch, there).1 == if touch_point(touch, here).1 > 0 {
            touch_point(touch, here).1 - 1
        } else {
            0
        },
{
}

/// The sum of bytes: none make zero, and one more adds its value.
pub proof fn law_byte_sum(bytes: Seq<u8>, more: u8)
    ensures
        byte_sum(seq![]) == 0,
        byte_sum(bytes.push(more)) == byte_sum(bytes) + more,
{
    assert(bytes.push(more).drop_last() =~= bytes);
}

/// A configuration block holds the ranges in its first two words, the low byte first, five touch
/// points, falling edges, the two levels and the scan period, and zeros else.
pub proof fn law_config_block(x_max: u16, y_max: u16, i: int)
    requires
        14 <= i < 184,
    ensures
        ({
            let block = config_block(x_max, y_max);
            &&& block.len() == 184
            &&& block[0] + 256 * block[1] == x_max
            &&& block[2] + 256 * block[3] == y_max
            &&& block[4] == 5 && block[5] == 1
            &&& block[6] == 0 && block[7] == 0 && block[8] == 0 && block[9] == 0
            &&& block[10] == 1 && block[11] == 16 && block[12] == 0 && block[13] == 5
            &&& block[i] == 0
        }),
{
}

/// A controller is configured by three writes: the block to register 0x8047, a checksum to 0x80FF
/// that makes the sum a multiple of 256, and a one to 0x8100.
pub proof fn law_configure(addr: u8, x_max: u16, y_max: u16)
    ensures
        ({
            let ops = configure_ops(addr, x_max, y_max);
            let block = config_block(x_max, y_max);
            let checksum = ((0x10000 - byte_sum(block)) % 256) as u8;
            &&& ops.len() == 3
            &&& ops[0] == (Op::Write { addr, bytes: seq![0x80u8, 0x47] + block })
            &&& ops[1] == (Op::Write { addr, bytes: seq![0x80u8, 0xFF, checksum] })
            &&& ops[2] == (Op::Write { addr, bytes: seq![0x81u8, 0x00, 0x01] })
            &&& (byte_sum(block) + checksum) % 256 == 0
        }),
{
}

/// What is asked of the controller and written to it, byte for byte.
pub proof fn law_touch_work(addr: u8, high: u8, low: u8, len: usize, bytes: Seq<u8>)
    ensures
        wide_read(addr, high, low, len) == (Op::Read { addr, send: seq![high, low], len }),
        bytes_write(addr, bytes) == (Op::Write { addr, bytes }),
        status_read(addr) == (Op::Read { addr, send: seq![0x81u8, 0x4E], len: 1 }),
        status_clear(addr) == (Op::Write { addr, bytes: seq![0x81u8, 0x4E, 0x00] }),
        init_ops(addr).len() == 2,
        init_ops(addr)[0] == (Op::Write { addr, bytes: seq![0x80u8, 0x40, 0x00] }),
        init_ops(addr)[1] == (Op::Write { addr, bytes: seq![0x81u8, 0x4E, 0x00] }),
{
}

/// Driver of a touch controller.
pub struct Gt911 {
    pub addr: u8,
    x_max: u16,
    y_max: u16,
}

impl View for Gt911 {
    type V = Gt911View;

    closed spec fn view(&self) -> Gt911View {
        Gt911View { addr: self.addr, x_max: self.x_max, y_max: self.y_max }
    }
}

impl Gt911 {
    /// A driver of the controller at `addr`, which reports no range until it is configured.
    pub fn new(addr: u8) -> (touch: Gt911)
        ensures
            touch@ == (Gt911View { addr, x_max: 0, y_max: 0 }),
    {
        Gt911 { addr, x_max: 0, y_max: 0 }
    }

    /// Configures the controller so that it starts scanning; `x_max` and `y_max` should match the
    /// touch panel's coordinate range. Returns the work to do, in order.
    pub fn configure(&mut self, x_max: u16, y_max: u16) -> (ops: Vec<Op<Vec<u8>>>)
        ensures
            final(self)@ == (Gt911View { x_max, y_max, ..old(self)@ }),
            contents(ops@) == configure_ops(old(self)@.addr, x_max, y_max),
    {
        self.x_max = x_max;
        self.y_max = y_max;
        let ghost block = config_block(x_max, y_max);
        let mut bytes: Vec<u8> = vec![0u8; CFG_LEN + 2];
        bytes[0] = 0x80;
        bytes[1] = 0x47;
        bytes[2] = (x_max % 256) as u8;
        bytes[3] = (x_max / 256) as u8;
        bytes[4] = (y_max % 256) as u8;
        bytes[5] = (y_max / 256) as u8;
        bytes[6] = 0x05;
        bytes[7] = 0x01;
        bytes[12] = 0x01;
        bytes[13] = 0x10;
        bytes[15] = 0x05;
        assert(bytes@ =~= seq![0x80u8, 0x47] + block);
        let mut sum: u8 = 0;
        let mut i: usize = 0;
        while i < CFG_LEN
            invariant
                i <= CFG_LEN,
                block.len() == CFG_LEN,
                bytes@ == seq![0x80u8, 0x47] + block,
                sum == byte_sum(block.take(i as int)) % 256,
            decreases CFG_LEN - i,
        {
            assert(block.take(i + 1).drop_last() =~= block.take(i as int));
            assert(bytes@[i + 2] == block[i as int]);
            sum = sum.wrapping_add(bytes[i + 2]);
            i = i + 1;
        }
        assert(block.take(CFG_LEN as int) =~= block);
        assert(!sum == 255 - sum) by (bit_vector);
        let checksum: u8 = (!sum).wrapping_add(1);
        assert(checksum == config_checksum(block));
        let mut ops: Vec<Op<Vec<u8>>> = Vec::new();
        ops.push(Op::Write { addr: self.addr, bytes });
        ops.push(write_wide(self.addr, 0x80, 0xFF, checksum));
        ops.push(write_wide(self.addr, 0x81, 0x00, 0x01));
        assert(contents(ops@) =~= configure_ops(self.addr, x_max, y_max));
        ops
    }

    /// Clears any stale buffer-ready flag and ensures that the chip is in coordinate-output mode:
    /// the work to do, in order.
    pub fn init(&self) -> (ops: Vec<Op<Vec<u8>>>)
        ensures
            contents(ops@) == init_ops(self@.addr),
    {
        let mut ops: Vec<Op<Vec<u8>>> = Vec::new();
        ops.push(write_wide(self.addr, 0x80, 0x40, 0x00));
        ops.push(write_wide(self.addr, 0x81, 0x4E, 0x00));
        assert(contents(ops@) =~= init_ops(self@.addr));
        ops
    }

    /// Asks for the product ID, see [`product_id_in`].
    pub fn product_id(&self) -> (op: Op<Vec<u8>>)
        ensures
            op@ == wide_read(self@.addr, 0x81, 0x40, 4),
    {
        read_wide(self.addr, 0x81, 0x40, 4)
    }

    /// Polls for the first active touch point.
    pub fn read_touch(&self) -> (read: TouchRead)
        ensures
            read@ == TouchReadView::starting(self@),
    {
        TouchRead { addr: self.addr, x_max: self.x_max, y_max: self.y_max, stage: TouchStage::Ask }
    }

    /// Asks for the raw status register, byte 0 of the reply, without clearing it (for diagnostics
    /// only).
    pub fn read_status_raw(&self) -> (op: Op<Vec<u8>>)
        ensures
            op@ == status_read(self@.addr),
    {
        read_wide(self.addr, 0x81, 0x4E, 1)
    }

    /// Clears the status register, and with it the buffer-ready flag.
    pub fn clear_status(&self) -> (op: Op<Vec<u8>>)
        ensures
            op@ == status_clear(self@.addr),
    {
        write_wide(self.addr, 0x81, 0x4E, 0x00)
    }

    /// Asks for the key config registers (for diagnostics), see [`config_in`].
    pub fn read_config(&self) -> (op: Op<Vec<u8>>)
        ensures
            op@ == wide_read(self@.addr, 0x80, 0x46, 7),
    {
        read_wide(self.addr, 0x80, 0x46, 7)
    }

    /// Probes both known addresses for the one that responds.
    pub fn detect() -> (detect: Detect)
        ensures
            detect@ == DetectStage::Ask,
    {
        Detect { stage: DetectStage::Ask }
    }
}

/// The product ID in a reply, zeros where there are no bytes. "911\0" confirms a real GT911.
pub fn product_id_in(reply: &Reply) -> (id: [u8; 4])
    ensures
        forall|i: int| 0 <= i < 4 ==> #[trigger] id@[i] == reply.byte_at(i),
{
    [reply.byte(0), reply.byte(1), reply.byte(2), reply.byte(3)]
}

/// The key config registers in a reply, zeros where there are no bytes: version, x_lo, x_hi, y_lo,
/// y_hi, max_touch and int_mode.
pub fn config_in(reply: &Reply) -> (config: [u8; 7])
    ensures
        forall|i: int| 0 <= i < 7 ==> #[trigger] config@[i] == reply.byte_at(i),
{
    [
        reply.byte(0),
        reply.byte(1),
        reply.byte(2),
        reply.byte(3),
        reply.byte(4),
        reply.byte(5),
        reply.byte(6),
    ]
}

/// What a poll for a touch does next.
#[derive(Clone, Copy, Debug, PartialEq, Eq)]
pub enum TouchStage {
    Ask,
    JudgeStatus,
    Cleared { touched: bool },
    JudgePoint,
    Done { point: Option<(u16, u16)> },
}

/// The state of a poll for a touch.
pub struct TouchReadView {
    pub touch: Gt911View,
    pub stage: TouchStage,
}

impl TouchReadView {
    /// A poll that has not begun.
    pub open spec fn starting(touch: Gt911View) -> TouchReadView {
        TouchReadView { touch, stage: TouchStage::Ask }
    }

    /// A poll that is over.
    pub open spec fn done(self, point: Option<(u16, u16)>) -> (
        TouchReadView,
        Step<Seq<u8>, Option<(u16, u16)>>,
    ) {
        (TouchReadView { stage: TouchStage::Done { point }, ..self }, Step::Finished(point))
    }

    /// The poll after a reply, and what comes next. The status is cleared after each answer, so
    /// that the controller can report the next touch.
    pub open spec fn next(self, reply: Reply) -> (
        TouchReadView,
        Step<Seq<u8>, Option<(u16, u16)>>,
    ) {
        match self.stage {
            TouchStage::Ask => (
                TouchReadView { stage: TouchStage::JudgeStatus, ..self },
                Step::Perform(status_read(self.touch.addr)),
            ),
            TouchStage::JudgeStatus => if reply.acked() {
                (
                    TouchReadView {
                        stage: TouchStage::Cleared { touched: reply.byte_at(0) % 16 != 0 },
                        ..self
                    },
                    Step::Perform(status_clear(self.touch.addr)),
                )
            } else {
                self.done(None)
            },
            TouchStage::Cleared { touched } => if touched {
                (
                    TouchReadView { stage: TouchStage::JudgePoint, ..self },
                    Step::Perform(wide_read(self.touch.addr, 0x81, 0x50, 8)),
                )
            } else {
                self.done(None)
            },
            TouchStage::JudgePoint => if reply.acked() {
                self.done(Some(touch_point(self.touch, reply)))
            } else {
                self.done(None)
            },
            TouchStage::Done { point } => self.done(point),
        }
    }
}

/// A poll for a touch, see [`TouchRead::step`].
pub struct TouchRead {
    addr: u8,
    x_max: u16,
    y_max: u16,
    stage: TouchStage,
}

impl View for TouchRead {
    type V = TouchReadView;

    closed spec fn view(&self) -> TouchReadView {
        TouchReadView {
            touch: Gt911View { addr: self.addr, x_max: self.x_max, y_max: self.y_max },
            stage: self.stage,
        }
    }
}

impl TouchRead {
    /// Takes the reply to the last piece of work and hands out the next one, or the column and row
    /// of the first active touch point. See [`TouchReadView::next`].
    pub fn step(&mut self, reply: Reply) -> (step: Step<Vec<u8>, Option<(u16, u16)>>)
        ensures
            (final(self)@, step@) == old(self)@.next(reply),
    {
        match self.stage {
            TouchStage::Ask => {
                self.stage = TouchStage::JudgeStatus;
                Step::Perform(read_wide(self.addr, 0x81, 0x4E, 1))
            },
            TouchStage::JudgeStatus => {
                if !reply.acknowledged() {
                    return self.finish(None);
                }
                let status: u8 = reply.byte(0);
                assert(status & 0x0F == status % 16) by (bit_vector);
                self.stage = TouchStage::Cleared { touched: status & 0x0F != 0 };
                Step::Perform(write_wide(self.addr, 0x81, 0x4E, 0x00))
            },
            TouchStage::Cleared { touched } => {
                if !touched {
                    return self.finish(None);
                }
                self.stage = TouchStage::JudgePoint;
                Step::Perform(read_wide(self.addr, 0x81, 0x50, 8))
            },
            TouchStage::JudgePoint => {
                if !reply.acknowledged() {
                    return self.finish(None);
                }
                let x: u16 = reply.word(2);
                let y: u16 = reply.word(0);
                let column: u16 = if x <= self.x_max {
                    x
                } else {
                    self.x_max
                };
                let row: u16 = if y <= self.y_max {
                    self.y_max - y
                } else {
                    0
                };
                self.finish(Some((column, row)))
            },
            TouchStage::Done { point } => self.finish(point),
        }
    }

    /// Ends the poll.
    fn finish(&mut self, point: Option<(u16, u16)>) -> (step: Step<Vec<u8>, Option<(u16, u16)>>)
        ensures
            (final(self)@, step@) == old(self)@.done(point),
    {
        self.stage = TouchStage::Done { point };
        Step::Finished(point)
    }
}

/// A search for the controller: what comes next.
#[derive(Clone, Copy, Debug, PartialEq, Eq)]
pub enum DetectStage {
    Ask,
    JudgePrimary,
    JudgeAlt,
    Done { addr: Option<u8> },
}

impl DetectStage {
    /// A search that is over.
    pub open spec fn done(addr: Option<u8>) -> (DetectStage, Step<Seq<u8>, Option<u8>>) {
        (DetectStage::Done { addr }, Step::Finished(addr))
    }

    /// The search after a reply, and what comes next.
    pub open spec fn next(self, reply: Reply) -> (DetectStage, Step<Seq<u8>, Option<u8>>) {
        match self {
            DetectStage::Ask => (
                DetectStage::JudgePrimary,
                Step::Perform(status_read(GT911_ADDR_PRIMARY)),
            ),
            DetectStage::JudgePrimary => if reply.acked() {
                DetectStage::done(Some(GT911_ADDR_PRIMARY))
            } else {
                (DetectStage::JudgeAlt, Step::Perform(status_read(GT911_ADDR_ALT)))
            },
            DetectStage::JudgeAlt => if reply.acked() {
                DetectStage::done(Some(GT911_ADDR_ALT))
            } else {
                DetectStage::done(None)
            },
            DetectStage::Done { addr } => DetectStage::done(addr),
        }
    }
}

/// A search for the controller, see [`Detect::step`].
pub struct Detect {
    stage: DetectStage,
}

impl View for Detect {
    type V = DetectStage;

    closed spec fn view(&self) -> DetectStage {
        self.stage
    }
}

impl Detect {
    /// Takes the reply to the last piece of work and hands out the next one, or the address that
    /// responds. See [`DetectStage::next`].
    pub fn step(&mut self, reply: Reply) -> (step: Step<Vec<u8>, Option<u8>>)
        ensures
            (final(self)@, step@) == old(self)@.next(reply),
    {
        match self.stage {
            DetectStage::Ask => {
                self.stage = DetectStage::JudgePrimary;
                Step::Perform(read_wide(GT911_ADDR_PRIMARY, 0x81, 0x4E, 1))
            },
            DetectStage::JudgePrimary => {
                if reply.acknowledged() {
                    return self.finish(Some(GT911_ADDR_PRIMARY));
                }
                self.stage = DetectStage::JudgeAlt;
                Step::Perform(read_wide(GT911_ADDR_ALT, 0x81, 0x4E, 1))
            },
            DetectStage::JudgeAlt => {
                if reply.acknowledged() {
                    return self.finish(Some(GT911_ADDR_ALT));
                }
                self.finish(None)
            },
            DetectStage::Done { addr } => self.finish(addr),
        }
    }

    /// Ends the search.
    fn finish(&mut self, addr: Option<u8>) -> (step: Step<Vec<u8>, Option<u8>>)
        ensures
            (final(self)@, step@) == DetectStage::done(addr),
    {
        self.stage = DetectStage::Done { addr };
        Step::Finished(addr)
    }
}

/// A poll for a touch asks for the status, and once the controller answers it clears the
/// buffer-ready flag, whether there is a touch or not. The point is read only where the status
/// counts a touch, and there is a point only where the controller answers that too.
pub proof fn law_read_touch(
    touch: Gt911View,
    start: Reply,
    status: Reply,
    cleared: Reply,
    point: Reply,
    later: Reply,
)
    ensures
        ({
            let begun = TouchReadView::starting(touch).next(start);
            let judged = begun.0.next(status);
            let asked = judged.0.next(cleared);
            let ended = asked.0.next(point);
            let over = ended.0.next(later);
            let touched = status.acked() && status.byte_at(0) % 16 != 0;
            let x = point.byte_at(2) + 256 * point.byte_at(3);
            let y = point.byte_at(0) + 256 * point.byte_at(1);
            let column = if x <= touch.x_max {
                x
            } else {
                touch.x_max as int
            };
            let row = if y <= touch.y_max {
                touch.y_max - y
            } else {
                0
            };
            &&& begun.1 == Step::<Seq<u8>, Option<(u16, u16)>>::Perform(
                Op::Read { addr: touch.addr, send: seq![0x81u8, 0x4E], len: 1 },
            )
            &&& judged.1 == if status.acked() {
                Step::<Seq<u8>, Option<(u16, u16)>>::Perform(
                    Op::Write { addr: touch.addr, bytes: seq![0x81u8, 0x4E, 0x00] },
                )
            } else {
                Step::Finished(None)
            }
            &&& asked.1 == if touched {
                Step::<Seq<u8>, Option<(u16, u16)>>::Perform(
                    Op::Read { addr: touch.addr, send: seq![0x81u8, 0x50], len: 8 },
                )
            } else {
                Step::Finished(None)
            }
            &&& ended.1 == Step::<Seq<u8>, Option<(u16, u16)>>::Finished(
                if touched && point.acked() {
                    Some((column as u16, row as u16))
                } else {
                    None
                },
            )
            &&& over.1 == ended.1
        }),
{
}

/// A search for the controller finds the primary address if it responds, else the other one if
/// that does.
pub proof fn law_detect(start: Reply, primary: Reply, alt: Reply, later: Reply)
    ensures
        ({
            let begun = DetectStage::Ask.next(start);
            let judged = begun.0.next(primary);
            let ended = judged.0.next(alt);
            let over = ended.0.next(later);
            &&& begun.1 == Step::<Seq<u8>, Option<u8>>::Perform(
                Op::Read { addr: 0x5D, send: seq![0x81u8, 0x4E], len: 1 },
            )
            &&& judged.1 == if primary.acked() {
                Step::<Seq<u8>, Option<u8>>::Finished(Some(0x5D))
            } else {
                Step::Perform(Op::Read { addr: 0x14, send: seq![0x81u8, 0x4E], len: 1 })
            }
            &&& ended.1 == Step::<Seq<u8>, Option<u8>>::Finished(
                if primary.acked() {
                    Some(0x5Du8)
                } else if alt.acked() {
                    Some(0x14u8)
                } else {
                    None
                },
            )
            &&& over.1 == ended.1
        }),
{
}

impl Display {
    /// Polls the touch controller for the first active touch point: its column and row when a
    /// finger is down.
    pub fn read_touch(&self, gt911: &Gt911) -> (read: TouchRead)
        ensures
            read@ == TouchReadView::starting(gt911@),
    {
        gt911.read_touch()
    }

    /// Configures the touch controller so that it starts scanning. Call this if it was never
    /// configured (config version 0x00). Returns the work to do, in order.
    pub fn configure_touch(&self, gt911: &mut Gt911, x_max: u16, y_max: u16) -> (ops: Vec<
        Op<Vec<u8>>,
    >)
        ensures
            final(gt911)@ == (Gt911View { x_max, y_max, ..old(gt911)@ }),
            contents(ops@) == configure_ops(old(gt911)@.addr, x_max, y_max),
    {
        gt911.configure(x_max, y_max)
    }

    /// Clears the buffer-ready flag and sets coordinate-output mode: the work to do, in order.
    pub fn init_touch(&self, gt911: &Gt911) -> (ops: Vec<Op<Vec<u8>>>)
        ensures
            contents(ops@) == init_ops(gt911@.addr),
    {
        gt911.init()
    }

    /// Asks for the 4-byte product ID, see [`Gt911::product_id`].
    pub fn touch_product_id(&self, gt911: &Gt911) -> (op: Op<Vec<u8>>)
        ensures
            op@ == wide_read(gt911@.addr, 0x81, 0x40, 4),
    {
        gt911.product_id()
    }

    /// Probes both addresses of the touch controller, see [`Gt911::detect`].
    pub fn detect_touch_addr(&self) -> (detect: Detect)
        ensures
            detect@ == DetectStage::Ask,
    {
        Gt911::detect()
    }

    /// Asks for the config registers, see [`Gt911::read_config`].
    pub fn touch_read_config(&self, gt911: &Gt911) -> (op: Op<Vec<u8>>)
        ensures
            op@ == wide_read(gt911@.addr, 0x80, 0x46, 7),
    {
        gt911.read_config()
    }

    /// Asks for the raw status register, see [`Gt911::read_status_raw`].
    pub fn touch_read_status_raw(&self, gt911: &Gt911) -> (op: Op<Vec<u8>>)
        ensures
            op@ == status_read(gt911@.addr),
    {
        gt911.read_status_raw()
    }

    /// Clears the buffer-ready flag.
    pub fn touch_clear_status(&self, gt911: &Gt911) -> (op: Op<Vec<u8>>)
        ensures
            op@ == status_clear(gt911@.addr),
    {
        gt911.clear_status()
    }
}

} // verus!
