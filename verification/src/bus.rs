//! Plain access to the devices on the shared I2C bus.
use vstd::prelude::*;

use crate::display::Display;
use crate::hardware::{contents, read_register, register_read, Op, Reply};

verus! {

/// How many addresses there are on the bus.
pub const ADDRESSES: u8 = 0x80;

/// What a scan of the bus asks for: a byte from each address.
pub open spec fn i2c_scan_ops() -> Seq<Op<Seq<u8>>> {
    Seq::new(ADDRESSES as nat, |a: int| Op::Read { addr: a as u8, send: seq![], len: 1 })
}

/// Whether the device at address `a` answered a scan of the bus.
pub open spec fn answered(replies: Seq<Reply>, a: int) -> bool {
    0 <= a < ADDRESSES && a < replies.len() && replies[a].acked()
}

/// A scan of the bus asks each 7-bit address once for one byte, and only an address whose own reply
/// was acknowledged has answered.
pub proof fn law_bus_scan(replies: Seq<Reply>, a: int, acknowledged: bool, bytes: Vec<u8>)
    ensures
        i2c_scan_ops().len() == 128,
        0 <= a < 128 ==> i2c_scan_ops()[a] == (Op::Read {
            addr: a as u8,
            send: Seq::<u8>::empty(),
            len: 1,
        }),
        !(0 <= a < 128 && a < replies.len()) ==> !answered(replies, a),
        0 <= a < 128 && a < replies.len() && replies[a] == (Reply::Received {
            acknowledged,
            bytes,
        }) ==> answered(replies, a) == acknowledged,
        0 <= a < 128 && a < replies.len() && !(replies[a] is Received) ==> !answered(replies, a),
{
}

/// The addresses that answered a scan of the bus, in rising order. `replies` holds the reply for
/// each address, from 0 on.
pub fn i2c_found(replies: &Vec<Reply>) -> (found: Vec<u8>)
    ensures
        forall|i: int, j: int| 0 <= i < j < found@.len() ==> found@[i] < found@[j],
        forall|a: u8| #[trigger] found@.contains(a) <==> answered(replies@, a as int),
{
    let mut found: Vec<u8> = Vec::new();
    let mut addr: u8 = 0;
    while addr < ADDRESSES && (addr as usize) < replies.len()
        invariant
            addr <= ADDRESSES,
            addr <= replies@.len(),
            forall|i: int, j: int| 0 <= i < j < found@.len() ==> found@[i] < found@[j],
            forall|i: int| 0 <= i < found@.len() ==> found@[i] < addr,
            forall|a: u8| #[trigger]
                found@.contains(a) <==> a < addr && answered(replies@, a as int),
        decreases ADDRESSES - addr,
    {
        let ghost before = found@;
        if replies[addr as usize].acknowledged() {
            found.push(addr);
            proof {
                assert forall|a: u8| #[trigger] found@.contains(a) <==> (before.contains(a) || a
                    == addr) by {
                    if before.contains(a) {
                        let i = choose|i: int| 0 <= i < before.len() && before[i] == a;
                        assert(found@[i] == a);
                    }
                    if a == addr {
                        assert(found@[before.len() as int] == a);
                    }
                }
            }
        }
        addr = addr + 1;
    }
    found
}

impl Display {
    /// Asks for one byte from an arbitrary I2C device on the shared bus. The value is byte 0 of the
    /// reply.
    pub fn i2c_read_u8(&self, addr: u8, reg: u8) -> (op: Op<Vec<u8>>)
        ensures
            op@ == register_read(addr, reg, 1),
    {
        read_register(addr, reg, 1)
    }

    /// Asks for two bytes from an arbitrary I2C device on the shared bus. The value is
    /// [`Reply::word`] 0 of the reply.
    pub fn i2c_read_u16(&self, addr: u8, reg: u8) -> (op: Op<Vec<u8>>)
        ensures
            op@ == register_read(addr, reg, 2),
    {
        read_register(addr, reg, 2)
    }

    /// Asks for two bytes from an arbitrary I2C device on the shared bus. The value is
    /// [`Reply::signed_word`] of the reply.
    pub fn i2c_read_i16(&self, addr: u8, reg: u8) -> (op: Op<Vec<u8>>)
        ensures
            op@ == register_read(addr, reg, 2),
    {
        read_register(addr, reg, 2)
    }

    /// Asks for a byte from each 7-bit I2C address (for diagnostics). [`i2c_found`] picks those
    /// that answer.
    pub fn i2c_scan(&self) -> (ops: Vec<Op<Vec<u8>>>)
        ensures
            contents(ops@) == i2c_scan_ops(),
    {
        let mut ops: Vec<Op<Vec<u8>>> = Vec::new();
        let mut addr: u8 = 0;
        while addr < ADDRESSES
            invariant
                addr <= ADDRESSES,
                ops@.len() == addr,
                forall|a: int| 0 <= a < addr ==> (#[trigger] ops@[a])@ == i2c_scan_ops()[a],
            decreases ADDRESSES - addr,
        {
            let send: Vec<u8> = Vec::new();
            assert(send@ =~= seq![]);
            ops.push(Op::Read { addr, send, len: 1 });
            addr = addr + 1;
        }
        assert(contents(ops@) =~= i2c_scan_ops());
        ops
    }
}

} // verus!
