//! The I2C bus: every operation is one addressed transaction.

use vstd::prelude::*;

use super::{plan, push_exchange, BusError, BusKind, Framing, Op, Plan, Reply, Transfer, TransferView};

verus! {

/// Largest payload of an operation, bounded by the controller's FIFO.
pub const MAX_PAYLOAD: usize = 64;

/// A bus bound to one device.
#[derive(Clone, Copy, Debug)]
pub struct I2cBus {
    pub addr: u8,
}

impl Framing for I2cBus {
    /// The address goes first and unshifted; a payload follows it. A read alone
    /// sends the address and nothing else. Words other than bytes, and payloads
    /// past the FIFO, are refused.
    open spec fn framed(&self, op: Op, at: usize) -> Option<Seq<TransferView>> {
        if op.word_bits != 8 {
            None
        } else {
            match op.tx {
                Some(tx) => if tx@.len() > MAX_PAYLOAD {
                    None
                } else {
                    Some(
                        seq![
                            TransferView::Exchange {
                                tx: seq![self.addr] + tx@,
                                rx: match op.rx {
                                    Some(len) => Reply::Keep { op: at, from: 0, len },
                                    None => Reply::Drop(0),
                                },
                            },
                        ],
                    )
                },
                None => match op.rx {
                    Some(len) => Some(
                        seq![
                            TransferView::Exchange {
                                tx: seq![self.addr],
                                rx: Reply::Keep { op: at, from: 0, len },
                            },
                        ],
                    ),
                    None => Some(Seq::empty()),
                },
            }
        }
    }

    fn frame(&self, op: &Op, at: usize, list: &mut Vec<Transfer>) -> (taken: bool) {
        if op.word_bits != 8 {
            return false;
        }
        let ghost before = super::transfer_views(list@);
        match op.tx {
            Some(tx) => {
                if tx.len() > MAX_PAYLOAD {
                    return false;
                }
                let mut frame: Vec<u8> = Vec::new();
                frame.push(self.addr);
                for i in 0..tx.len()
                    invariant
                        frame@ == seq![self.addr] + tx@.take(i as int),
                {
                    frame.push(tx[i]);
                    assert(frame@ =~= seq![self.addr] + tx@.take(i + 1));
                }
                assert(tx@.take(tx@.len() as int) =~= tx@);
                let rx = match op.rx {
                    Some(len) => Reply::Keep { op: at, from: 0, len },
                    None => Reply::Drop(0),
                };
                push_exchange(list, frame, rx);
            },
            None => if let Some(len) = op.rx {
                let mut frame: Vec<u8> = Vec::new();
                frame.push(self.addr);
                assert(frame@ =~= seq![self.addr]);
                push_exchange(list, frame, Reply::Keep { op: at, from: 0, len });
            },
        }
        assert(super::transfer_views(list@) =~= before + self.framed(*op, at)->0);
        true
    }
}

impl I2cBus {
    /// A bus for the device at `slave_addr`.
    pub fn new(slave_addr: u8) -> (bus: Self)
        ensures
            bus.addr == slave_addr,
    {
        I2cBus { addr: slave_addr }
    }

    /// Plans a list of operations.
    pub fn transfer(&self, ops: &[Op]) -> (p: Plan)
        ensures
            p@ == super::planned(*self, ops@, 0),
    {
        plan(self, ops)
    }

    /// The largest payload of one operation.
    pub fn max_transfer(&self) -> (len: usize)
        ensures
            len == MAX_PAYLOAD,
    {
        MAX_PAYLOAD
    }

    pub fn kind(&self) -> (kind: BusKind)
        ensures
            kind == BusKind::I2c,
    {
        BusKind::I2c
    }

    /// The clock is fixed when the controller is set up.
    pub fn set_speed(&self, hz: u32) -> (result: Result<(), BusError>)
        ensures
            result == Err::<(), BusError>(BusError::InvalidConfig),
    {
        Err(BusError::InvalidConfig)
    }
}

/// Write, read and exchange all address the device the same way: its address
/// comes first on the wire, unshifted.
pub proof fn law_every_shape_is_addressed_alike(bus: I2cBus, op: Op, at: usize)
    requires
        bus.framed(op, at) is Some,
        op.tx is Some || op.rx is Some,
    ensures
        bus.framed(op, at)->0.len() == 1,
        bus.framed(op, at)->0[0] matches TransferView::Exchange { tx, rx } && tx[0] == bus.addr,
{
}

/// An operation is refused for words that are no bytes and for more than 64 bytes to send,
/// and for nothing else. What it sends follows the address in full and in order; a reply
/// goes to the front of its own buffer, as long as the buffer is.
pub proof fn law_an_operation_is_sent_in_full(bus: I2cBus, op: Op, at: usize)
    ensures
        bus.framed(op, at) is None == (op.word_bits != 8 || (op.tx is Some && op.tx->0@.len()
            > 64)),
        bus.framed(op, at) matches Some(list) ==> {
            &&& list.len() == if op.tx is None && op.rx is None {
                0int
            } else {
                1
            }
            &&& list.len() == 1 ==> (list[0] matches TransferView::Exchange { tx, rx } && tx.len()
                == 1 + (if op.tx is Some {
                op.tx->0@.len()
            } else {
                0
            }) && tx[0] == bus.addr && (forall|i: int|
                1 <= i < tx.len() ==> #[trigger] tx[i] == op.tx->0@[i - 1]) && rx == match op.rx {
                Some(len) => Reply::Keep { op: at, from: 0, len },
                None => Reply::Drop(0),
            })
        },
{
}

} // verus!
