//! The UART bus.

use vstd::prelude::*;

use super::{plan, push_exchange, zeros, Framing, Op, Plan, Reply, Transfer, TransferView};

verus! {

/// The most that one operation carries either way; callers split what is longer.
pub const MAX_TRANSFER: usize = 256;

/// The bus.
#[derive(Clone, Copy, Debug)]
pub struct UartBus {}

/// The shorter of a length and the longest operation.
pub open spec fn capped(len: int) -> int {
    if len <= MAX_TRANSFER {
        len
    } else {
        MAX_TRANSFER as int
    }
}

fn cap(len: usize) -> (n: usize)
    ensures
        n == capped(len as int),
{
    if len <= MAX_TRANSFER {
        len
    } else {
        MAX_TRANSFER
    }
}

impl Framing for UartBus {
    /// Bytes to send and bytes to receive are each capped at the longest operation. A
    /// read alone is driven by zeros. Words other than bytes are refused.
    open spec fn framed(&self, op: Op, at: usize) -> Option<Seq<TransferView>> {
        if op.word_bits != 8 {
            None
        } else {
            match op.tx {
                Some(tx) => Some(
                    seq![
                        TransferView::Exchange {
                            tx: tx@.take(capped(tx@.len() as int)),
                            rx: match op.rx {
                                Some(len) => Reply::Keep {
                                    op: at,
                                    from: 0,
                                    len: capped(len as int) as usize,
                                },
                                None => Reply::Drop(0),
                            },
                        },
                    ],
                ),
                None => match op.rx {
                    Some(len) => Some(
                        seq![
                            TransferView::Exchange {
                                tx: super::zero_bytes(capped(len as int)),
                                rx: Reply::Keep {
                                    op: at,
                                    from: 0,
                                    len: capped(len as int) as usize,
                                },
                            },
                        ],
                    ),
                    None => Some(Seq::empty()),
                },
            }
        }
    }

    fn frame(&self, op: &Op, at: usize, list: &mut Vec<Transfer>) -> (taken: bool) {
        if op.word_bits != 8 {
            return false;
        }
        let ghost before = super::transfer_views(list@);
        match op.tx {
            Some(tx) => {
                let sent: usize = cap(tx.len());
                let rx = match op.rx {
                    Some(len) => Reply::Keep { op: at, from: 0, len: cap(len) },
                    None => Reply::Drop(0),
                };
                assert(tx@.subrange(0, sent as int) =~= tx@.take(sent as int));
                push_exchange(list, vstd::slice::slice_to_vec(&tx[0..sent]), rx);
            },
            None => if let Some(len) = op.rx {
                let n: usize = cap(len);
                push_exchange(list, zeros(n), Reply::Keep { op: at, from: 0, len: n });
            },
        }
        assert(super::transfer_views(list@) =~= before + self.framed(*op, at)->0);
        true
    }
}

impl UartBus {
    pub fn new() -> (bus: Self)
        ensures
            bus == (UartBus {  }),
    {
        UartBus {  }
    }

    /// Plans a list of operations.
    pub fn transfer(&self, ops: &[Op]) -> (p: Plan)
        ensures
            p@ == super::planned(*self, ops@, 0),
    {
        plan(self, ops)
    }

    /// The most that one operation carries.
    pub fn max_transfer(&self) -> (len: usize)
        ensures
            len == MAX_TRANSFER,
    {
        MAX_TRANSFER
    }
}

/// An operation is refused only for its words. What it sends are the first 256 bytes at
/// most, in order; what it receives is 256 bytes at most, to the front of its own buffer. A
/// read alone sends as many zeros as it receives, and an operation of neither sends nothing.
pub proof fn law_an_operation_is_cut_at_256(bus: UartBus, op: Op, at: usize)
    ensures
        bus.framed(op, at) is None == (op.word_bits != 8),
        bus.framed(op, at) matches Some(list) ==> {
            let wanted = if op.rx is None {
                0int
            } else if op.rx->0 < 256 {
                op.rx->0 as int
            } else {
                256
            };
            &&& list.len() == if op.tx is None && op.rx is None {
                0int
            } else {
                1
            }
            &&& list.len() == 1 ==> (list[0] matches TransferView::Exchange { tx, rx } && rx == (
            if op.rx is None {
                Reply::Drop(0)
            } else {
                Reply::Keep { op: at, from: 0, len: wanted as usize }
            }) && (op.tx matches Some(data) ==> tx.len() == (if data@.len() < 256 {
                data@.len()
            } else {
                256
            }) && forall|i: int| 0 <= i < tx.len() ==> #[trigger] tx[i] == data@[i]) && (
            op.tx is None ==> tx.len() == wanted && forall|i: int|
                0 <= i < tx.len() ==> #[trigger] tx[i] == 0))
        },
{
}

} // verus!
