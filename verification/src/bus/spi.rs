//! The SPI bus: full duplex, in pieces of the controller's data buffer.

use vstd::prelude::*;

use super::{plan, push_exchange, zeros, BusKind, Framing, Op, Plan, Reply, Transfer, TransferView};

verus! {

/// The controller's data buffer: the longest piece of a one-way operation.
pub const MAX_TRANSFER: usize = 64;

/// The bus.
#[derive(Clone, Copy, Debug)]
pub struct SpiBus {}

/// The end of the piece that begins at `from`.
pub open spec fn piece_end(len: int, from: int) -> int {
    if from + MAX_TRANSFER <= len {
        from + MAX_TRANSFER
    } else {
        len
    }
}

/// A write in pieces, each against as many received bytes, which are dropped.
pub open spec fn write_pieces(tx: Seq<u8>, from: int) -> Seq<TransferView>
    decreases tx.len() - from,
{
    if 0 <= from < tx.len() {
        let end = piece_end(tx.len() as int, from);
        seq![
            TransferView::Exchange {
                tx: tx.subrange(from, end),
                rx: Reply::Drop((end - from) as usize),
            },
        ] + write_pieces(tx, end)
    } else {
        Seq::empty()
    }
}

/// A read in pieces, each clocked by as many zeros.
pub open spec fn read_pieces(at: usize, len: int, from: int) -> Seq<TransferView>
    decreases len - from,
{
    if 0 <= from < len {
        let end = piece_end(len, from);
        seq![
            TransferView::Exchange {
                tx: super::zero_bytes(end - from),
                rx: Reply::Keep { op: at, from: from as usize, len: (end - from) as usize },
            },
        ] + read_pieces(at, len, end)
    } else {
        Seq::empty()
    }
}

impl Framing for SpiBus {
    /// An exchange goes out whole, a write or a read alone in pieces. Words other
    /// than bytes are refused.
    open spec fn framed(&self, op: Op, at: usize) -> Option<Seq<TransferView>> {
        if op.word_bits != 8 {
            None
        } else {
            match op.tx {
                Some(tx) => match op.rx {
                    Some(len) => Some(
                        seq![
                            TransferView::Exchange {
                                tx: tx@,
                                rx: Reply::Keep { op: at, from: 0, len },
                            },
                        ],
                    ),
                    None => Some(write_pieces(tx@, 0)),
                },
                None => match op.rx {
                    Some(len) => Some(read_pieces(at, len as int, 0)),
                    None => Some(Seq::empty()),
                },
            }
        }
    }

    fn frame(&self, op: &Op, at: usize, list: &mut Vec<Transfer>) -> (taken: bool) {
        if op.word_bits != 8 {
            return false;
        }
        let ghost before = super::transfer_views(list@);
        match op.tx {
            Some(tx) => match op.rx {
                Some(len) => {
                    push_exchange(
                        list,
                        vstd::slice::slice_to_vec(tx),
                        Reply::Keep { op: at, from: 0, len },
                    );
                },
                None => {
                    let mut from: usize = 0;
                    assert(before + write_pieces(tx@, 0) =~= super::transfer_views(list@)
                        + write_pieces(tx@, 0));
                    while from < tx.len()
                        invariant
                            from <= tx@.len(),
                            before + write_pieces(tx@, 0) == super::transfer_views(list@)
                                + write_pieces(tx@, from as int),
                        decreases tx@.len() - from,
                    {
                        let end: usize = if tx.len() - from >= MAX_TRANSFER {
                            from + MAX_TRANSFER
                        } else {
                            tx.len()
                        };
                        let ghost sent = super::transfer_views(list@);
                        push_exchange(
                            list,
                            vstd::slice::slice_to_vec(&tx[from..end]),
                            Reply::Drop(end - from),
                        );
                        assert(sent + write_pieces(tx@, from as int) =~= super::transfer_views(
                            list@,
                        ) + write_pieces(tx@, end as int));
                        from = end;
                    }
                },
            },
            None => if let Some(len) = op.rx {
                let mut from: usize = 0;
                assert(before + read_pieces(at, len as int, 0) =~= super::transfer_views(list@)
                    + read_pieces(at, len as int, 0));
                while from < len
                    invariant
                        from <= len,
                        before + read_pieces(at, len as int, 0) == super::transfer_views(list@)
                            + read_pieces(at, len as int, from as int),
                    decreases len - from,
                {
                    let end: usize = if len - from >= MAX_TRANSFER {
                        from + MAX_TRANSFER
                    } else {
                        len
                    };
                    let ghost sent = super::transfer_views(list@);
                    push_exchange(
                        list,
                        zeros(end - from),
                        Reply::Keep { op: at, from, len: end - from },
                    );
                    assert(sent + read_pieces(at, len as int, from as int)
                        =~= super::transfer_views(list@) + read_pieces(
                        at,
                        len as int,
                        end as int,
                    ));
                    from = end;
                }
            },
        }
        assert(super::transfer_views(list@) =~= before + self.framed(*op, at)->0);
        true
    }
}

impl SpiBus {
    pub fn new() -> (bus: Self)
        ensures
            bus == (SpiBus {  }),
    {
        SpiBus {  }
    }

    /// Plans a list of operations.
    pub fn transfer(&self, ops: &[Op]) -> (p: Plan)
        ensures
            p@ == super::planned(*self, ops@, 0),
    {
        plan(self, ops)
    }

    /// The longest piece of a one-way operation.
    pub fn max_transfer(&self) -> (len: usize)
        ensures
            len == MAX_TRANSFER,
    {
        MAX_TRANSFER
    }

    pub fn kind(&self) -> (kind: BusKind)
        ensures
            kind == BusKind::Spi,
    {
        BusKind::Spi
    }
}

/// The bytes a run of transfers sends.
pub open spec fn sent_bytes(run: Seq<TransferView>) -> Seq<u8>
    decreases run.len(),
{
    if run.len() == 0 {
        Seq::empty()
    } else {
        (match run[0] {
            TransferView::Exchange { tx, rx } => tx,
            TransferView::Delay(us) => Seq::empty(),
        }) + sent_bytes(run.skip(1))
    }
}

/// A write of any length sends every byte, in order, in pieces that the data
/// buffer holds and that are clocked in full.
pub proof fn law_write_sends_every_byte(tx: Seq<u8>, from: int)
    requires
        0 <= from <= tx.len(),
    ensures
        sent_bytes(write_pieces(tx, from)) == tx.skip(from),
        forall|i: int|
            0 <= i < write_pieces(tx, from).len() ==> (#[trigger] write_pieces(tx, from)[i]
                matches TransferView::Exchange { tx, rx } && tx.len() <= MAX_TRANSFER && rx
                == Reply::Drop(tx.len() as usize)),
    decreases tx.len() - from,
{
    if from < tx.len() {
        let end = piece_end(tx.len() as int, from);
        law_write_sends_every_byte(tx, end);
        let run = write_pieces(tx, from);
        assert(run.skip(1) =~= write_pieces(tx, end));
        assert(tx.subrange(from, end) + tx.skip(end) =~= tx.skip(from));
        assert forall|i: int| 0 <= i < run.len() implies (#[trigger] run[i]
            matches TransferView::Exchange { tx, rx } && tx.len() <= MAX_TRANSFER && rx
            == Reply::Drop(tx.len() as usize)) by {
            if i > 0 {
                assert(run[i] == write_pieces(tx, end)[i - 1]);
            }
        }
    } else {
        assert(tx.skip(from) =~= Seq::empty());
    }
}

/// A read of any length fills the caller's buffer piece by piece: each piece
/// begins where the one before ended, and the last ends with the buffer.
pub proof fn law_read_fills_every_byte(at: usize, len: usize, from: int)
    requires
        0 <= from <= len,
    ensures
        sent_bytes(read_pieces(at, len as int, from)) == super::zero_bytes(len - from),
        from < len ==> read_pieces(at, len as int, from).len() > 0 && (read_pieces(
            at,
            len as int,
            from,
        )[0] matches TransferView::Exchange { tx, rx } && rx matches Reply::Keep {
            op,
            from: begin,
            len: part,
        } && op == at && begin == from && 0 < part <= MAX_TRANSFER && from + part <= len
            && tx.len() == part && read_pieces(at, len as int, from).skip(1) == read_pieces(
            at,
            len as int,
            from + part,
        )),
    decreases len - from,
{
    if from < len {
        let end = piece_end(len as int, from);
        law_read_fills_every_byte(at, len, end);
        let run = read_pieces(at, len as int, from);
        assert(run.skip(1) =~= read_pieces(at, len as int, end));
        assert(super::zero_bytes(end - from) + super::zero_bytes(len - end)
            =~= super::zero_bytes(len - from));
    } else {
        assert(super::zero_bytes(len - from) =~= Seq::empty());
    }
}

/// An operation is refused only for its words. An exchange goes out in one piece, with the
/// reply to the front of its own buffer; a write sends every byte; a read clocks as many
/// zeros as its buffer has room, and no piece of either is longer than 64 bytes.
pub proof fn law_an_operation_is_sent_in_full(bus: SpiBus, op: Op, at: usize)
    ensures
        bus.framed(op, at) is None == (op.word_bits != 8),
        bus.framed(op, at) matches Some(list) ==> {
            &&& op.tx is Some ==> sent_bytes(list) == op.tx->0@
            &&& op.tx is None && op.rx is Some ==> sent_bytes(list) == super::zero_bytes(
                op.rx->0 as int,
            )
            &&& op.tx is None && op.rx is None ==> list.len() == 0
            &&& op.tx is Some && op.rx is Some ==> list == seq![
                TransferView::Exchange {
                    tx: op.tx->0@,
                    rx: Reply::Keep { op: at, from: 0, len: op.rx->0 },
                },
            ]
            &&& op.tx is Some && op.rx is None ==> forall|i: int|
                0 <= i < list.len() ==> (#[trigger] list[i] matches TransferView::Exchange {
                    tx,
                    rx,
                } && tx.len() <= 64 && rx == Reply::Drop(tx.len() as usize))
        },
{
    if op.word_bits == 8 {
        let list = bus.framed(op, at)->0;
        match op.tx {
            Some(tx) => {
                assert(tx@.skip(0) =~= tx@);
                if op.rx is None {
                    law_write_sends_every_byte(tx@, 0);
                } else {
                    assert(list.skip(1) =~= Seq::empty());
                    assert(sent_bytes(list.skip(1)) =~= Seq::empty());
                    assert(sent_bytes(list) =~= tx@);
                }
            },
            None => if op.rx is Some {
                law_read_fills_every_byte(at, op.rx->0, 0);
            },
        }
    }
}

} // verus!
