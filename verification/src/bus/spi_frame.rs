//! SPI messages for controllers that take one buffer at a time; a message is cut at
//! the buffer's end.

use vstd::prelude::*;

use super::{zeros, BusError, Reply, Transfer, TransferView};

verus! {

/// The controller's data buffer.
pub const MAX_TRANSFER: usize = 64;

/// The bus.
#[derive(Clone, Copy, Debug)]
pub struct SpiBus {}

/// The shorter of a length and the buffer.
pub open spec fn capped(len: int) -> int {
    if len <= MAX_TRANSFER {
        len
    } else {
        MAX_TRANSFER as int
    }
}

/// An exchange of a buffer's worth.
pub open spec fn swapped(tx: Seq<u8>, rx: usize) -> TransferView {
    TransferView::Exchange {
        tx: tx.take(capped(tx.len() as int)),
        rx: Reply::Keep { op: 0, from: 0, len: capped(rx as int) as usize },
    }
}

/// A buffer's worth of bytes, without a reply.
pub open spec fn sent(data: Seq<u8>) -> TransferView {
    TransferView::Exchange {
        tx: data.take(capped(data.len() as int)),
        rx: Reply::Drop(capped(data.len() as int) as usize),
    }
}

/// A reply of a buffer's worth, without bytes of one's own.
pub open spec fn fetched(rx: usize) -> TransferView {
    TransferView::Exchange {
        tx: super::zero_bytes(capped(rx as int)),
        rx: Reply::Keep { op: 0, from: 0, len: capped(rx as int) as usize },
    }
}

impl SpiBus {
    pub fn new() -> (bus: Self)
        ensures
            bus == (SpiBus {  }),
    {
        SpiBus {  }
    }

    /// Sends a buffer's worth of `tx` against as much of a caller's buffer of `rx`
    /// bytes.
    pub fn transfer(&self, tx: &[u8], rx: usize) -> (t: Transfer)
        ensures
            t@ == swapped(tx@, rx),
    {
        let sent: usize = if tx.len() < MAX_TRANSFER { tx.len() } else { MAX_TRANSFER };
        let len: usize = if rx < MAX_TRANSFER { rx } else { MAX_TRANSFER };
        assert(tx@.subrange(0, sent as int) =~= tx@.take(sent as int));
        Transfer::Exchange {
            tx: vstd::slice::slice_to_vec(&tx[0..sent]),
            rx: Reply::Keep { op: 0, from: 0, len },
        }
    }

    /// Sends a buffer's worth of `data`; the reply is dropped.
    pub fn write(&self, data: &[u8]) -> (t: Transfer)
        ensures
            t@ == sent(data@),
    {
        let len: usize = if data.len() < MAX_TRANSFER { data.len() } else { MAX_TRANSFER };
        assert(data@.subrange(0, len as int) =~= data@.take(len as int));
        Transfer::Exchange { tx: vstd::slice::slice_to_vec(&data[0..len]), rx: Reply::Drop(len) }
    }

    /// Clocks a buffer's worth of zeros for a reply of that length.
    pub fn read(&self, rx: usize) -> (t: Transfer)
        ensures
            t@ == fetched(rx),
    {
        let len: usize = if rx < MAX_TRANSFER { rx } else { MAX_TRANSFER };
        Transfer::Exchange { tx: zeros(len), rx: Reply::Keep { op: 0, from: 0, len } }
    }

    /// The clock is fixed when the controller is set up.
    pub fn set_speed(&self, hz: u32) -> (result: Result<(), BusError>)
        ensures
            result == Err::<(), BusError>(BusError::InvalidConfig),
    {
        Err(BusError::InvalidConfig)
    }
}

/// What fits the buffer of 64 bytes goes out whole, what does not is cut there, and the
/// bytes that go out are the first ones, in order.
pub proof fn law_a_message_is_cut_at_the_buffer(data: Seq<u8>, rx: usize, i: int)
    requires
        0 <= i < 64,
        i < data.len(),
    ensures
        swapped(data, rx) matches TransferView::Exchange { tx, rx: reply } && tx.len()
            == if data.len() < 64 {
            data.len()
        } else {
            64
        } && tx[i] == data[i] && reply == (Reply::Keep {
            op: 0,
            from: 0,
            len: if rx < 64 {
                rx
            } else {
                64
            },
        }),
        sent(data) matches TransferView::Exchange { tx, rx: reply } && tx.len() == if data.len()
            < 64 {
            data.len()
        } else {
            64
        } && tx[i] == data[i] && reply == Reply::Drop(tx.len() as usize),
{
}

/// A reply is clocked by as many zeros as it has bytes, 64 at most, and starts the caller's
/// buffer.
pub proof fn law_a_reply_is_clocked_by_zeros(rx: usize)
    ensures
        fetched(rx) matches TransferView::Exchange { tx, rx: reply } && tx.len() == if rx < 64 {
            rx as int
        } else {
            64
        } && (forall|i: int| 0 <= i < tx.len() ==> #[trigger] tx[i] == 0) && reply
            == (Reply::Keep { op: 0, from: 0, len: tx.len() as usize }),
{
}

} // verus!
