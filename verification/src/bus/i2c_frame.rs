//! I2C messages for controllers that take the address byte ready for the wire.

use vstd::prelude::*;

use super::{push_exchange, BusError, Reply, Transfer, TransferView};

verus! {

/// The most payload one message carries; what is longer is cut.
pub const MAX_PAYLOAD: usize = 64;

/// A bus bound to one device.
#[derive(Clone, Copy, Debug)]
pub struct I2cBus {
    pub addr: u8,
}

/// The part of `data` that one message carries.
pub open spec fn carried(data: Seq<u8>) -> Seq<u8> {
    if data.len() <= MAX_PAYLOAD {
        data
    } else {
        data.take(MAX_PAYLOAD as int)
    }
}

/// The device addressed for each direction that is wanted.
pub open spec fn addressed(addr: u8, writing: bool, reading: bool) -> Seq<TransferView> {
    (if writing {
        seq![TransferView::Exchange { tx: seq![addr], rx: Reply::Drop(0) }]
    } else {
        Seq::empty()
    }) + (if reading {
        seq![TransferView::Exchange { tx: seq![addr | 1], rx: Reply::Drop(64) }]
    } else {
        Seq::empty()
    })
}

/// A message to the device.
pub open spec fn written(addr: u8, data: Seq<u8>) -> TransferView {
    TransferView::Exchange { tx: seq![addr << 1] + carried(data), rx: Reply::Drop(65) }
}

/// A message that asks the device for bytes.
pub open spec fn asked(addr: u8, rx: usize) -> TransferView {
    TransferView::Exchange {
        tx: seq![(addr << 1) | 1],
        rx: Reply::Keep { op: 0, from: 0, len: rx },
    }
}

impl I2cBus {
    /// A bus for the device at `slave_addr`.
    pub fn new(slave_addr: u8) -> (bus: Self)
        ensures
            bus.addr == slave_addr,
    {
        I2cBus { addr: slave_addr }
    }

    /// Addresses the device for each direction that has bytes: the plain address
    /// to write, the address with its lowest bit set to read. No payload goes out, and
    /// what is read is dropped.
    pub fn transfer(&self, tx: &[u8], rx: usize) -> (list: Vec<Transfer>)
        ensures
            super::transfer_views(list@) == addressed(self.addr, tx@.len() > 0, rx > 0),
    {
        let mut list: Vec<Transfer> = Vec::new();
        if tx.len() > 0 {
            let mut frame: Vec<u8> = Vec::new();
            frame.push(self.addr);
            assert(frame@ =~= seq![self.addr]);
            push_exchange(&mut list, frame, Reply::Drop(0));
        }
        if rx > 0 {
            let mut frame: Vec<u8> = Vec::new();
            frame.push(self.addr | 1);
            assert(frame@ =~= seq![self.addr | 1]);
            push_exchange(&mut list, frame, Reply::Drop(64));
        }
        assert(super::transfer_views(list@) =~= addressed(self.addr, tx@.len() > 0, rx > 0));
        list
    }

    /// The shifted address and the payload in one frame.
    pub fn write(&self, data: &[u8]) -> (t: Transfer)
        ensures
            t@ == written(self.addr, data@),
    {
        let len: usize = if data.len() < MAX_PAYLOAD { data.len() } else { MAX_PAYLOAD };
        let mut tx: Vec<u8> = Vec::new();
        tx.push(self.addr << 1);
        for i in 0..len
            invariant
                len <= data@.len(),
                tx@ == seq![self.addr << 1] + data@.take(i as int),
        {
            tx.push(data[i]);
            assert(tx@ =~= seq![self.addr << 1] + data@.take(i + 1));
        }
        assert(data@.take(len as int) =~= carried(data@));
        Transfer::Exchange { tx, rx: Reply::Drop(65) }
    }

    /// The shifted address with its lowest bit set, for a reply into the caller's
    /// buffer of `rx` bytes.
    pub fn read(&self, rx: usize) -> (t: Transfer)
        ensures
            t@ == asked(self.addr, rx),
    {
        let mut tx: Vec<u8> = Vec::new();
        tx.push((self.addr << 1) | 1);
        assert(tx@ =~= seq![(self.addr << 1) | 1]);
        Transfer::Exchange { tx, rx: Reply::Keep { op: 0, from: 0, len: rx } }
    }

    /// The clock is fixed when the controller is set up.
    pub fn set_speed(&self, hz: u32) -> (result: Result<(), BusError>)
        ensures
            result == Err::<(), BusError>(BusError::InvalidConfig),
    {
        Err(BusError::InvalidConfig)
    }
}

/// The first byte of a message that writes or reads is the device's address with the
/// direction below it.
pub proof fn law_a_message_begins_with_the_address(addr: u8)
    by (bit_vector)
    requires
        addr < 0x80,
    ensures
        (addr << 1) >> 1 == addr,
        (addr << 1) & 1 == 0,
        ((addr << 1) | 1) >> 1 == addr,
        ((addr << 1) | 1) & 1 == 1,
        addr << 1 == 2 * addr,
        (addr << 1) | 1 == 2 * addr + 1,
        addr % 2 == 0 ==> addr | 1 == addr + 1,
        addr % 2 == 1 ==> addr | 1 == addr,
{
}

/// What is written goes to the device, as far as 64 bytes go, in order; what is asked for
/// comes from it, with nothing sent but the address, and fills the caller's buffer.
pub proof fn law_a_message_is_for_its_device(addr: u8, data: Seq<u8>, rx: usize, i: int)
    requires
        addr < 0x80,
        0 <= i < 64,
        i < data.len(),
    ensures
        written(addr, data) matches TransferView::Exchange { tx, rx: reply } && tx[0] == 2 * addr
            && tx.len() == 1 + (if data.len() < 64 {
            data.len()
        } else {
            64
        }) && tx[i + 1] == data[i] && reply is Drop,
        asked(addr, rx) matches TransferView::Exchange { tx, rx: reply } && tx == seq![
            (2 * addr + 1) as u8,
        ] && reply == (Reply::Keep { op: 0, from: 0, len: rx }),
{
    law_a_message_begins_with_the_address(addr);
}

/// A direction that is not wanted is not addressed; a write comes before a read, and the
/// read has the lowest bit of the address set.
pub proof fn law_each_direction_is_addressed_once(addr: u8, writing: bool, reading: bool)
    requires
        addr < 0x80,
        addr % 2 == 0,
    ensures
        ({
            let list = addressed(addr, writing, reading);
            &&& list.len() == (if writing {
                1int
            } else {
                0
            }) + (if reading {
                1int
            } else {
                0
            })
            &&& writing ==> (list[0] matches TransferView::Exchange { tx, rx } && tx == seq![addr])
            &&& reading ==> (list.last() matches TransferView::Exchange { tx, rx } && tx == seq![
                (addr + 1) as u8,
            ])
        }),
{
    law_a_message_begins_with_the_address(addr);
}

} // verus!
