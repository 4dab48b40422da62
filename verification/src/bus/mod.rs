//! The byte-oriented buses: how a list of operations becomes transfers on the
//! physical layer.

use vstd::prelude::*;

pub mod i2c;
pub mod i2c_frame;
pub mod spi;
pub mod spi_frame;
pub mod uart;

verus! {

/// Why a bus refused or failed.
#[derive(Clone, Copy, Debug, PartialEq, Eq, Structural)]
pub enum BusError {
    InvalidConfig,
    Busy,
    Timeout,
    DeviceNotResponding,
    DmaError,
}

/// What sort of bus it is.
#[derive(Clone, Copy, Debug, PartialEq, Eq, Structural)]
pub enum BusKind {
    I2c,
    Spi,
    Uart,
}

/// How a clock idles and on which of its edges data is taken.
#[derive(Clone, Copy, Debug, PartialEq, Eq, Structural)]
pub enum SpiMode {
    Mode0,
    Mode1,
    Mode2,
    Mode3,
}

/// Pads and rate of an I2C bus.
#[derive(Clone, Copy, Debug, PartialEq, Eq, Structural)]
pub struct I2cConfig {
    pub sda: u8,
    pub scl: u8,
    pub hz: u32,
}

/// Pads, rate and mode of an SPI bus.
#[derive(Clone, Copy, Debug, PartialEq, Eq, Structural)]
pub struct SpiConfig {
    pub mosi: u8,
    pub miso: u8,
    pub sck: u8,
    pub max_hz: u32,
    pub mode: SpiMode,
}

/// What a controller is asked to become.
#[derive(Clone, Copy, Debug, PartialEq, Eq, Structural)]
pub enum BusConfig {
    I2c(I2cConfig),
    Spi(SpiConfig),
    /// A serial line at this rate.
    Uart(u32),
}

/// One operation: bytes to send, room for a reply, or both.
#[derive(Clone, Copy, Debug)]
pub struct Op<'a> {
    pub tx: Option<&'a [u8]>,
    /// How many bytes the caller has room for, if it wants a reply.
    pub rx: Option<usize>,
    pub word_bits: u8,
    /// How long to wait afterwards, in microseconds.
    pub delay_us: u32,
}

/// Where the bytes that a transfer clocks in go.
#[derive(Clone, Copy, Debug, PartialEq, Eq, Structural)]
pub enum Reply {
    /// Nowhere: this many bytes are received and dropped.
    Drop(usize),
    /// To the caller: `len` bytes of operation `op`'s buffer, beginning at `from`.
    Keep { op: usize, from: usize, len: usize },
}

/// One thing to do on the physical layer.
#[derive(Debug)]
pub enum Transfer {
    /// Send `tx` and receive into `rx`.
    Exchange { tx: Vec<u8>, rx: Reply },
    /// Wait this many microseconds.
    Delay(u32),
}

/// A [`Transfer`] with its bytes as a sequence.
pub enum TransferView {
    Exchange { tx: Seq<u8>, rx: Reply },
    Delay(u32),
}

impl View for Transfer {
    type V = TransferView;

    open spec fn view(&self) -> TransferView {
        match *self {
            Transfer::Exchange { tx, rx } => TransferView::Exchange { tx: tx@, rx },
            Transfer::Delay(us) => TransferView::Delay(us),
        }
    }
}

/// The transfers of a list, each by its view.
pub open spec fn transfer_views(list: Seq<Transfer>) -> Seq<TransferView> {
    list.map_values(|t: Transfer| t@)
}

/// What a list of operations comes to: these transfers in order, each only if
/// all before it succeeded, and then this result.
pub struct Plan {
    pub transfers: Vec<Transfer>,
    pub result: Result<(), BusError>,
}

/// A [`Plan`] with its transfers by their views.
pub struct PlanView {
    pub transfers: Seq<TransferView>,
    pub result: Result<(), BusError>,
}

impl View for Plan {
    type V = PlanView;

    open spec fn view(&self) -> PlanView {
        PlanView { transfers: transfer_views(self.transfers@), result: self.result }
    }
}

/// How a bus turns one operation into transfers.
pub trait Framing {
    /// The transfers of `op`, the operation at position `at`; `None` where the
    /// bus refuses it.
    spec fn framed(&self, op: Op, at: usize) -> Option<Seq<TransferView>>;

    /// Appends the transfers of `op` to `list`; `false` where the bus refuses it.
    fn frame(&self, op: &Op, at: usize, list: &mut Vec<Transfer>) -> (taken: bool)
        ensures
            taken == (self.framed(*op, at) is Some),
            taken ==> transfer_views(final(list)@) == transfer_views(old(list)@)
                + self.framed(*op, at)->0,
            !taken ==> final(list)@ == old(list)@,
    ;
}

/// The pause that ends an operation.
pub open spec fn pause(op: Op) -> Seq<TransferView> {
    if op.delay_us > 0 {
        seq![TransferView::Delay(op.delay_us)]
    } else {
        Seq::empty()
    }
}

/// The plan of the operations from `at` on: one after the other, up to the first
/// that the bus refuses.
pub open spec fn planned<B: Framing>(bus: B, ops: Seq<Op>, at: int) -> PlanView
    decreases ops.len() - at,
{
    if at < 0 || at >= ops.len() {
        PlanView { transfers: Seq::empty(), result: Ok(()) }
    } else {
        match bus.framed(ops[at], at as usize) {
            None => PlanView { transfers: Seq::empty(), result: Err(BusError::InvalidConfig) },
            Some(first) => {
                let rest = planned(bus, ops, at + 1);
                PlanView { transfers: first + pause(ops[at]) + rest.transfers, result: rest.result }
            },
        }
    }
}

/// Plans a list of operations.
pub fn plan<B: Framing>(bus: &B, ops: &[Op]) -> (p: Plan)
    ensures
        p@ == planned(*bus, ops@, 0),
{
    let mut transfers: Vec<Transfer> = Vec::new();
    let mut at: usize = 0;
    assert(transfer_views(transfers@) + planned(*bus, ops@, 0).transfers =~= planned(
        *bus,
        ops@,
        0,
    ).transfers);
    while at < ops.len()
        invariant
            at <= ops@.len(),
            planned(*bus, ops@, 0).transfers == transfer_views(transfers@) + planned(
                *bus,
                ops@,
                at as int,
            ).transfers,
            planned(*bus, ops@, 0).result == planned(*bus, ops@, at as int).result,
        decreases ops@.len() - at,
    {
        let op = ops[at];
        let ghost before = transfer_views(transfers@);
        let ghost rest = planned(*bus, ops@, at + 1).transfers;
        if !bus.frame(&op, at, &mut transfers) {
            assert(transfer_views(transfers@) + Seq::<TransferView>::empty() =~= transfer_views(
                transfers@,
            ));
            return Plan { transfers, result: Err(BusError::InvalidConfig) };
        }
        let ghost first = bus.framed(op, at)->0;
        let ghost framed = transfer_views(transfers@);
        if op.delay_us > 0 {
            transfers.push(Transfer::Delay(op.delay_us));
        }
        assert(transfer_views(transfers@) =~= framed + pause(op));
        assert(before + (first + pause(op) + rest) =~= transfer_views(transfers@) + rest);
        at = at + 1;
    }
    assert(transfer_views(transfers@) + Seq::<TransferView>::empty() =~= transfer_views(
        transfers@,
    ));
    Plan { transfers, result: Ok(()) }
}

/// Appends one exchange to `list`.
pub(crate) fn push_exchange(list: &mut Vec<Transfer>, tx: Vec<u8>, rx: Reply)
    ensures
        transfer_views(final(list)@) == transfer_views(old(list)@).push(
            TransferView::Exchange { tx: tx@, rx },
        ),
{
    list.push(Transfer::Exchange { tx, rx });
    assert(transfer_views(list@) =~= transfer_views(old(list)@).push(
        TransferView::Exchange { tx: tx@, rx },
    ));
}

/// This many zero bytes.
pub open spec fn zero_bytes(len: int) -> Seq<u8> {
    Seq::new(len as nat, |i: int| 0u8)
}

/// This many zero bytes.
pub(crate) fn zeros(len: usize) -> (bytes: Vec<u8>)
    ensures
        bytes@ == zero_bytes(len as int),
{
    let mut bytes: Vec<u8> = Vec::new();
    for i in 0..len
        invariant
            bytes@ == zero_bytes(i as int),
    {
        bytes.push(0);
        assert(bytes@ =~= zero_bytes(i + 1));
    }
    bytes
}

/// A refused operation ends the list there: nothing of it or of what follows
/// reaches the wire, and what preceded it does.
pub proof fn law_refusal_ends_the_list<B: Framing>(bus: B, ops: Seq<Op>, at: int, refused: int)
    requires
        0 <= at <= refused < ops.len(),
        bus.framed(ops[refused], refused as usize) is None,
        forall|i: int|
            at <= i < refused ==> bus.framed(#[trigger] ops[i], i as usize) is Some,
    ensures
        planned(bus, ops, at).result == Err::<(), BusError>(BusError::InvalidConfig),
        planned(bus, ops, at).transfers == planned(bus, ops.take(refused), at).transfers,
    decreases refused - at,
{
    if at < refused {
        law_refusal_ends_the_list(bus, ops, at + 1, refused);
        assert(ops.take(refused)[at] == ops[at]);
    }
}

/// The pauses in a run of transfers.
pub open spec fn pauses(run: Seq<TransferView>) -> Seq<u32>
    decreases run.len(),
{
    if run.len() == 0 {
        Seq::empty()
    } else {
        let before = pauses(run.drop_last());
        match run.last() {
            TransferView::Delay(us) => before.push(us),
            TransferView::Exchange { .. } => before,
        }
    }
}

/// The pauses that some operations ask for, from `at` on.
pub open spec fn asked_pauses(ops: Seq<Op>, at: int) -> Seq<u32>
    decreases ops.len() - at,
{
    if at < 0 || at >= ops.len() {
        Seq::empty()
    } else {
        (if ops[at].delay_us == 0 {
            Seq::empty()
        } else {
            seq![ops[at].delay_us]
        }) + asked_pauses(ops, at + 1)
    }
}

proof fn lemma_pauses_join(a: Seq<TransferView>, b: Seq<TransferView>)
    ensures
        pauses(a + b) == pauses(a) + pauses(b),
    decreases b.len(),
{
    if b.len() == 0 {
        assert(a + b =~= a);
        assert(pauses(a) + pauses(b) =~= pauses(a));
    } else {
        assert((a + b).drop_last() =~= a + b.drop_last());
        lemma_pauses_join(a, b.drop_last());
        assert((a + b).last() == b.last());
        assert(pauses(a + b) =~= pauses(a) + pauses(b));
    }
}

/// Where every operation is taken, the plan succeeds, and pauses after each operation for as
/// long as it asks, and nowhere else, so long as the bus puts no pause of its own into one.
pub proof fn law_every_pause_is_kept<B: Framing>(bus: B, ops: Seq<Op>, at: int)
    requires
        0 <= at <= ops.len(),
        forall|i: int|
            at <= i < ops.len() ==> bus.framed(#[trigger] ops[i], i as usize) is Some && pauses(
                bus.framed(ops[i], i as usize)->0,
            ).len() == 0,
    ensures
        planned(bus, ops, at).result is Ok,
        pauses(planned(bus, ops, at).transfers) == asked_pauses(ops, at),
    decreases ops.len() - at,
{
    if at < ops.len() {
        law_every_pause_is_kept(bus, ops, at + 1);
        let first = bus.framed(ops[at], at as usize)->0;
        let rest = planned(bus, ops, at + 1).transfers;
        lemma_pauses_join(first, pause(ops[at]));
        lemma_pauses_join(first + pause(ops[at]), rest);
        assert(pauses(first) =~= Seq::empty());
        let p = pause(ops[at]);
        if ops[at].delay_us > 0 {
            assert(p.drop_last() =~= Seq::empty());
            assert(pauses(p.drop_last()) =~= Seq::empty());
            assert(pauses(p) =~= seq![ops[at].delay_us]);
        } else {
            assert(pauses(p) =~= Seq::empty());
        }
        assert(pauses(planned(bus, ops, at).transfers) =~= asked_pauses(ops, at));
    }
}

/// Operations keep their order: a plan begins with the first one's transfers and goes on with
/// the plan of the others, as if these were given alone.
pub proof fn law_operations_keep_their_order<B: Framing>(bus: B, ops: Seq<Op>, at: int, upto: int)
    requires
        0 <= at <= upto <= ops.len(),
        forall|i: int| at <= i < upto ==> bus.framed(#[trigger] ops[i], i as usize) is Some,
    ensures
        planned(bus, ops, at).transfers == planned(bus, ops.take(upto), at).transfers + planned(
            bus,
            ops,
            upto,
        ).transfers,
        planned(bus, ops, at).result == planned(bus, ops, upto).result,
    decreases upto - at,
{
    let some = ops.take(upto);
    if at < upto {
        law_operations_keep_their_order(bus, ops, at + 1, upto);
        assert(some[at] == ops[at]);
        assert(planned(bus, ops, at).transfers =~= planned(bus, some, at).transfers + planned(
            bus,
            ops,
            upto,
        ).transfers);
    } else {
        assert(planned(bus, ops, at).transfers =~= planned(bus, some, at).transfers + planned(
            bus,
            ops,
            upto,
        ).transfers);
    }
}

} // verus!
