//! An SPI master: the clock divider, transfers through the data buffer, and the
//! choice between the buffer and DMA.

use vstd::prelude::*;

use super::claims::Claims;
use super::{judge, Admission, Poll, RegOp, APB_HZ};
use crate::bus::{BusConfig, BusError, SpiMode};
use crate::math::{word_byte, word_of};

verus! {

/// The controller that the boot flash hangs on.
pub const SPI1_BASE: u32 = 0x3FF4_2000;
pub const SPI2_BASE: u32 = 0x3FF6_4000;
pub const SPI3_BASE: u32 = 0x3FF6_5000;

pub const SPI_CMD: u32 = 0x00;
pub const SPI_ADDR: u32 = 0x04;
pub const SPI_CTRL: u32 = 0x08;
pub const SPI_CTRL1: u32 = 0x0C;
pub const SPI_RD_STATUS: u32 = 0x10;
pub const SPI_CTRL2: u32 = 0x14;
pub const SPI_CLOCK: u32 = 0x18;
pub const SPI_USER: u32 = 0x1C;
pub const SPI_USER1: u32 = 0x20;
pub const SPI_USER2: u32 = 0x24;
pub const SPI_MOSI_DLEN: u32 = 0x28;
pub const SPI_MISO_DLEN: u32 = 0x2C;
pub const SPI_PIN: u32 = 0x34;
pub const SPI_SLAVE: u32 = 0x38;
/// The data buffer's first word.
pub const SPI_W0: u32 = 0x80;

/// Resets the transfer state machine.
pub const SPI_SYNC_RESET: u32 = 1 << 31;
/// The transaction is over; cleared by writing zero.
pub const SPI_TRANS_DONE: u32 = 1 << 4;
/// The edge on which input is taken.
pub const SPI_CK_I_EDGE: u32 = 1 << 6;
/// Starts a transaction, and clears itself at its end.
pub const SPI_CMD_USR: u32 = 1 << 18;
pub const SPI_USR_MISO: u32 = 1 << 28;
pub const SPI_USR_MOSI: u32 = 1 << 27;
/// The edge on which output changes.
pub const SPI_CK_OUT_EDGE: u32 = 1 << 7;
/// Both directions at once.
pub const SPI_DOUTDIN: u32 = 1 << 0;
/// Chip select before the first and after the last clock.
pub const SPI_CS_SETUP: u32 = 1 << 5;
pub const SPI_CS_HOLD: u32 = 1 << 4;

pub const SPI_DATA_BUF_WORDS: usize = 16;
/// What the data buffer holds.
pub const SPI_MAX_BYTES: usize = 64;

/// How many looks in vain a transfer is given.
pub const SPI_TIMEOUT_SPINS: u32 = 1_000_000;

/// How many descriptors there is room for in each direction.
pub const MAX_DESCS: usize = 16;

/// A general-purpose controller.
#[derive(Clone, Copy, Debug, PartialEq, Eq, Structural)]
pub enum SpiCtrl {
    Spi2,
    Spi3,
}

impl SpiCtrl {
    /// Where its registers are.
    pub open spec fn spec_base(self) -> u32 {
        match self {
            SpiCtrl::Spi2 => SPI2_BASE,
            SpiCtrl::Spi3 => SPI3_BASE,
        }
    }

    /// Where its registers are.
    pub fn base(self) -> (base: u32)
        ensures
            base == self.spec_base(),
    {
        match self {
            SpiCtrl::Spi2 => SPI2_BASE,
            SpiCtrl::Spi3 => SPI3_BASE,
        }
    }
}

/// A controller's flag among the claims.
pub open spec fn flag_of(ctrl: SpiCtrl) -> int {
    match ctrl {
        SpiCtrl::Spi2 => 0,
        SpiCtrl::Spi3 => 1,
    }
}

/// A controller's flag among the claims.
pub fn claim_index(ctrl: SpiCtrl) -> (i: usize)
    ensures
        i == flag_of(ctrl),
        i < 2,
{
    match ctrl {
        SpiCtrl::Spi2 => 0,
        SpiCtrl::Spi3 => 1,
    }
}

/// The number of the general-purpose controller at an address.
pub open spec fn instance_at(base: u32) -> Option<u8> {
    if base == SPI2_BASE {
        Some(2)
    } else if base == SPI3_BASE {
        Some(3)
    } else {
        None
    }
}

/// The number of the general-purpose controller at an address. The flash's own is
/// none.
pub fn spi_instance(base: u32) -> (n: Option<u8>)
    ensures
        n == instance_at(base),
{
    if base == SPI2_BASE {
        Some(2)
    } else if base == SPI3_BASE {
        Some(3)
    } else {
        None
    }
}

/// Where the DMA state of a controller is kept, if it has any.
pub fn dma_slot(instance: u8) -> (slot: Option<usize>)
    ensures
        slot == match instance {
            2 => Some(0usize),
            3 => Some(1usize),
            _ => None,
        },
{
    match instance {
        2 => Some(0),
        3 => Some(1),
        _ => None,
    }
}

/// What a controller remembers of DMA.
#[derive(Clone, Copy, Debug, PartialEq, Eq, Structural)]
pub struct DmaSlot {
    /// Whether it has a channel.
    pub channel: bool,
    pub enabled: bool,
    /// Which of the two banks of descriptors comes next. Consecutive transfers
    /// alternate, so that the engine never finds a new chain at an old address.
    pub next_bank: usize,
}

impl DmaSlot {
    pub open spec fn wf(&self) -> bool {
        self.next_bank < 2
    }

    /// No channel yet, and wanted.
    pub fn new() -> (s: Self)
        ensures
            s == (DmaSlot { channel: false, enabled: true, next_bank: 0 }),
            s.wf(),
    {
        DmaSlot { channel: false, enabled: true, next_bank: 0 }
    }

    /// Takes note of whether a channel was to be had; one that is held stays.
    pub fn grant(&mut self, granted: bool)
        ensures
            *final(self) == (DmaSlot { channel: old(self).channel || granted, ..*old(self) }),
    {
        if !self.channel {
            self.channel = granted;
        }
    }
}

/// Whether a bus may have these pads, given what the pin multiplexer says of each:
/// three different pads, and none refused.
pub open spec fn pads_accepted(
    mosi: u8,
    miso: u8,
    sck: u8,
    routable: (Result<(), BusError>, Result<(), BusError>, Result<(), BusError>),
) -> Result<(), BusError> {
    if mosi == miso || mosi == sck || miso == sck {
        Err(BusError::InvalidConfig)
    } else if routable.0 is Err {
        routable.0
    } else if routable.1 is Err {
        routable.1
    } else {
        routable.2
    }
}

/// Whether a bus may have these pads, given what the pin multiplexer says of each.
/// All are judged before any is connected.
pub fn route_pins(
    mosi: u8,
    miso: u8,
    sck: u8,
    routable: (Result<(), BusError>, Result<(), BusError>, Result<(), BusError>),
) -> (r: Result<(), BusError>)
    ensures
        r == pads_accepted(mosi, miso, sck, routable),
{
    if mosi == miso || mosi == sck || miso == sck {
        return Err(BusError::InvalidConfig);
    }
    match routable.0 {
        Err(e) => Err(e),
        Ok(()) => match routable.1 {
            Err(e) => Err(e),
            Ok(()) => routable.2,
        },
    }
}

/// The first four bytes as a word of the data buffer, the first to go out lowest.
pub fn pack_word(bytes: &[u8]) -> (word: u32)
    ensures
        word == crate::math::le_word(bytes@),
{
    assert(bytes@.subrange(0, bytes@.len() as int) =~= bytes@);
    word_of(bytes, 0, bytes.len())
}

/// Takes up to four bytes out of a word of the data buffer.
pub fn unpack_word(word: u32, out: &mut [u8])
    ensures
        final(out)@.len() == old(out)@.len(),
        forall|i: int|
            0 <= i < final(out)@.len() ==> #[trigger] final(out)@[i] == if i < 4 {
                crate::math::le_byte(word, i)
            } else {
                old(out)@[i]
            },
{
    let n: usize = if out.len() < 4 {
        out.len()
    } else {
        4
    };
    for i in 0..n
        invariant
            n <= 4,
            n <= out@.len(),
            out@.len() == old(out)@.len(),
            forall|k: int|
                0 <= k < out@.len() ==> #[trigger] out@[k] == if k < i {
                    crate::math::le_byte(word, k)
                } else {
                    old(out)@[k]
                },
    {
        out[i] = word_byte(word, i);
    }
}

/// What was packed comes back out.
pub proof fn law_packing_is_undone(bytes: Seq<u8>, i: int)
    requires
        0 <= i < bytes.len(),
        i < 4,
    ensures
        crate::math::le_byte(crate::math::le_word(bytes), i) == bytes[i],
{
    crate::math::lemma_word_holds_its_bytes(bytes, i);
}

/// How many words of the data buffer some bytes take.
pub open spec fn words_for(len: int) -> int {
    (len + 3) / 4
}

/// How many words of the data buffer some bytes take.
pub fn word_count(len: usize) -> (n: usize)
    ensures
        n == words_for(len as int),
{
    if len % 4 == 0 {
        len / 4
    } else {
        len / 4 + 1
    }
}

/// The accesses that fill the data buffer.
pub open spec fn loading(base: u32, data: Seq<u8>) -> Seq<RegOp> {
    Seq::new(
        words_for(data.len() as int) as nat,
        |w: int|
            RegOp::Write {
                addr: (base + SPI_W0 + 4 * w) as u32,
                value: crate::math::le_word(
                    data.subrange(4 * w, super::smaller(4 * w + 4, data.len() as int)),
                ),
            },
    )
}

/// Fills the data buffer with the first `len` bytes.
pub(crate) fn load(base: u32, data: &[u8], len: usize) -> (ops: Vec<RegOp>)
    requires
        len <= data@.len(),
        len <= SPI_MAX_BYTES,
        base + 0x150 <= u32::MAX,
    ensures
        ops@ == loading(base, data@.take(len as int)),
{
    let n: usize = word_count(len);
    let ghost bytes = data@.take(len as int);
    let mut ops: Vec<RegOp> = Vec::new();
    for w in 0..n
        invariant
            n == words_for(len as int),
            len <= data@.len(),
            len <= SPI_MAX_BYTES,
            base + 0x150 <= u32::MAX,
            bytes == data@.take(len as int),
            ops@ =~= loading(base, bytes).take(w as int),
    {
        let from: usize = 4 * w;
        let to: usize = if from + 4 < len {
            from + 4
        } else {
            len
        };
        let value: u32 = word_of(data, from, to);
        assert(data@.subrange(from as int, to as int) =~= bytes.subrange(from as int, to as int));
        ops.push(RegOp::Write { addr: base + SPI_W0 + 4 * w as u32, value });
    }
    assert(loading(base, bytes).take(n as int) =~= loading(base, bytes));
    ops
}

/// Takes `len` bytes out of the words of the data buffer.
pub fn unload(words: &[u32], rx: &mut [u8], len: usize)
    requires
        len <= old(rx)@.len(),
        words@.len() == words_for(len as int),
    ensures
        final(rx)@.len() == old(rx)@.len(),
        forall|i: int|
            0 <= i < final(rx)@.len() ==> #[trigger] final(rx)@[i] == if i < len {
                crate::math::le_byte(words@[i / 4], i % 4)
            } else {
                old(rx)@[i]
            },
{
    for i in 0..len
        invariant
            len <= rx@.len(),
            rx@.len() == old(rx)@.len(),
            words@.len() == words_for(len as int),
            forall|k: int|
                0 <= k < rx@.len() ==> #[trigger] rx@[k] == if k < i {
                    crate::math::le_byte(words@[k / 4], k % 4)
                } else {
                    old(rx)@[k]
                },
    {
        rx[i] = word_byte(words[i / 4], i % 4);
    }
}

/// The prescaler that brings the counter `n` closest to `hz`.
pub open spec fn prescaler(fapb: int, hz: int, n: int) -> int {
    super::larger(super::smaller((fapb / n + hz / 2) / hz, 8192), 1)
}

/// How far from `hz` the counter `n` ends up.
pub open spec fn clock_error(fapb: int, hz: int, n: int) -> int {
    let got = fapb / (prescaler(fapb, hz, n) * n);
    if got < hz {
        hz - got
    } else {
        got - hz
    }
}

/// `n` is the counter to take: none comes closer, and none above it as close.
pub open spec fn is_best(fapb: int, hz: int, n: int) -> bool {
    &&& 2 <= n <= 64
    &&& forall|m: int|
        2 <= m <= 64 ==> clock_error(fapb, hz, n) <= #[trigger] clock_error(fapb, hz, m) && (m > n
            ==> clock_error(fapb, hz, n) < clock_error(fapb, hz, m))
}

/// How much of a counter's period the clock is high: half of it, rounded, and never
/// nothing.
pub open spec fn high_phase(n: int) -> int {
    super::larger((128 * n + 127) / 256, 1)
}

/// The clock register's fields, each one less than what it stands for.
pub open spec fn clock_fields(pre: u32, n: u32, h: u32, l: u32) -> u32 {
    ((pre & 0x1FFF) << 18) | ((n & 0x3F) << 12) | ((h & 0x3F) << 6) | (l & 0x3F)
}

/// The clock register for `hz` out of a peripheral clock of `fapb`: that clock
/// itself above three quarters of it, else the closest that prescaler and counter
/// reach.
pub open spec fn clock_reg(fapb: int, hz: int) -> u32 {
    let hz = super::larger(hz, 1);
    if hz > fapb / 4 * 3 {
        1u32 << 31
    } else {
        let n = choose|n: int| is_best(fapb, hz, n);
        clock_fields(
            (prescaler(fapb, hz, n) - 1) as u32,
            (n - 1) as u32,
            (high_phase(n) - 1) as u32,
            (n - 1) as u32,
        )
    }
}

/// There is only one counter to take.
proof fn lemma_best_is_one(fapb: int, hz: int, a: int, b: int)
    requires
        is_best(fapb, hz, a),
        is_best(fapb, hz, b),
    ensures
        a == b,
{
    assert(clock_error(fapb, hz, a) <= clock_error(fapb, hz, b));
    assert(clock_error(fapb, hz, b) <= clock_error(fapb, hz, a));
}

proof fn lemma_divider_bounds(fapb: int, hz: int, n: int)
    requires
        fapb >= 0,
        hz >= 1,
        2 <= n <= 64,
    ensures
        0 <= fapb / n <= fapb / 2,
        1 <= prescaler(fapb, hz, n) <= 8192,
        1 <= prescaler(fapb, hz, n) * n <= 0x8_0000,
        0 <= fapb / (prescaler(fapb, hz, n) * n) <= fapb,
{
    let pre = prescaler(fapb, hz, n);
    assert(0 <= fapb / n <= fapb / 2) by (nonlinear_arith)
        requires
            fapb >= 0,
            2 <= n,
    ;
    assert(1 <= pre * n <= 0x8_0000) by (nonlinear_arith)
        requires
            1 <= pre <= 8192,
            2 <= n <= 64,
    ;
    let d = pre * n;
    assert(0 <= fapb / d <= fapb) by (nonlinear_arith)
        requires
            fapb >= 0,
            d >= 1,
    ;
}

/// The clock register for a bus clock.
pub fn spi_clock_reg(fapb: u32, hz: u32) -> (word: u32)
    ensures
        word == clock_reg(fapb as int, hz as int),
{
    let hz: u32 = if hz < 1 {
        1
    } else {
        hz
    };
    if hz > (fapb / 4) * 3 {
        return 1 << 31;
    }
    let ghost f = fapb as int;
    let ghost g = hz as int;
    let mut best_n: u32 = 2;
    let mut best_pre: u32 = 1;
    let mut best_err: u32 = u32::MAX;
    for n in 2..65u32
        invariant
            f == fapb,
            g == hz,
            hz >= 1,
            hz <= (fapb / 4) * 3,
            n == 2 ==> best_err == u32::MAX,
            n > 2 ==> {
                &&& 2 <= best_n < n
                &&& best_pre == prescaler(f, g, best_n as int)
                &&& best_err == clock_error(f, g, best_n as int)
                &&& forall|m: int|
                    2 <= m < n ==> best_err <= #[trigger] clock_error(f, g, m) && (m > best_n
                        ==> best_err < clock_error(f, g, m))
            },
    {
        proof {
            lemma_divider_bounds(f, g, n as int);
        }
        let mut pre: u32 = ((fapb / n) + hz / 2) / hz;
        if pre < 1 {
            pre = 1;
        }
        if pre > 8192 {
            pre = 8192;
        }
        assert(pre == prescaler(f, g, n as int));
        let got: u32 = fapb / (pre * n);
        let err: u32 = if got < hz {
            hz - got
        } else {
            got - hz
        };
        assert(err == clock_error(f, g, n as int));
        if err <= best_err {
            best_err = err;
            best_n = n;
            best_pre = pre;
        }
    }
    let n: u32 = best_n;
    let half: u32 = (128 * n + 127) / 256;
    let h: u32 = if half < 1 {
        1
    } else {
        half
    };
    proof {
        assert(is_best(f, g, n as int));
        lemma_best_is_one(f, g, n as int, choose|m: int| is_best(f, g, m));
        lemma_divider_bounds(f, g, n as int);
    }
    (((best_pre - 1) & 0x1FFF) << 18) | (((n - 1) & 0x3F) << 12) | (((h - 1) & 0x3F) << 6) | ((n
        - 1) & 0x3F)
}

proof fn lemma_best_exists(fapb: int, hz: int, upto: int) -> (n: int)
    requires
        2 <= upto <= 64,
    ensures
        2 <= n <= upto,
        forall|m: int|
            2 <= m <= upto ==> clock_error(fapb, hz, n) <= #[trigger] clock_error(fapb, hz, m) && (m
                > n ==> clock_error(fapb, hz, n) < clock_error(fapb, hz, m)),
    decreases upto,
{
    if upto == 2 {
        2
    } else {
        let before = lemma_best_exists(fapb, hz, upto - 1);
        if clock_error(fapb, hz, upto) <= clock_error(fapb, hz, before) {
            upto
        } else {
            before
        }
    }
}

proof fn lemma_clock_fields(pre: u32, n: u32, h: u32, l: u32)
    by (bit_vector)
    requires
        pre < 0x2000,
        n < 0x40,
        h < 0x40,
        l < 0x40,
    ensures
        ({
            let w = ((pre & 0x1FFF) << 18) | ((n & 0x3F) << 12) | ((h & 0x3F) << 6) | (l & 0x3F);
            &&& w & (1u32 << 31) == 0
            &&& (w >> 18) & 0x1FFF == pre
            &&& (w >> 12) & 0x3F == n
            &&& (w >> 6) & 0x3F == h
            &&& w & 0x3F == l
        }),
{
}

/// A divided clock's register is never inconsistent, whatever the frequency asked
/// for: it reads back the prescaler and counter that were chosen, its high phase
/// does not exceed its period, and its low phase ends with it. No prescaler and
/// counter come closer to what was asked.
pub proof fn law_divided_clock_is_consistent(fapb: u32, hz: u32)
    requires
        1 <= hz <= fapb / 4 * 3,
    ensures
        ({
            let w = clock_reg(fapb as int, hz as int);
            let n = ((w >> 12) & 0x3F) + 1;
            &&& w & (1u32 << 31) == 0
            &&& is_best(fapb as int, hz as int, n)
            &&& ((w >> 18) & 0x1FFF) + 1 == prescaler(fapb as int, hz as int, n)
            &&& ((w >> 6) & 0x3F) + 1 == high_phase(n)
            &&& 1 <= high_phase(n) <= n
            &&& (w & 0x3F) + 1 == n
        }),
{
    let f = fapb as int;
    let g = hz as int;
    let found = lemma_best_exists(f, g, 64);
    assert(is_best(f, g, found));
    let n = choose|n: int| is_best(f, g, n);
    lemma_divider_bounds(f, g, n);
    lemma_clock_fields(
        (prescaler(f, g, n) - 1) as u32,
        (n - 1) as u32,
        (high_phase(n) - 1) as u32,
        (n - 1) as u32,
    );
}

/// A controller as a master. `cpha` is the clock phase of its mode, which every
/// transfer has to carry.
#[derive(Clone, Copy, Debug, PartialEq, Eq, Structural)]
pub struct Esp32Spi {
    pub base: u32,
    pub cpha: bool,
}

/// A piece of a transfer that fits the data buffer.
#[derive(Clone, Copy, Debug, PartialEq, Eq, Structural)]
pub struct Chunk {
    pub from: usize,
    pub to: usize,
}

/// The pieces of a transfer.
pub open spec fn chunks(len: int) -> Seq<Chunk> {
    Seq::new(
        ((len + 63) / 64) as nat,
        |i: int|
            Chunk { from: (64 * i) as usize, to: super::smaller(64 * i + 64, len) as usize },
    )
}

/// The pieces of a transfer cover it, in order and without a gap, and each fits the
/// data buffer.
pub proof fn law_chunks_cover_the_transfer(len: usize, i: int)
    requires
        0 <= i < chunks(len as int).len(),
    ensures
        ({
            let all = chunks(len as int);
            &&& all[0].from == 0
            &&& all[i].from < all[i].to <= all[i].from + SPI_MAX_BYTES
            &&& i + 1 < all.len() ==> all[i + 1].from == all[i].to
            &&& all.last().to == len
        }),
{
}

/// How a transfer is carried out.
pub enum Exchange {
    /// Not at all.
    Refused(BusError),
    /// Through the data buffer, piece by piece.
    Fifo(Vec<Chunk>),
    /// By DMA, with this bank of descriptors.
    Dma { bank: usize },
}

/// An [`Exchange`] with its pieces as a sequence.
pub enum ExchangeView {
    Refused(BusError),
    Fifo(Seq<Chunk>),
    Dma { bank: usize },
}

impl View for Exchange {
    type V = ExchangeView;

    open spec fn view(&self) -> ExchangeView {
        match *self {
            Exchange::Refused(e) => ExchangeView::Refused(e),
            Exchange::Fifo(list) => ExchangeView::Fifo(list@),
            Exchange::Dma { bank } => ExchangeView::Dma { bank },
        }
    }
}

/// How a transfer of `len` bytes is carried out: by DMA where it is wanted, there is
/// a channel, the memory can be reached and the chain is not too long; in pieces
/// where it is small, or DMA is not to be had; not at all where DMA was wanted for a
/// large one and cannot be.
pub open spec fn choosing(
    base: u32,
    slot: DmaSlot,
    len: int,
    reachable: bool,
    descriptors: int,
) -> ExchangeView {
    let dma = slot.enabled && slot.channel;
    if instance_at(base) is None {
        ExchangeView::Refused(BusError::InvalidConfig)
    } else if dma && len > 0 && reachable && descriptors <= MAX_DESCS {
        ExchangeView::Dma { bank: slot.next_bank }
    } else if dma && len > SPI_MAX_BYTES {
        ExchangeView::Refused(
            if descriptors > MAX_DESCS {
                BusError::InvalidConfig
            } else {
                BusError::DmaError
            },
        )
    } else {
        ExchangeView::Fifo(chunks(len))
    }
}

/// The word that starts a data phase both ways, with the clock phase.
pub open spec fn duplex(cpha: bool) -> u32 {
    SPI_DOUTDIN | SPI_USR_MOSI | SPI_USR_MISO | if cpha {
        SPI_CK_OUT_EDGE
    } else {
        0
    }
}

/// Writes a register.
pub open spec fn write(base: u32, offset: u32, value: u32) -> RegOp {
    RegOp::Write { addr: (base + offset) as u32, value }
}

/// Changes some bits of a register.
pub open spec fn change(base: u32, offset: u32, clear: u32, set: u32) -> RegOp {
    RegOp::Update { addr: (base + offset) as u32, clear, set }
}

/// The accesses of a transfer of some bytes through the data buffer. Whether chip
/// select is framed by the hardware stays as it is.
pub open spec fn transferring(base: u32, cpha: bool, data: Seq<u8>) -> Seq<RegOp> {
    loading(base, data) + seq![
        write(base, SPI_MOSI_DLEN, (8 * data.len() - 1) as u32),
        write(base, SPI_MISO_DLEN, (8 * data.len() - 1) as u32),
        change(base, SPI_USER, !(SPI_CS_SETUP | SPI_CS_HOLD), duplex(cpha)),
        write(base, SPI_CMD, SPI_CMD_USR),
    ]
}

/// Clock polarity and phase of a mode.
pub open spec fn polarity_and_phase(mode: SpiMode) -> (bool, bool) {
    match mode {
        SpiMode::Mode0 => (false, false),
        SpiMode::Mode1 => (false, true),
        SpiMode::Mode2 => (true, false),
        SpiMode::Mode3 => (true, true),
    }
}

/// The accesses that configure a master: its clock, no chip select, the idle level,
/// the sampling delay and setup time, and no slave mode.
pub open spec fn configuring(base: u32, hz: u32, mode: SpiMode) -> Seq<RegOp> {
    let cpol = polarity_and_phase(mode).0;
    seq![
        write(base, SPI_CLOCK, clock_reg(APB_HZ as int, hz as int)),
        change(
            base,
            SPI_PIN,
            if cpol {
                0
            } else {
                1u32 << 29
            },
            if cpol {
                7u32 | (1u32 << 29)
            } else {
                7
            },
        ),
        change(base, SPI_CTRL2, (3u32 << 16) | 0xF, (2u32 << 16) | 0xF),
        change(base, SPI_SLAVE, 1, 0),
    ]
}

/// The accesses that let the hardware drive the first chip select.
pub open spec fn selecting(base: u32) -> Seq<RegOp> {
    seq![change(base, SPI_PIN, 1, 0), change(base, SPI_USER, 0, SPI_CS_SETUP | SPI_CS_HOLD)]
}

/// The access that changes the clock, where there is such a clock.
pub open spec fn speeding(base: u32, hz: u32) -> Result<RegOp, BusError> {
    if hz == 0 || hz > APB_HZ {
        Err(BusError::InvalidConfig)
    } else {
        Ok(write(base, SPI_CLOCK, clock_reg(APB_HZ as int, hz as int)))
    }
}

/// How the controller at an address answers a request to come up.
pub open spec fn admitted(
    base: u32,
    config: BusConfig,
    routable: (Result<(), BusError>, Result<(), BusError>, Result<(), BusError>),
) -> Admission {
    match config {
        BusConfig::Spi(c) if instance_at(base) is Some => Admission {
            clock: true,
            result: pads_accepted(c.mosi, c.miso, c.sck, routable),
        },
        _ => Admission { clock: false, result: Err(BusError::InvalidConfig) },
    }
}

impl Esp32Spi {
    /// The registers lie within the address space.
    pub open spec fn wf(&self) -> bool {
        self.base + 0x150 <= u32::MAX
    }

    /// A driver of the controller at an address.
    pub fn new(base_addr: u32) -> (c: Self)
        ensures
            c == (Esp32Spi { base: base_addr, cpha: false }),
    {
        Esp32Spi { base: base_addr, cpha: false }
    }

    /// Takes a controller that nobody has.
    pub fn open(claims: &mut Claims, ctrl: SpiCtrl) -> (r: Result<Self, BusError>)
        requires
            old(claims)@.len() == 2,
        ensures
            match r {
                Ok(c) => !old(claims)@[flag_of(ctrl)] && c == (Esp32Spi {
                    base: ctrl.spec_base(),
                    cpha: false,
                }) && c.wf(),
                Err(e) => old(claims)@[flag_of(ctrl)] && e is Busy,
            },
            final(claims)@ == old(claims)@.update(flag_of(ctrl), true),
    {
        let won: bool = claims.claim(claim_index(ctrl));
        if won {
            Ok(Esp32Spi::new(ctrl.base()))
        } else {
            Err(BusError::Busy)
        }
    }

    /// Gives a controller back if it did not come up, so that it can be tried anew.
    pub fn opened(claims: &mut Claims, ctrl: SpiCtrl, up: Result<(), BusError>)
        requires
            old(claims)@.len() == 2,
        ensures
            final(claims)@ == if up is Err {
                old(claims)@.update(flag_of(ctrl), false)
            } else {
                old(claims)@
            },
    {
        if up.is_err() {
            claims.release(claim_index(ctrl));
        }
    }

    pub(crate) fn reg(&self, offset: u32, value: u32) -> (op: RegOp)
        requires
            self.base + offset <= u32::MAX,
        ensures
            op == write(self.base, offset, value),
    {
        RegOp::Write { addr: self.base + offset, value }
    }

    pub(crate) fn change(&self, offset: u32, clear: u32, set: u32) -> (op: RegOp)
        requires
            self.base + offset <= u32::MAX,
        ensures
            op == self::change(self.base, offset, clear, set),
    {
        RegOp::Update { addr: self.base + offset, clear, set }
    }

    /// Programs the clock.
    pub fn apply_clock(&self, speed_hz: u32) -> (op: RegOp)
        requires
            self.wf(),
        ensures
            op == write(self.base, SPI_CLOCK, clock_reg(APB_HZ as int, speed_hz as int)),
    {
        self.reg(SPI_CLOCK, spi_clock_reg(APB_HZ, speed_hz))
    }

    /// Starts a transfer of as many bytes as both `tx` and the `room` for the reply
    /// have; [`fifo_done`] tells when it is over, and [`unload`] takes the reply. A
    /// transfer of nothing is over at once.
    pub fn fifo_exchange(&self, tx: &[u8], room: usize) -> (r: Result<Vec<RegOp>, BusError>)
        requires
            self.wf(),
        ensures
            ({
                let len = super::smaller(tx@.len() as int, room as int);
                match r {
                    Err(e) => len > SPI_MAX_BYTES && e is InvalidConfig,
                    Ok(ops) => len <= SPI_MAX_BYTES && ops@ == if len == 0 {
                        Seq::<RegOp>::empty()
                    } else {
                        transferring(self.base, self.cpha, tx@.take(len))
                    },
                }
            }),
    {
        let len: usize = if tx.len() < room {
            tx.len()
        } else {
            room
        };
        if len > SPI_MAX_BYTES {
            return Err(BusError::InvalidConfig);
        }
        if len == 0 {
            return Ok(Vec::new());
        }
        let mut ops: Vec<RegOp> = load(self.base, tx, len);
        let bits: u32 = len as u32 * 8 - 1;
        let ck_out: u32 = if self.cpha {
            SPI_CK_OUT_EDGE
        } else {
            0
        };
        ops.push(self.reg(SPI_MOSI_DLEN, bits));
        ops.push(self.reg(SPI_MISO_DLEN, bits));
        ops.push(
            self.change(
                SPI_USER,
                !(SPI_CS_SETUP | SPI_CS_HOLD),
                SPI_DOUTDIN | SPI_USR_MOSI | SPI_USR_MISO | ck_out,
            ),
        );
        ops.push(self.reg(SPI_CMD, SPI_CMD_USR));
        assert(ops@ =~= transferring(self.base, self.cpha, tx@.take(len as int)));
        Ok(ops)
    }

    /// Lets the hardware frame each transfer with the first chip select.
    pub fn enable_cs0(&self) -> (ops: Vec<RegOp>)
        requires
            self.wf(),
        ensures
            ops@ == selecting(self.base),
    {
        let ops: Vec<RegOp> = vec![
            self.change(SPI_PIN, 1, 0),
            self.change(SPI_USER, 0, SPI_CS_SETUP | SPI_CS_HOLD),
        ];
        assert(ops@ =~= selecting(self.base));
        ops
    }

    /// Wants DMA for what follows, or does not; a controller without any is left as
    /// it is.
    pub fn set_dma(&self, slot: &mut DmaSlot, enabled: bool)
        ensures
            *final(slot) == if instance_at(self.base) is Some {
                DmaSlot { enabled, ..*old(slot) }
            } else {
                *old(slot)
            },
    {
        if spi_instance(self.base).is_some() {
            slot.enabled = enabled;
        }
    }

    /// The pieces of a transfer through the data buffer.
    pub fn fifo_chunked(&self, len: usize) -> (list: Vec<Chunk>)
        ensures
            list@ == chunks(len as int),
    {
        let mut list: Vec<Chunk> = Vec::new();
        let mut off: usize = 0;
        while off < len
            invariant
                off <= len,
                list@.len() <= chunks(len as int).len(),
                off == super::smaller(64 * list@.len() as int, len as int),
                list@ =~= chunks(len as int).take(list@.len() as int),
            decreases len - off,
        {
            let to: usize = if len - off > SPI_MAX_BYTES {
                off + SPI_MAX_BYTES
            } else {
                len
            };
            list.push(Chunk { from: off, to });
            off = to;
        }
        assert(chunks(len as int).take(list@.len() as int) =~= chunks(len as int));
        list
    }

    /// Whether the controller can come up as asked. Where it can, route the pads
    /// push-pull and go on with [`Esp32Spi::configure`].
    pub fn init(
        &self,
        config: &BusConfig,
        routable: (Result<(), BusError>, Result<(), BusError>, Result<(), BusError>),
    ) -> (a: Admission)
        ensures
            a == admitted(self.base, *config, routable),
    {
        match config {
            BusConfig::Spi(c) => {
                if spi_instance(self.base).is_none() {
                    return Admission { clock: false, result: Err(BusError::InvalidConfig) };
                }
                Admission { clock: true, result: route_pins(c.mosi, c.miso, c.sck, routable) }
            },
            _ => Admission { clock: false, result: Err(BusError::InvalidConfig) },
        }
    }

    /// Makes the controller a master with this clock and mode.
    pub fn configure(&mut self, max_hz: u32, mode: SpiMode) -> (ops: Vec<RegOp>)
        requires
            old(self).wf(),
        ensures
            *final(self) == (Esp32Spi { cpha: polarity_and_phase(mode).1, ..*old(self) }),
            ops@ == configuring(old(self).base, max_hz, mode),
    {
        let (cpol, cpha): (bool, bool) = match mode {
            SpiMode::Mode0 => (false, false),
            SpiMode::Mode1 => (false, true),
            SpiMode::Mode2 => (true, false),
            SpiMode::Mode3 => (true, true),
        };
        self.cpha = cpha;
        let pin: RegOp = if cpol {
            self.change(SPI_PIN, 0, 7u32 | (1u32 << 29))
        } else {
            self.change(SPI_PIN, 1u32 << 29, 7)
        };
        let ops: Vec<RegOp> = vec![
            self.apply_clock(max_hz),
            pin,
            self.change(SPI_CTRL2, (3u32 << 16) | 0xF, (2u32 << 16) | 0xF),
            self.change(SPI_SLAVE, 1, 0),
        ];
        assert(ops@ =~= configuring(self.base, max_hz, mode));
        ops
    }

    /// Decides how a transfer of as many bytes as both sides have is carried out,
    /// given whether DMA can reach both and how many descriptors a chain takes.
    pub fn exchange(
        &self,
        slot: &mut DmaSlot,
        tx_len: usize,
        rx_len: usize,
        reachable: bool,
        descriptors: usize,
    ) -> (e: Exchange)
        requires
            old(slot).wf(),
        ensures
            e@ == choosing(
                self.base,
                *old(slot),
                super::smaller(tx_len as int, rx_len as int),
                reachable,
                descriptors as int,
            ),
            *final(slot) == if e@ is Dma {
                DmaSlot { next_bank: (1 - old(slot).next_bank) as usize, ..*old(slot) }
            } else {
                *old(slot)
            },
            final(slot).wf(),
    {
        let len: usize = if tx_len < rx_len {
            tx_len
        } else {
            rx_len
        };
        if spi_instance(self.base).is_none() {
            return Exchange::Refused(BusError::InvalidConfig);
        }
        let dma: bool = slot.enabled && slot.channel;
        if dma && len > 0 && reachable && descriptors <= MAX_DESCS {
            let bank: usize = slot.next_bank;
            slot.next_bank = 1 - bank;
            return Exchange::Dma { bank };
        }
        if dma && len > SPI_MAX_BYTES {
            return Exchange::Refused(
                if descriptors > MAX_DESCS {
                    BusError::InvalidConfig
                } else {
                    BusError::DmaError
                },
            );
        }
        Exchange::Fifo(self.fifo_chunked(len))
    }

    /// Changes the clock of a controller that is up, and nothing else.
    pub fn set_speed(&self, hz: u32) -> (r: Result<RegOp, BusError>)
        requires
            self.wf(),
        ensures
            r == speeding(self.base, hz),
    {
        if hz == 0 || hz > APB_HZ {
            return Err(BusError::InvalidConfig);
        }
        Ok(self.apply_clock(hz))
    }
}

/// Whether a transfer through the data buffer is over, by the command register after
/// `spins` looks in vain.
pub fn fifo_done(cmd: u32, spins: u32) -> (p: Poll)
    ensures
        p == super::verdict(cmd & SPI_CMD_USR == 0, spins, SPI_TIMEOUT_SPINS),
{
    judge(cmd & SPI_CMD_USR == 0, spins, SPI_TIMEOUT_SPINS)
}

/// A controller that did not come up can be opened again at once.
pub proof fn law_a_failed_open_can_be_repeated(claims: Seq<bool>, ctrl: SpiCtrl)
    requires
        claims.len() == 2,
        !claims[flag_of(ctrl)],
    ensures
        claims.update(flag_of(ctrl), true).update(flag_of(ctrl), false) == claims,
{
    assert(claims.update(flag_of(ctrl), true).update(flag_of(ctrl), false) =~= claims);
}

/// While DMA carries everything, no transfer reuses the bank of the one before it.
pub proof fn law_banks_alternate(
    base: u32,
    first: DmaSlot,
    second: DmaSlot,
    len: (int, int),
    descriptors: (int, int),
)
    requires
        first.wf(),
        choosing(base, first, len.0, true, descriptors.0) is Dma,
        second == (DmaSlot { next_bank: (1 - first.next_bank) as usize, ..first }),
        choosing(base, second, len.1, true, descriptors.1) is Dma,
    ensures
        choosing(base, first, len.0, true, descriptors.0) != choosing(
            base,
            second,
            len.1,
            true,
            descriptors.1,
        ),
{
}

} // verus!
