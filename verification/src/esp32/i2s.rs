//! I2S0 talking to itself over DMA: sent words come back through one pad, once or in
//! an endless ring of buffers.

use vstd::prelude::*;

use super::spi_dma::link_addr;
use super::{Admission, RegOp};
use crate::bus::BusError;

verus! {

pub const I2S0_BASE: u32 = 0x3FF4_F000;

pub const CONF: u32 = I2S0_BASE + 0x08;
pub const INT_RAW: u32 = I2S0_BASE + 0x0C;
pub const INT_CLR: u32 = I2S0_BASE + 0x18;
pub const FIFO_CONF: u32 = I2S0_BASE + 0x20;
pub const RXEOF_NUM: u32 = I2S0_BASE + 0x24;
pub const CONF_CHAN: u32 = I2S0_BASE + 0x2C;
pub const OUT_LINK: u32 = I2S0_BASE + 0x30;
pub const IN_LINK: u32 = I2S0_BASE + 0x34;
pub const IN_EOF_DES_ADDR: u32 = I2S0_BASE + 0x3C;
pub const LC_CONF: u32 = I2S0_BASE + 0x60;
pub const CONF2: u32 = I2S0_BASE + 0xA8;
pub const CLKM_CONF: u32 = I2S0_BASE + 0xAC;
pub const SAMPLE_RATE_CONF: u32 = I2S0_BASE + 0xB0;

pub const CONF_TX_RESET: u32 = 1 << 0;
pub const CONF_RX_RESET: u32 = 1 << 1;
pub const CONF_TX_FIFO_RESET: u32 = 1 << 2;
pub const CONF_RX_FIFO_RESET: u32 = 1 << 3;
pub const CONF_TX_START: u32 = 1 << 4;
pub const CONF_RX_START: u32 = 1 << 5;
pub const CONF_RX_SLAVE_MOD: u32 = 1 << 7;
pub const CONF_TX_MSB_SHIFT: u32 = 1 << 10;
pub const CONF_RX_MSB_SHIFT: u32 = 1 << 11;
pub const CONF_SIG_LOOPBACK: u32 = 1 << 18;

/// The receiving chain is at its end.
pub const INT_IN_SUC_EOF: u32 = 1 << 9;

pub const FIFO_DSCR_EN: u32 = 1 << 12;
pub const FIFO_TX_MOD_FORCE_EN: u32 = 1 << 19;
pub const FIFO_RX_MOD_FORCE_EN: u32 = 1 << 20;
pub const FIFO_TX_DATA_NUM_SHIFT: u32 = 6;
pub const FIFO_RX_DATA_NUM_SHIFT: u32 = 0;
pub const FIFO_DATA_NUM: u32 = 32;

pub const LC_IN_RST: u32 = 1 << 0;
pub const LC_OUT_RST: u32 = 1 << 1;
pub const LC_AHBM_FIFO_RST: u32 = 1 << 2;
pub const LC_AHBM_RST: u32 = 1 << 3;

pub const LINK_STOP: u32 = 1 << 28;
pub const LINK_START: u32 = 1 << 29;

pub const CLKM_CLK_EN: u32 = 1 << 20;
pub const CLKM_DIV_A_SHIFT: u32 = 14;
/// The clock on, divided by eight.
pub const CLKM_CONF_INT_DIV8: u32 = CLKM_CLK_EN | 8 | (1 << CLKM_DIV_A_SHIFT);

pub const RX_BCK_DIV_SHIFT: u32 = 6;
pub const TX_BITS_MOD_SHIFT: u32 = 12;
pub const RX_BITS_MOD_SHIFT: u32 = 18;
/// Sixteen bits both ways, and the bit clock an eighth.
pub const SAMPLE_RATE_16BIT_BCK8: u32 = 8 | (8 << RX_BCK_DIV_SHIFT) | (16 << TX_BITS_MOD_SHIFT) | (
16 << RX_BITS_MOD_SHIFT);

/// How many looks the end of a buffer is given.
pub const EOF_SPINS: u32 = 2_000_000;

/// Why a transfer failed.
#[derive(Clone, Copy, Debug, PartialEq, Eq, Structural)]
pub enum I2sError {
    /// DMA cannot have the memory.
    BadBuffer,
    /// Nothing came to an end.
    Timeout,
    /// The memory does not make so many equal buffers of whole words.
    BadGeometry,
}

/// The controller.
#[derive(Clone, Copy, Debug, PartialEq, Eq, Structural)]
pub struct I2sLoopback {}

/// Sets some bits of a register.
pub open spec fn setting(addr: u32, bits: u32) -> RegOp {
    RegOp::Update { addr, clear: 0, set: bits }
}

/// Clears some bits of a register.
pub open spec fn clearing(addr: u32, bits: u32) -> RegOp {
    RegOp::Update { addr, clear: bits, set: 0 }
}

/// The resets of both directions and their FIFOs.
pub open spec fn core_resets() -> u32 {
    CONF_TX_RESET | CONF_RX_RESET | CONF_TX_FIFO_RESET | CONF_RX_FIFO_RESET
}

/// The resets of the whole DMA.
pub open spec fn dma_resets() -> u32 {
    LC_IN_RST | LC_OUT_RST | LC_AHBM_FIFO_RST | LC_AHBM_RST
}

/// The accesses that set the controller up: through reset, then sending as the master
/// and receiving as the slave, sixteen bits, two channels, over DMA.
pub open spec fn setting_up() -> Seq<RegOp> {
    seq![
        setting(CONF, core_resets()),
        clearing(CONF, core_resets()),
        setting(LC_CONF, dma_resets()),
        clearing(LC_CONF, dma_resets()),
        RegOp::Write {
            addr: CONF,
            value: CONF_RX_SLAVE_MOD | CONF_TX_MSB_SHIFT | CONF_RX_MSB_SHIFT | CONF_SIG_LOOPBACK,
        },
        RegOp::Write { addr: CONF_CHAN, value: 0 },
        RegOp::Write { addr: CLKM_CONF, value: CLKM_CONF_INT_DIV8 },
        RegOp::Write { addr: CONF2, value: 0 },
        RegOp::Write { addr: SAMPLE_RATE_CONF, value: SAMPLE_RATE_16BIT_BCK8 },
        RegOp::Write {
            addr: FIFO_CONF,
            value: FIFO_DSCR_EN | FIFO_TX_MOD_FORCE_EN | FIFO_RX_MOD_FORCE_EN | (FIFO_DATA_NUM
                << FIFO_TX_DATA_NUM_SHIFT) | (FIFO_DATA_NUM << FIFO_RX_DATA_NUM_SHIFT),
        },
    ]
}

/// The accesses that start a transfer whose receiver ends a buffer every `words`
/// words: fresh FIFOs, then the receiver, then the sender that clocks it.
pub open spec fn firing(tx_head: u32, rx_head: u32, words: u32) -> Seq<RegOp> {
    let fifos = CONF_TX_FIFO_RESET | CONF_RX_FIFO_RESET;
    let links = LC_IN_RST | LC_OUT_RST;
    seq![
        setting(CONF, fifos),
        clearing(CONF, fifos),
        setting(LC_CONF, links),
        clearing(LC_CONF, links),
        RegOp::Write { addr: RXEOF_NUM, value: words },
        RegOp::Write { addr: INT_CLR, value: INT_IN_SUC_EOF },
        RegOp::Write { addr: IN_LINK, value: super::spi_dma::link_field(rx_head) | LINK_START },
        setting(CONF, CONF_RX_START),
        RegOp::Write { addr: OUT_LINK, value: super::spi_dma::link_field(tx_head) | LINK_START },
        setting(CONF, CONF_TX_START),
    ]
}

/// The accesses that end a stream: the serialisers, then the links, then everything
/// through reset, so that nothing is left for the next.
pub open spec fn tearing_down() -> Seq<RegOp> {
    seq![
        clearing(CONF, CONF_TX_START | CONF_RX_START),
        setting(OUT_LINK, LINK_STOP),
        setting(IN_LINK, LINK_STOP),
        setting(CONF, core_resets()),
        clearing(CONF, core_resets()),
        setting(LC_CONF, dma_resets()),
        clearing(LC_CONF, dma_resets()),
        RegOp::Write { addr: INT_CLR, value: INT_IN_SUC_EOF },
    ]
}

/// How long each of `count` buffers is that two pieces of memory make.
pub open spec fn chunk_of(tx_len: int, rx_len: int, count: int) -> Result<usize, I2sError> {
    if count == 0 || tx_len != rx_len || tx_len % count != 0 || tx_len / count == 0 || (tx_len
        / count) % 4 != 0 {
        Err(I2sError::BadGeometry)
    } else {
        Ok((tx_len / count) as usize)
    }
}

/// Either direction is going.
pub open spec fn going(conf: u32) -> bool {
    conf & (CONF_TX_START | CONF_RX_START) != 0
}

/// A buffer has come to its end.
pub open spec fn at_an_end(int_raw: u32) -> bool {
    int_raw & INT_IN_SUC_EOF != 0
}

fn pulse(ops: &mut Vec<RegOp>, addr: u32, bits: u32)
    ensures
        final(ops)@ == old(ops)@ + seq![setting(addr, bits), clearing(addr, bits)],
{
    ops.push(RegOp::Update { addr, clear: 0, set: bits });
    ops.push(RegOp::Update { addr, clear: bits, set: 0 });
    assert(ops@ =~= old(ops)@ + seq![setting(addr, bits), clearing(addr, bits)]);
}

fn fire(tx_head: u32, rx_head: u32, words: u32) -> (ops: Vec<RegOp>)
    ensures
        ops@ == firing(tx_head, rx_head, words),
{
    let mut ops: Vec<RegOp> = Vec::new();
    pulse(&mut ops, CONF, CONF_TX_FIFO_RESET | CONF_RX_FIFO_RESET);
    pulse(&mut ops, LC_CONF, LC_IN_RST | LC_OUT_RST);
    ops.push(RegOp::Write { addr: RXEOF_NUM, value: words });
    ops.push(RegOp::Write { addr: INT_CLR, value: INT_IN_SUC_EOF });
    ops.push(RegOp::Write { addr: IN_LINK, value: link_addr(rx_head) | LINK_START });
    ops.push(RegOp::Update { addr: CONF, clear: 0, set: CONF_RX_START });
    ops.push(RegOp::Write { addr: OUT_LINK, value: link_addr(tx_head) | LINK_START });
    ops.push(RegOp::Update { addr: CONF, clear: 0, set: CONF_TX_START });
    assert(ops@ =~= firing(tx_head, rx_head, words));
    ops
}

impl I2sLoopback {
    /// Whether the controller can come up with its data on a pad, given what the pin
    /// multiplexer says of sending and receiving there. Where it can, route sending
    /// first and receiving second, and go on with [`I2sLoopback::configure`].
    pub fn new(tx_routable: Result<(), BusError>, rx_routable: Result<(), BusError>) -> (a:
        Admission)
        ensures
            a == (Admission {
                clock: true,
                result: if tx_routable is Err {
                    tx_routable
                } else {
                    rx_routable
                },
            }),
    {
        match tx_routable {
            Err(e) => Admission { clock: true, result: Err(e) },
            Ok(()) => Admission { clock: true, result: rx_routable },
        }
    }

    /// Sets the controller up.
    pub fn configure() -> (ops: Vec<RegOp>)
        ensures
            ops@ == setting_up(),
    {
        let mut ops: Vec<RegOp> = Vec::new();
        pulse(
            &mut ops,
            CONF,
            CONF_TX_RESET | CONF_RX_RESET | CONF_TX_FIFO_RESET | CONF_RX_FIFO_RESET,
        );
        pulse(&mut ops, LC_CONF, LC_IN_RST | LC_OUT_RST | LC_AHBM_FIFO_RST | LC_AHBM_RST);
        ops.push(
            RegOp::Write {
                addr: CONF,
                value: CONF_RX_SLAVE_MOD | CONF_TX_MSB_SHIFT | CONF_RX_MSB_SHIFT
                    | CONF_SIG_LOOPBACK,
            },
        );
        ops.push(RegOp::Write { addr: CONF_CHAN, value: 0 });
        ops.push(RegOp::Write { addr: CLKM_CONF, value: CLKM_CONF_INT_DIV8 });
        ops.push(RegOp::Write { addr: CONF2, value: 0 });
        ops.push(RegOp::Write { addr: SAMPLE_RATE_CONF, value: SAMPLE_RATE_16BIT_BCK8 });
        ops.push(
            RegOp::Write {
                addr: FIFO_CONF,
                value: FIFO_DSCR_EN | FIFO_TX_MOD_FORCE_EN | FIFO_RX_MOD_FORCE_EN | (FIFO_DATA_NUM
                    << FIFO_TX_DATA_NUM_SHIFT) | (FIFO_DATA_NUM << FIFO_RX_DATA_NUM_SHIFT),
            },
        );
        assert(ops@ =~= setting_up());
        ops
    }

    /// Starts a single transfer of `len` bytes with these chains;
    /// [`I2sLoopback::eof_pending`] tells when it is over, and then, or when that
    /// lasts too long, [`I2sLoopback::stop`] follows.
    pub fn loopback(&self, tx_head: u32, rx_head: u32, len: u32) -> (ops: Vec<RegOp>)
        ensures
            ops@ == firing(tx_head, rx_head, len / 4),
    {
        fire(tx_head, rx_head, len / 4)
    }

    /// Halts both directions.
    pub fn stop(&self) -> (op: RegOp)
        ensures
            op == clearing(CONF, CONF_TX_START | CONF_RX_START),
    {
        RegOp::Update { addr: CONF, clear: CONF_TX_START | CONF_RX_START, set: 0 }
    }

    /// A stream over two pieces of memory, each `count` buffers, if they come to that.
    /// Build a ring of each and go on with [`I2sStream::start`].
    pub fn start_stream(&self, tx_len: usize, rx_len: usize, count: usize) -> (r: Result<
        I2sStream,
        I2sError,
    >)
        ensures
            match r {
                Ok(s) => chunk_of(tx_len as int, rx_len as int, count as int) == Ok::<
                    usize,
                    I2sError,
                >(s.chunk) && s.count == count && s.serviced == 0 && s.wf() && s.count * s.chunk
                    == tx_len,
                Err(e) => chunk_of(tx_len as int, rx_len as int, count as int) == Err::<
                    usize,
                    I2sError,
                >(e),
            },
    {
        if count == 0 || tx_len != rx_len || tx_len % count != 0 {
            return Err(I2sError::BadGeometry);
        }
        let chunk: usize = tx_len / count;
        if chunk == 0 || chunk % 4 != 0 {
            return Err(I2sError::BadGeometry);
        }
        proof {
            vstd::arithmetic::div_mod::lemma_fundamental_div_mod(tx_len as int, count as int);
        }
        Ok(I2sStream { count, chunk, serviced: 0 })
    }

    /// Whether either direction is going, by the configuration register.
    pub fn is_running(&self, conf: u32) -> (yes: bool)
        ensures
            yes == going(conf),
    {
        conf & (CONF_TX_START | CONF_RX_START) != 0
    }

    /// Forgets the end of a buffer.
    pub fn clear_eof(&self) -> (op: RegOp)
        ensures
            op == (RegOp::Write { addr: INT_CLR, value: INT_IN_SUC_EOF }),
    {
        RegOp::Write { addr: INT_CLR, value: INT_IN_SUC_EOF }
    }

    /// Whether a buffer has come to its end, by the raised interrupts.
    pub fn eof_pending(&self, int_raw: u32) -> (yes: bool)
        ensures
            yes == at_an_end(int_raw),
    {
        int_raw & INT_IN_SUC_EOF != 0
    }
}

/// A stream: how many buffers of how many bytes, and how many ends were seen.
#[derive(Clone, Copy, Debug, PartialEq, Eq, Structural)]
pub struct I2sStream {
    pub count: usize,
    pub chunk: usize,
    pub serviced: usize,
}

/// One buffer's part of a stream's memory.
pub open spec fn buffer_of(s: I2sStream, memory: Seq<u8>, idx: int) -> Seq<u8> {
    memory.subrange(idx * s.chunk, (idx + 1) * s.chunk)
}

/// A stream's memory with one buffer's part replaced.
pub open spec fn filled(s: I2sStream, memory: Seq<u8>, idx: int, part: Seq<u8>) -> Seq<u8> {
    memory.take(idx * s.chunk) + part + memory.skip((idx + 1) * s.chunk)
}

impl I2sStream {
    /// There are buffers, each of whole words, and the memory holds them.
    pub open spec fn wf(&self) -> bool {
        &&& self.count > 0
        &&& self.chunk > 0
        &&& self.chunk % 4 == 0
        &&& self.count * self.chunk <= usize::MAX
    }

    /// Starts the stream with these rings. Each buffer's end is told, not only each
    /// round's.
    pub fn start(&self, tx_head: u32, rx_head: u32) -> (ops: Vec<RegOp>)
        requires
            self.wf(),
        ensures
            ops@ == firing(tx_head, rx_head, (self.chunk as int / 4) as u32),
    {
        fire(tx_head, rx_head, (self.chunk / 4) as u32)
    }

    /// Takes note of a buffer's end: which one it is, given the place in the ring that
    /// the engine reports; and forgets the end.
    pub fn wait(&mut self, slot: usize) -> (r: (usize, RegOp))
        requires
            old(self).wf(),
            old(self).serviced < usize::MAX,
        ensures
            r.0 == slot % old(self).count,
            r.0 < old(self).count,
            r.1 == (RegOp::Write { addr: INT_CLR, value: INT_IN_SUC_EOF }),
            *final(self) == (I2sStream { serviced: (old(self).serviced + 1) as usize, ..*old(
                self,
            ) }),
    {
        self.serviced = self.serviced + 1;
        (slot % self.count, RegOp::Write { addr: INT_CLR, value: INT_IN_SUC_EOF })
    }

    /// Where a buffer begins and ends.
    pub fn bounds(&self, idx: usize) -> (b: (usize, usize))
        requires
            self.wf(),
            idx < self.count,
        ensures
            b.0 == idx * self.chunk,
            b.1 == (idx + 1) * self.chunk,
            b.1 == b.0 + self.chunk,
            b.1 <= self.count * self.chunk,
    {
        proof {
            let (i, n, c) = (idx as int, self.count as int, self.chunk as int);
            assert(i * c + c == (i + 1) * c && (i + 1) * c <= n * c && 0 <= i * c)
                by (nonlinear_arith)
                requires
                    0 <= i < n,
                    c > 0,
            ;
        }
        let from: usize = idx * self.chunk;
        (from, from + self.chunk)
    }

    /// The received bytes of a buffer.
    pub fn rx_buffer<'a>(&self, rx: &'a [u8], idx: usize) -> (part: &'a [u8])
        requires
            self.wf(),
            idx < self.count,
            rx@.len() == self.count * self.chunk,
        ensures
            part@ == buffer_of(*self, rx@, idx as int),
    {
        let (from, to): (usize, usize) = self.bounds(idx);
        &rx[from..to]
    }

    /// The bytes of a buffer to send, to be filled anew.
    pub fn tx_buffer_mut<'a>(&self, tx: &'a mut [u8], idx: usize) -> (part: &'a mut [u8])
        requires
            self.wf(),
            idx < self.count,
            old(tx)@.len() == self.count * self.chunk,
        ensures
            part@ == buffer_of(*self, old(tx)@, idx as int),
            final(tx)@ == filled(*self, old(tx)@, idx as int, final(part)@),
    {
        let (from, to): (usize, usize) = self.bounds(idx);
        let (_, rest) = tx.split_at_mut(from);
        let (part, _) = rest.split_at_mut(to - from);
        part
    }

    /// How many ends were seen.
    pub fn serviced(&self) -> (n: usize)
        ensures
            n == self.serviced,
    {
        self.serviced
    }

    /// Ends the stream and leaves the controller as if nothing had been.
    pub fn stop(self) -> (ops: Vec<RegOp>)
        ensures
            ops@ == tearing_down(),
    {
        let mut ops: Vec<RegOp> = vec![
            RegOp::Update { addr: CONF, clear: CONF_TX_START | CONF_RX_START, set: 0 },
            RegOp::Update { addr: OUT_LINK, clear: 0, set: LINK_STOP },
            RegOp::Update { addr: IN_LINK, clear: 0, set: LINK_STOP },
        ];
        pulse(
            &mut ops,
            CONF,
            CONF_TX_RESET | CONF_RX_RESET | CONF_TX_FIFO_RESET | CONF_RX_FIFO_RESET,
        );
        pulse(&mut ops, LC_CONF, LC_IN_RST | LC_OUT_RST | LC_AHBM_FIFO_RST | LC_AHBM_RST);
        ops.push(RegOp::Write { addr: INT_CLR, value: INT_IN_SUC_EOF });
        assert(ops@ =~= tearing_down());
        ops
    }
}

/// The first buffers of a stream, one after the other.
pub open spec fn buffers_joined(s: I2sStream, memory: Seq<u8>, count: nat) -> Seq<u8>
    decreases count,
{
    if count == 0 {
        Seq::empty()
    } else {
        buffers_joined(s, memory, (count - 1) as nat) + buffer_of(s, memory, count - 1)
    }
}

proof fn lemma_buffers_joined(s: I2sStream, memory: Seq<u8>, count: nat)
    requires
        s.wf(),
        memory.len() == s.count * s.chunk,
        count <= s.count,
    ensures
        0 <= count * s.chunk <= memory.len(),
        buffers_joined(s, memory, count) == memory.take(count * s.chunk),
    decreases count,
{
    let (k, n, c) = (count as int, s.count as int, s.chunk as int);
    assert(0 <= k * c <= n * c) by (nonlinear_arith)
        requires
            0 <= k <= n,
            c > 0,
    ;
    if count == 0 {
        assert(0 * c == 0) by (nonlinear_arith);
        assert(memory.take(0) =~= Seq::<u8>::empty());
    } else {
        lemma_buffers_joined(s, memory, (count - 1) as nat);
        assert((k - 1) * c + c == k * c) by (nonlinear_arith);
        assert(memory.take((k - 1) * c) + memory.subrange((k - 1) * c, k * c) =~= memory.take(
            k * c,
        ));
    }
}

/// The buffers of a stream tile its memory: each is a chunk long, and put together they
/// are the whole of it.
pub proof fn law_buffers_tile_the_memory(s: I2sStream, memory: Seq<u8>, idx: int)
    requires
        s.wf(),
        memory.len() == s.count * s.chunk,
        0 <= idx < s.count,
    ensures
        buffer_of(s, memory, idx).len() == s.chunk,
        buffers_joined(s, memory, s.count as nat) == memory,
{
    lemma_buffers_joined(s, memory, s.count as nat);
    lemma_bounds(s, idx);
    assert(memory.take(memory.len() as int) =~= memory);
}

proof fn lemma_bounds(s: I2sStream, idx: int)
    requires
        s.wf(),
        0 <= idx < s.count,
    ensures
        0 <= idx * s.chunk,
        idx * s.chunk + s.chunk == (idx + 1) * s.chunk,
        (idx + 1) * s.chunk <= s.count * s.chunk,
{
    let (i, n, c) = (idx, s.count as int, s.chunk as int);
    assert(i * c + c == (i + 1) * c && (i + 1) * c <= n * c && 0 <= i * c) by (nonlinear_arith)
        requires
            0 <= i < n,
            c > 0,
    ;
}

/// Filling one buffer anew fills that one and leaves every other as it was.
pub proof fn law_buffers_are_filled_apart(
    s: I2sStream,
    memory: Seq<u8>,
    idx: int,
    part: Seq<u8>,
    other: int,
)
    requires
        s.wf(),
        memory.len() == s.count * s.chunk,
        0 <= idx < s.count,
        0 <= other < s.count,
        part.len() == s.chunk,
    ensures
        filled(s, memory, idx, part).len() == memory.len(),
        buffer_of(s, filled(s, memory, idx, part), other) == if other == idx {
            part
        } else {
            buffer_of(s, memory, other)
        },
{
    lemma_bounds(s, idx);
    lemma_bounds(s, other);
    let c = s.chunk as int;
    if other < idx {
        assert((other + 1) * c <= idx * c) by (nonlinear_arith)
            requires
                other < idx,
                c > 0,
        ;
    } else if other > idx {
        assert((idx + 1) * c <= other * c) by (nonlinear_arith)
            requires
                idx < other,
                c > 0,
        ;
    }
    assert(buffer_of(s, filled(s, memory, idx, part), other) =~= if other == idx {
        part
    } else {
        buffer_of(s, memory, other)
    });
}

proof fn lemma_stopped(conf: u32)
    by (bit_vector)
    ensures
        ({
            let starts = (1u32 << 4) | (1u32 << 5);
            let resets = (1u32 << 0) | (1u32 << 1) | (1u32 << 2) | (1u32 << 3);
            let c = (conf & !starts) | 0;
            let c = (c & !0u32) | resets;
            let c = (c & !resets) | 0;
            &&& c & starts == 0
            &&& c & resets == 0
        }),
        ({
            let resets = (1u32 << 0) | (1u32 << 1) | (1u32 << 2) | (1u32 << 3);
            let up = (conf & !0u32) | resets;
            up & 0xF == 0xF && (up & !resets) | 0 == conf & !0xFu32
        }),
        ({
            let fifos = (1u32 << 2) | (1u32 << 3);
            let up = (conf & !0u32) | fifos;
            let down = (up & !fifos) | 0;
            let rx = (down & !0u32) | (1u32 << 5);
            let tx = (rx & !0u32) | (1u32 << 4);
            &&& up & 0xC == 0xC
            &&& down == conf & !0xCu32
            &&& rx == (conf & !0xCu32) | 0x20
            &&& tx == (conf & !0xCu32) | 0x30
        }),
        ({
            let links = (1u32 << 0) | (1u32 << 1);
            let up = (conf & !0u32) | links;
            up & 3 == 3 && (up & !links) | 0 == conf & !3u32
        }),
        (1u32 << 7) | (1u32 << 10) | (1u32 << 11) | (1u32 << 18) == 0x4_0C80,
        (1u32 << 20) | 8 | (1u32 << 14u32) == 0x10_4008,
        8u32 | (8u32 << 6u32) | (16u32 << 12u32) | (16u32 << 18u32) == 0x41_0208,
        (1u32 << 12) | (1u32 << 19) | (1u32 << 20) | (32u32 << 6u32) | (32u32 << 0u32)
            == 0x18_1820,
        1u32 << 9 == 0x200,
        (conf & 0x000F_FFFF) | (1u32 << 29) == (conf & 0xF_FFFF) | 0x2000_0000,
        (conf & !0u32) | (1u32 << 28) == conf | 0x1000_0000,
        (conf & ((1u32 << 4) | (1u32 << 5)) != 0) == (conf / 16 % 4 != 0),
        (conf & (1u32 << 9) != 0) == (conf / 512 % 2 == 1),
        (conf & !((1u32 << 4) | (1u32 << 5))) | 0 == conf & !0x30u32,
{
}

/// After the accesses that end a stream neither direction is going, and nothing is
/// held in reset.
pub proof fn law_a_stopped_stream_is_quiet(r: super::Registers)
    ensures
        ({
            let conf = super::after_all(r, tearing_down()).words[CONF];
            &&& conf & (CONF_TX_START | CONF_RX_START) == 0
            &&& conf & core_resets() == 0
        }),
{
    let ops = tearing_down();
    lemma_stopped(r.words[CONF]);
    assert(ops.take(0) =~= Seq::empty());
    assert(ops.take(8) =~= ops);
    super::lemma_after_take(r, ops, 1);
    super::lemma_after_take(r, ops, 2);
    super::lemma_after_take(r, ops, 3);
    super::lemma_after_take(r, ops, 4);
    super::lemma_after_take(r, ops, 5);
    super::lemma_after_take(r, ops, 6);
    super::lemma_after_take(r, ops, 7);
    super::lemma_after_take(r, ops, 8);
}

/// The controller is set up after a reset of both directions and of the DMA: it receives as the
/// slave of its own sender, sixteen bits either way at an eighth of its clock, over DMA.
pub proof fn law_the_controller_is_set_up_after_a_reset(r: super::Registers)
    ensures
        ({
            let ops = setting_up();
            let end = super::after_all(r, ops);
            &&& super::after_all(r, ops.take(1)).words[0x3FF4_F008] & 0xF == 0xF
            &&& super::after_all(r, ops.take(2)).words[0x3FF4_F008] == r.words[0x3FF4_F008]
                & !0xFu32
            &&& super::after_all(r, ops.take(3)).words[0x3FF4_F060] & 0xF == 0xF
            &&& end.words[0x3FF4_F060] == r.words[0x3FF4_F060] & !0xFu32
            &&& end.words[0x3FF4_F008] == 0x4_0C80
            &&& end.words[0x3FF4_F02C] == 0
            &&& end.words[0x3FF4_F0AC] == 0x10_4008
            &&& end.words[0x3FF4_F0A8] == 0
            &&& end.words[0x3FF4_F0B0] == 0x41_0208
            &&& end.words[0x3FF4_F020] == 0x18_1820
        }),
{
    let ops = setting_up();
    assert(super::after_all(r, ops.take(0)) == r);
    super::lemma_after_take(r, ops, 1);
    super::lemma_after_take(r, ops, 2);
    super::lemma_after_take(r, ops, 3);
    super::lemma_after_take(r, ops, 4);
    super::lemma_after_take(r, ops, 5);
    super::lemma_after_take(r, ops, 6);
    super::lemma_after_take(r, ops, 7);
    super::lemma_after_take(r, ops, 8);
    super::lemma_after_take(r, ops, 9);
    super::lemma_after_take(r, ops, 10);
    assert(ops.take(10) =~= ops);
    lemma_stopped(r.words[0x3FF4_F008]);
    lemma_stopped(r.words[0x3FF4_F060]);
}

/// A transfer starts with fresh FIFOs and links and no stale end. The receiver, which ends a
/// buffer every so many words, is armed and started before the sender that clocks it.
pub proof fn law_the_receiver_starts_before_the_sender(
    r: super::Registers,
    tx_head: u32,
    rx_head: u32,
    words: u32,
)
    ensures
        ({
            let ops = firing(tx_head, rx_head, words);
            let conf = r.words[0x3FF4_F008] & !0xCu32;
            let listening = super::after_all(r, ops.take(8));
            let end = super::after_all(r, ops);
            &&& super::after_all(r, ops.take(1)).words[0x3FF4_F008] & 0xC == 0xC
            &&& super::after_all(r, ops.take(3)).words[0x3FF4_F060] & 3 == 3
            &&& end.words[0x3FF4_F060] == r.words[0x3FF4_F060] & !3u32
            &&& end.words[0x3FF4_F024] == words
            &&& super::after_all(r, ops.take(6)).words[0x3FF4_F018] == 0x200
            &&& listening.words[0x3FF4_F034] == (rx_head & 0xF_FFFF) | 0x2000_0000
            &&& listening.words[0x3FF4_F030] == r.words[0x3FF4_F030]
            &&& listening.words[0x3FF4_F008] == conf | 0x20
            &&& end.words[0x3FF4_F030] == (tx_head & 0xF_FFFF) | 0x2000_0000
            &&& end.words[0x3FF4_F034] == listening.words[0x3FF4_F034]
            &&& end.words[0x3FF4_F008] == conf | 0x30
        }),
{
    let ops = firing(tx_head, rx_head, words);
    assert(super::after_all(r, ops.take(0)) == r);
    super::lemma_after_take(r, ops, 1);
    super::lemma_after_take(r, ops, 2);
    super::lemma_after_take(r, ops, 3);
    super::lemma_after_take(r, ops, 4);
    super::lemma_after_take(r, ops, 5);
    super::lemma_after_take(r, ops, 6);
    super::lemma_after_take(r, ops, 7);
    super::lemma_after_take(r, ops, 8);
    super::lemma_after_take(r, ops, 9);
    super::lemma_after_take(r, ops, 10);
    assert(ops.take(10) =~= ops);
    lemma_stopped(r.words[0x3FF4_F008]);
    lemma_stopped(r.words[0x3FF4_F060]);
    lemma_stopped(rx_head);
    lemma_stopped(tx_head);
}

/// Ending a stream halts both directions first, then both links, and acknowledges what is left
/// over; halting alone leaves everything else.
pub proof fn law_a_stream_is_halted_first(r: super::Registers)
    ensures
        ({
            let ops = tearing_down();
            let halted = super::after_all(r, ops.take(1));
            let end = super::after_all(r, ops);
            &&& halted.words == r.words.insert(
                0x3FF4_F008,
                r.words[0x3FF4_F008] & !0x30u32,
            )
            &&& end.words[0x3FF4_F030] == r.words[0x3FF4_F030] | 0x1000_0000
            &&& end.words[0x3FF4_F034] == r.words[0x3FF4_F034] | 0x1000_0000
            &&& end.words[0x3FF4_F060] == r.words[0x3FF4_F060] & !0xFu32
            &&& end.words[0x3FF4_F018] == 0x200
        }),
{
    let ops = tearing_down();
    assert(super::after_all(r, ops.take(0)) == r);
    super::lemma_after_take(r, ops, 1);
    super::lemma_after_take(r, ops, 2);
    super::lemma_after_take(r, ops, 3);
    super::lemma_after_take(r, ops, 4);
    super::lemma_after_take(r, ops, 5);
    super::lemma_after_take(r, ops, 6);
    super::lemma_after_take(r, ops, 7);
    super::lemma_after_take(r, ops, 8);
    assert(ops.take(8) =~= ops);
    lemma_stopped(r.words[0x3FF4_F008]);
    lemma_stopped(r.words[0x3FF4_F060]);
    lemma_stopped(r.words[0x3FF4_F030]);
    lemma_stopped(r.words[0x3FF4_F034]);
}

/// The registers tell of a direction that goes in bits 4 and 5, and of a buffer's end in bit 9.
pub proof fn law_the_controller_tells_what_it_does(conf: u32, raw: u32)
    ensures
        going(conf) == (conf / 16 % 4 != 0),
        at_an_end(raw) == (raw / 512 % 2 == 1),
{
    lemma_stopped(conf);
    lemma_stopped(raw);
}

/// Memory makes so many buffers where both pieces are of one length, and that is so many times
/// a buffer of one word or more, and nowhere else.
pub proof fn law_memory_makes_equal_buffers(tx: int, rx: int, count: int, chunk: int)
    requires
        0 <= tx <= usize::MAX,
        0 <= count,
    ensures
        tx == rx && count > 0 && chunk > 0 && chunk % 4 == 0 && chunk * count == tx
            ==> chunk_of(tx, rx, count) == Ok::<usize, I2sError>(chunk as usize),
        chunk_of(tx, rx, count) matches Ok(c) ==> tx == rx && count > 0 && c > 0 && c % 4 == 0 && c
            * count == tx,
        chunk_of(tx, rx, count) matches Err(e) ==> e is BadGeometry,
{
    if count > 0 {
        let c = tx / count;
        assert(tx == count * c + tx % count && 0 <= tx % count < count && 0 <= c <= tx
            && c * count == count * c) by (nonlinear_arith)
            requires
                tx >= 0,
                count > 0,
                c == tx / count,
        ;
        if chunk * count == tx {
            assert(c == chunk && tx % count == 0) by (nonlinear_arith)
                requires
                    chunk * count == tx,
                    count > 0,
                    c == tx / count,
            ;
        }
    }
}

} // verus!
