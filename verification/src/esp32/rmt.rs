//! RMT: eight channels that play a programmed sequence of pulses.

use vstd::prelude::*;

use super::claims::Claims;
use super::RegOp;
use crate::bus::BusError;

verus! {

pub const RMT_BASE: u32 = 0x3FF5_6000;

/// The interrupt source that all channels share.
pub const IRQ_SOURCE: u8 = 47;

/// The number of channels.
pub const CHANNELS: usize = 8;

/// The entries of one channel's memory block.
pub const ENTRIES_PER_BLOCK: usize = 64;

/// The entries of half a block: one half plays while the other is refilled.
pub const HALF_BLOCK: usize = 32;

/// The entry memory.
pub const MEM_BASE: u32 = RMT_BASE + 0x800;

pub const APB_CONF: u32 = RMT_BASE + 0xF0;
/// Maps the entry memory and disables the FIFO.
pub const APB_FIFO_MASK: u32 = 1 << 0;
/// Lets a channel wrap at the end of its block.
pub const APB_MEM_TX_WRAP_EN: u32 = 1 << 1;

pub const INT_RAW: u32 = RMT_BASE + 0xA0;
pub const INT_ENA: u32 = RMT_BASE + 0xA8;
pub const INT_CLR: u32 = RMT_BASE + 0xAC;

pub const CONF0_DIV_CNT_SHIFT: u32 = 0;
pub const CONF0_MEM_SIZE_SHIFT: u32 = 24;
pub const CONF0_CARRIER_EN: u32 = 1 << 28;

pub const CONF1_TX_START: u32 = 1 << 0;
/// Rewinds the transmitter's read pointer.
pub const CONF1_MEM_RD_RST: u32 = 1 << 3;
/// Rewinds the FIFO pointer, which is not used here.
pub const CONF1_APB_MEM_RST: u32 = 1 << 4;
/// Gives the block to the receiver.
pub const CONF1_MEM_OWNER: u32 = 1 << 5;
pub const CONF1_REF_CNT_RST: u32 = 1 << 16;
/// Clocks the divider from APB.
pub const CONF1_REF_ALWAYS_ON: u32 = 1 << 17;
pub const CONF1_IDLE_OUT_LV: u32 = 1 << 18;
pub const CONF1_IDLE_OUT_EN: u32 = 1 << 19;

/// The one-shot bits of CONF1.
pub const CONF1_ONE_SHOT: u32 = CONF1_TX_START | CONF1_MEM_RD_RST | CONF1_REF_CNT_RST;
/// The read pointer's and the divider's resets.
pub const CONF1_RESETS: u32 = CONF1_MEM_RD_RST | CONF1_REF_CNT_RST;

/// A channel's memory block.
pub open spec fn block_addr(ch: u8) -> int {
    MEM_BASE + 256 * ch
}

/// A channel's memory block.
pub fn ch_mem(ch: u8) -> (addr: u32)
    ensures
        addr == block_addr(ch),
{
    MEM_BASE + 256 * ch as u32
}

/// A channel's first configuration register.
pub fn ch_conf0(ch: u8) -> (addr: u32)
    ensures
        addr == RMT_BASE + 0x20 + 8 * ch,
{
    RMT_BASE + 0x20 + 8 * ch as u32
}

/// A channel's second configuration register.
pub fn ch_conf1(ch: u8) -> (addr: u32)
    ensures
        addr == RMT_BASE + 0x24 + 8 * ch,
{
    RMT_BASE + 0x24 + 8 * ch as u32
}

/// A channel's threshold register.
pub fn ch_tx_lim(ch: u8) -> (addr: u32)
    ensures
        addr == RMT_BASE + 0xD0 + 4 * ch,
{
    RMT_BASE + 0xD0 + 4 * ch as u32
}

/// A channel's threshold interrupt.
pub open spec fn threshold_bit(ch: u8) -> u32 {
    1u32 << (24 + ch) as u32
}

/// A channel's end interrupt: the flags are grouped by three.
pub open spec fn end_bit(ch: u8) -> u32 {
    1u32 << (3 * ch) as u32
}

/// A channel's threshold interrupt.
pub fn tx_thr_bit(ch: u8) -> (bit: u32)
    requires
        ch < 8,
    ensures
        bit == threshold_bit(ch),
{
    1 << (24 + ch as u32)
}

/// A channel's end interrupt.
pub fn tx_end_bit(ch: u8) -> (bit: u32)
    requires
        3 * ch < 32,
    ensures
        bit == end_bit(ch),
{
    1 << (3 * ch as u32)
}

/// Two consecutive pulses, each a level and a duration in ticks.
#[derive(Clone, Copy, Debug, PartialEq, Eq, Structural)]
pub struct Entry(pub u32);

/// The longest duration of a pulse.
pub const MAX_DURATION: u16 = 0x7FFF;

/// A duration held to its field.
pub open spec fn clamped(d: u16) -> int {
    if d > MAX_DURATION {
        MAX_DURATION as int
    } else {
        d as int
    }
}

/// One pulse: the level above fifteen bits of duration.
pub open spec fn pulse(level: bool, d: u16) -> int {
    clamped(d) + if level {
        0x8000int
    } else {
        0
    }
}

/// The first pulse in the low half, the second in the high one.
pub open spec fn entry_word(lv0: bool, d0: u16, lv1: bool, d1: u16) -> int {
    pulse(lv0, d0) + 0x1_0000 * pulse(lv1, d1)
}

impl Entry {
    /// An entry of two pulses; a duration past the field is held to it.
    pub fn new(lv0: bool, d0: u16, lv1: bool, d1: u16) -> (e: Self)
        ensures
            e.0 == entry_word(lv0, d0, lv1, d1),
    {
        let low: u32 = if d0 > MAX_DURATION { MAX_DURATION as u32 } else { d0 as u32 };
        let high: u32 = if d1 > MAX_DURATION { MAX_DURATION as u32 } else { d1 as u32 };
        let first: u32 = if lv0 { low + 0x8000 } else { low };
        let second: u32 = if lv1 { high + 0x8000 } else { high };
        Entry(first + 0x1_0000 * second)
    }

    /// The entry that stops the channel: a duration of zero.
    pub fn end() -> (e: Self)
        ensures
            e.0 == 0,
    {
        Entry(0)
    }
}

/// The divider for a tick of about `ns`, held to its field.
pub open spec fn divider_of(ns: u32) -> int {
    let div = ns * 1000 / 12_500;
    if div == 0 {
        1
    } else if div > 255 {
        255
    } else {
        div
    }
}

/// The divider for a tick of about `ns`, and the tick that it gives.
pub fn divider_for_ns(ns: u32) -> (r: (u8, u32))
    ensures
        r.0 == divider_of(ns),
        r.1 == divider_of(ns) * 12_500 / 1000,
{
    let mut div: u64 = ns as u64 * 1000 / 12_500;
    if div == 0 {
        div = 1;
    }
    if div > 255 {
        div = 255;
    }
    (div as u8, (div * 12_500 / 1000) as u32)
}

/// How long a frame takes, at most what a word holds.
pub fn frame_ns(total_ticks: u32, ns_per_tick: u32) -> (ns: u32)
    ensures
        ns == if total_ticks * ns_per_tick > u32::MAX {
            u32::MAX as int
        } else {
            total_ticks * ns_per_tick
        },
{
    match total_ticks.checked_mul(ns_per_tick) {
        Some(ns) => ns,
        None => u32::MAX,
    }
}

/// One refill: `len` entries from `src` of the source to `dest` of the block, and
/// a terminator behind them if it is the last.
#[derive(Clone, Copy, Debug, PartialEq, Eq, Structural)]
pub struct Chunk {
    pub dest: usize,
    pub src: usize,
    pub len: usize,
    pub terminator: bool,
}

/// The bookkeeping of a frame longer than its block.
#[derive(Clone, Copy, Debug, PartialEq, Eq, Structural)]
pub struct Refill {
    pub total: usize,
    pub written: usize,
    pub next_half: usize,
    pub terminated: bool,
}

/// How many entries the next chunk carries.
pub open spec fn chunk_len(r: Refill) -> int {
    if r.total - r.written < HALF_BLOCK {
        r.total - r.written
    } else {
        HALF_BLOCK as int
    }
}

/// The next chunk: half a block at a time into alternating halves. The terminator
/// takes a slot, so it goes into the first half that the source does not fill.
pub open spec fn chunk_of(r: Refill) -> Chunk {
    Chunk {
        dest: (r.next_half * HALF_BLOCK) as usize,
        src: r.written,
        len: chunk_len(r) as usize,
        terminator: chunk_len(r) < HALF_BLOCK,
    }
}

/// The bookkeeping after the next chunk.
pub open spec fn after_chunk(r: Refill) -> Refill {
    Refill {
        total: r.total,
        written: (r.written + chunk_len(r)) as usize,
        next_half: (1 - r.next_half) as usize,
        terminated: chunk_len(r) < HALF_BLOCK,
    }
}

impl Refill {
    /// No more is written than there is, and the next half is one of the two.
    pub open spec fn wf(&self) -> bool {
        self.written <= self.total && self.next_half <= 1
    }

    /// Prepares to send `total` entries.
    pub fn new(total: usize) -> (r: Self)
        ensures
            r == (Refill { total, written: 0, next_half: 0, terminated: false }),
            r.wf(),
    {
        Refill { total, written: 0, next_half: 0, terminated: false }
    }

    /// The next half to fill; `None` once the terminator is placed.
    pub fn next_chunk(&mut self) -> (chunk: Option<Chunk>)
        requires
            old(self).wf(),
        ensures
            final(self).wf(),
            if old(self).terminated {
                chunk is None && *final(self) == *old(self)
            } else {
                chunk == Some(chunk_of(*old(self))) && *final(self) == after_chunk(*old(self))
            },
    {
        if self.terminated {
            return None;
        }
        let remaining: usize = self.total - self.written;
        let len: usize = if remaining < HALF_BLOCK { remaining } else { HALF_BLOCK };
        let terminator: bool = len < HALF_BLOCK;
        let chunk = Chunk {
            dest: self.next_half * HALF_BLOCK,
            src: self.written,
            len,
            terminator,
        };
        self.written = self.written + len;
        self.next_half = 1 - self.next_half;
        self.terminated = terminator;
        Some(chunk)
    }

    /// Whether the terminator has been placed.
    pub fn finished(&self) -> (b: bool)
        ensures
            b == self.terminated,
    {
        self.terminated
    }

    /// The entries handed over so far.
    pub fn written(&self) -> (n: usize)
        ensures
            n == self.written,
    {
        self.written
    }
}

/// Every chunk a stream still asks for.
pub open spec fn chunks(r: Refill) -> Seq<Chunk>
    decreases (r.total - r.written) + (if r.terminated { 0int } else { 1 }),
{
    if r.terminated || r.written > r.total {
        Seq::empty()
    } else {
        seq![chunk_of(r)] + chunks(after_chunk(r))
    }
}

/// The chunks of a stream cover its source once and in order, into alternating
/// halves, each inside the block with its terminator; exactly one has a
/// terminator, and it is the last.
pub proof fn law_stream_covers_its_source(r: Refill)
    requires
        r.wf(),
        !r.terminated,
    ensures
        chunks(r).len() == (r.total - r.written) / HALF_BLOCK as int + 1,
        forall|i: int|
            0 <= i < chunks(r).len() ==> {
                let c = #[trigger] chunks(r)[i];
                &&& c.src == r.written + HALF_BLOCK * i
                &&& c.dest == HALF_BLOCK * ((r.next_half + i) % 2)
                &&& c.dest + c.len + (if c.terminator { 1int } else { 0 }) <= ENTRIES_PER_BLOCK
                &&& c.terminator == (i == chunks(r).len() - 1)
                &&& c.src + c.len == (if c.terminator { r.total as int } else {
                    r.written + HALF_BLOCK * (i + 1)
                })
            },
    decreases r.total - r.written,
{
    let all = chunks(r);
    let next = after_chunk(r);
    if !next.terminated {
        law_stream_covers_its_source(next);
        let rest = chunks(next);
        assert forall|i: int| 0 <= i < all.len() implies {
            let c = #[trigger] all[i];
            &&& c.src == r.written + HALF_BLOCK * i
            &&& c.dest == HALF_BLOCK * ((r.next_half + i) % 2)
            &&& c.dest + c.len + (if c.terminator { 1int } else { 0 }) <= ENTRIES_PER_BLOCK
            &&& c.terminator == (i == all.len() - 1)
            &&& c.src + c.len == (if c.terminator { r.total as int } else {
                r.written + HALF_BLOCK * (i + 1)
            })
        } by {
            if i > 0 {
                assert(all[i] == rest[i - 1]);
            }
        }
    } else {
        assert(chunks(next) =~= Seq::empty());
    }
}

/// The entry words that a chunk writes, and the terminator behind them.
pub open spec fn chunk_writes(ch: u8, entries: Seq<Entry>, c: Chunk) -> Seq<RegOp> {
    Seq::new(
        c.len as nat,
        |i: int|
            RegOp::Write {
                addr: (block_addr(ch) + 4 * (c.dest + i)) as u32,
                value: entries[c.src + i].0,
            },
    ) + if c.terminator {
        seq![RegOp::Write { addr: (block_addr(ch) + 4 * (c.dest + c.len)) as u32, value: 0 }]
    } else {
        Seq::empty()
    }
}

/// Rewinds the read pointer and the divider by pulsing their resets.
pub open spec fn rewinds(ch: u8) -> Seq<RegOp> {
    let conf1 = (RMT_BASE + 0x24 + 8 * ch) as u32;
    seq![
        RegOp::Load { addr: conf1 },
        RegOp::Store { addr: conf1, clear: CONF1_ONE_SHOT, set: CONF1_RESETS },
        RegOp::Store { addr: conf1, clear: CONF1_ONE_SHOT, set: 0 },
    ]
}

/// Starts the channel.
pub open spec fn starts(ch: u8) -> RegOp {
    RegOp::Store {
        addr: (RMT_BASE + 0x24 + 8 * ch) as u32,
        clear: CONF1_ONE_SHOT,
        set: CONF1_TX_START,
    }
}

/// The accesses that send what fits the block.
pub open spec fn transmitting(ch: u8, entries: Seq<Entry>) -> Seq<RegOp> {
    chunk_writes(
        ch,
        entries,
        Chunk { dest: 0, src: 0, len: entries.len() as usize, terminator: true },
    ) + rewinds(ch) + seq![starts(ch)]
}

/// Lets the channel wrap, and tell when it has played half its block.
pub open spec fn wraps(ch: u8) -> Seq<RegOp> {
    seq![
        RegOp::Update { addr: APB_CONF, clear: 0, set: APB_MEM_TX_WRAP_EN },
        RegOp::Write { addr: (RMT_BASE + 0xD0 + 4 * ch) as u32, value: HALF_BLOCK as u32 },
    ]
}

/// Starts the channel with its threshold armed and nothing stale pending.
pub open spec fn launches(ch: u8) -> Seq<RegOp> {
    seq![
        RegOp::Write { addr: INT_CLR, value: threshold_bit(ch) | end_bit(ch) },
        RegOp::Update { addr: INT_ENA, clear: 0, set: threshold_bit(ch) },
        starts(ch),
    ]
}

/// The bookkeeping before anything is sent.
pub open spec fn unsent(total: int) -> Refill {
    Refill { total: total as usize, written: 0, next_half: 0, terminated: false }
}

/// The bookkeeping of a stream that has begun, and the accesses that begin it: both halves
/// filled, as far as there is anything, and the channel started.
pub open spec fn streaming(ch: u8, entries: Seq<Entry>) -> (Refill, Seq<RegOp>) {
    let fresh = unsent(entries.len() as int);
    let primed = after_chunk(fresh);
    let (refill, second) = if primed.terminated {
        (primed, Seq::empty())
    } else {
        (after_chunk(primed), chunk_writes(ch, entries, chunk_of(primed)))
    };
    (
        refill,
        wraps(ch) + chunk_writes(ch, entries, chunk_of(fresh)) + second + rewinds(ch) + launches(
            ch,
        ),
    )
}

/// The answer to a threshold.
pub open spec fn serving(ch: u8, entries: Seq<Entry>, refill: Refill) -> Seq<RegOp> {
    seq![RegOp::Write { addr: INT_CLR, value: threshold_bit(ch) }] + if refill.terminated {
        seq![RegOp::Update { addr: INT_ENA, clear: threshold_bit(ch), set: 0 }]
    } else {
        chunk_writes(ch, entries, chunk_of(refill))
    }
}

/// A configured channel.
#[derive(Clone, Copy, Debug, PartialEq, Eq, Structural)]
pub struct Rmt {
    pub ch: u8,
}

/// The accesses that configure a channel: one block, no carrier, APB clock, idle
/// low, and the entry memory mapped.
pub open spec fn configuring(ch: u8, div: u8) -> Seq<RegOp> {
    seq![
        RegOp::Write {
            addr: (RMT_BASE + 0x20 + 8 * ch) as u32,
            value: ((div as u32) << CONF0_DIV_CNT_SHIFT | (1u32 << CONF0_MEM_SIZE_SHIFT))
                & !CONF0_CARRIER_EN,
        },
        RegOp::Write {
            addr: (RMT_BASE + 0x24 + 8 * ch) as u32,
            value: (CONF1_REF_ALWAYS_ON | CONF1_IDLE_OUT_EN) & !(CONF1_IDLE_OUT_LV
                | CONF1_MEM_OWNER),
        },
        RegOp::Update { addr: APB_CONF, clear: 0, set: APB_FIFO_MASK },
    ]
}

impl Rmt {
    /// The channel exists.
    pub open spec fn wf(&self) -> bool {
        self.ch < 8
    }

    /// The channel and the accesses that configure it to transmit; `None` where
    /// there is no such channel.
    pub fn new(ch: u8, div: u8) -> (r: Option<(Self, Vec<RegOp>)>)
        ensures
            r is Some <==> ch < 8,
            r matches Some((rmt, ops)) ==> rmt.ch == ch && ops@ == configuring(ch, div),
    {
        if ch >= 8 {
            return None;
        }
        let conf0: u32 = ((div as u32) << CONF0_DIV_CNT_SHIFT) | (1u32 << CONF0_MEM_SIZE_SHIFT);
        let conf1: u32 = CONF1_REF_ALWAYS_ON | CONF1_IDLE_OUT_EN;
        let ops: Vec<RegOp> = vec![
            RegOp::Write { addr: ch_conf0(ch), value: conf0 & !CONF0_CARRIER_EN },
            RegOp::Write {
                addr: ch_conf1(ch),
                value: conf1 & !(CONF1_IDLE_OUT_LV | CONF1_MEM_OWNER),
            },
            RegOp::Update { addr: APB_CONF, clear: 0, set: APB_FIFO_MASK },
        ];
        assert(ops@ =~= configuring(ch, div));
        Some((Rmt { ch }, ops))
    }

    /// Takes a channel for [`Rmt::on_pin`]: refused where there is no such channel
    /// or it has an owner.
    pub fn claim(claims: &mut Claims, ch: u8) -> (r: Result<(), BusError>)
        requires
            old(claims)@.len() == CHANNELS,
        ensures
            final(claims)@.len() == CHANNELS,
            r == if ch >= CHANNELS {
                Err::<(), BusError>(BusError::InvalidConfig)
            } else if old(claims)@[ch as int] {
                Err::<(), BusError>(BusError::Busy)
            } else {
                Ok::<(), BusError>(())
            },
            final(claims)@ == if r is Ok {
                old(claims)@.update(ch as int, true)
            } else {
                old(claims)@
            },
    {
        if ch as usize >= CHANNELS {
            return Err(BusError::InvalidConfig);
        }
        if claims.claim(ch as usize) {
            Ok(())
        } else {
            assert(claims@ =~= old(claims)@);
            Err(BusError::Busy)
        }
    }

    /// Completes a channel that was claimed, clocked and routed to its pad. Where
    /// routing failed the claim is given back.
    pub fn on_pin(claims: &mut Claims, ch: u8, div: u8, routed: bool) -> (r: Result<
        (Self, Vec<RegOp>),
        BusError,
    >)
        requires
            old(claims)@.len() == CHANNELS,
            ch < CHANNELS,
        ensures
            r is Ok <==> routed,
            r matches Ok((rmt, ops)) ==> rmt.ch == ch && ops@ == configuring(ch, div)
                && final(claims)@ == old(claims)@,
            r matches Err(e) ==> e == BusError::InvalidConfig && final(claims)@ == old(
                claims,
            )@.update(ch as int, false),
    {
        let built = if routed { Rmt::new(ch, div) } else { None };
        match built {
            Some((rmt, ops)) => Ok((rmt, ops)),
            None => {
                claims.release(ch as usize);
                Err(BusError::InvalidConfig)
            },
        }
    }

    /// Writes a sequence that fits the block with its terminator, and starts;
    /// `None` where it does not fit.
    pub fn transmit(&self, entries: &[Entry]) -> (r: Option<Vec<RegOp>>)
        requires
            self.wf(),
        ensures
            r is Some <==> entries@.len() < ENTRIES_PER_BLOCK,
            r matches Some(ops) ==> ops@ == transmitting(self.ch, entries@),
    {
        if entries.len() >= ENTRIES_PER_BLOCK {
            return None;
        }
        let mut ops: Vec<RegOp> = Vec::new();
        let chunk = Chunk { dest: 0, src: 0, len: entries.len(), terminator: true };
        self.write_chunk(&mut ops, entries, chunk);
        self.rewind(&mut ops);
        ops.push(
            RegOp::Store { addr: ch_conf1(self.ch), clear: CONF1_ONE_SHOT, set: CONF1_TX_START },
        );
        assert(ops@ =~= chunk_writes(self.ch, entries@, chunk) + rewinds(self.ch) + seq![
            starts(self.ch),
        ]);
        Some(ops)
    }

    fn rewind(&self, ops: &mut Vec<RegOp>)
        requires
            self.wf(),
        ensures
            final(ops)@ == old(ops)@ + rewinds(self.ch),
    {
        let conf1: u32 = ch_conf1(self.ch);
        ops.push(RegOp::Load { addr: conf1 });
        ops.push(RegOp::Store { addr: conf1, clear: CONF1_ONE_SHOT, set: CONF1_RESETS });
        ops.push(RegOp::Store { addr: conf1, clear: CONF1_ONE_SHOT, set: 0 });
        assert(ops@ =~= old(ops)@ + rewinds(self.ch));
    }

    fn write_chunk(&self, ops: &mut Vec<RegOp>, entries: &[Entry], chunk: Chunk)
        requires
            self.wf(),
            chunk.src + chunk.len <= entries@.len(),
            chunk.dest + chunk.len <= ENTRIES_PER_BLOCK,
        ensures
            final(ops)@ == old(ops)@ + chunk_writes(self.ch, entries@, chunk),
    {
        let mem: u32 = ch_mem(self.ch);
        let total: usize = entries.len();
        let ghost before = ops@;
        let ghost writes = chunk_writes(self.ch, entries@, chunk);
        for i in 0..chunk.len
            invariant
                self.wf(),
                mem == block_addr(self.ch),
                total == entries@.len(),
                chunk.src + chunk.len <= total,
                chunk.dest + chunk.len <= ENTRIES_PER_BLOCK,
                writes == chunk_writes(self.ch, entries@, chunk),
                ops@ == before + writes.take(i as int),
        {
            ops.push(
                RegOp::Write {
                    addr: mem + 4 * (chunk.dest + i) as u32,
                    value: entries[chunk.src + i].0,
                },
            );
            assert(ops@ =~= before + writes.take(i + 1));
        }
        if chunk.terminator {
            ops.push(
                RegOp::Write { addr: mem + 4 * (chunk.dest + chunk.len) as u32, value: 0 },
            );
        }
        assert(ops@ =~= before + writes);
    }

    /// Begins a transmission of any length: both halves filled, the threshold
    /// interrupt armed with nothing stale pending, and the channel started.
    pub fn start_stream(&self, entries: &[Entry]) -> (r: (Refill, Vec<RegOp>))
        requires
            self.wf(),
        ensures
            r.0 == streaming(self.ch, entries@).0,
            r.0.wf(),
            r.1@ == streaming(self.ch, entries@).1,
    {
        let mut refill = Refill::new(entries.len());
        let ghost fresh = refill;
        let mut ops: Vec<RegOp> = vec![
            RegOp::Update { addr: APB_CONF, clear: 0, set: APB_MEM_TX_WRAP_EN },
            RegOp::Write { addr: ch_tx_lim(self.ch), value: HALF_BLOCK as u32 },
        ];
        let ghost head = ops@;
        if let Some(c) = refill.next_chunk() {
            self.write_chunk(&mut ops, entries, c);
        }
        let ghost primed = refill;
        assert(ops@ =~= head + chunk_writes(self.ch, entries@, chunk_of(fresh)));
        let ghost first = ops@;
        if let Some(c) = refill.next_chunk() {
            self.write_chunk(&mut ops, entries, c);
        }
        let ghost second = if primed.terminated {
            Seq::empty()
        } else {
            chunk_writes(self.ch, entries@, chunk_of(primed))
        };
        assert(ops@ =~= first + second);
        self.rewind(&mut ops);
        ops.push(
            RegOp::Write { addr: INT_CLR, value: tx_thr_bit(self.ch) | tx_end_bit(self.ch) },
        );
        ops.push(RegOp::Update { addr: INT_ENA, clear: 0, set: tx_thr_bit(self.ch) });
        ops.push(
            RegOp::Store { addr: ch_conf1(self.ch), clear: CONF1_ONE_SHOT, set: CONF1_TX_START },
        );
        assert(head =~= wraps(self.ch));
        assert(ops@ =~= head + chunk_writes(self.ch, entries@, chunk_of(fresh)) + second
            + rewinds(self.ch) + launches(self.ch));
        (refill, ops)
    }

    /// Answers a threshold event: clears it, then refills the half just played, or
    /// stops the interrupt where there is nothing left; the flag says which.
    pub fn service(&self, entries: &[Entry], refill: &mut Refill) -> (r: (Vec<RegOp>, bool))
        requires
            self.wf(),
            old(refill).wf(),
            old(refill).total <= entries@.len(),
        ensures
            final(refill).wf(),
            r.1 == old(refill).terminated,
            *final(refill) == if old(refill).terminated {
                *old(refill)
            } else {
                after_chunk(*old(refill))
            },
            r.0@ == serving(self.ch, entries@, *old(refill)),
    {
        let mut ops: Vec<RegOp> = vec![
            RegOp::Write { addr: INT_CLR, value: tx_thr_bit(self.ch) },
        ];
        let done: bool = match refill.next_chunk() {
            Some(c) => {
                self.write_chunk(&mut ops, entries, c);
                false
            },
            None => {
                ops.push(RegOp::Update { addr: INT_ENA, clear: tx_thr_bit(self.ch), set: 0 });
                true
            },
        };
        assert(ops@ =~= serving(self.ch, entries@, *old(refill)));
        (ops, done)
    }

    /// Whether the channel has stopped, by the raw interrupt register.
    pub fn stream_done(&self, int_raw: u32) -> (b: bool)
        requires
            self.wf(),
        ensures
            b == (int_raw & end_bit(self.ch) != 0),
    {
        int_raw & tx_end_bit(self.ch) != 0
    }
}

proof fn lemma_interrupt_bits(x: u32, y: u32)
    by (bit_vector)
    requires
        x < 8,
        y < 8,
    ensures
        x != y ==> (1u32 << (24 + x) as u32) & (1u32 << (24 + y) as u32) == 0,
        x != y ==> (1u32 << (3 * x) as u32) & (1u32 << (3 * y) as u32) == 0,
        (1u32 << (3 * x) as u32) & (1u32 << (24 + y) as u32) == 0,
        (1u32 << (24 + x) as u32) >> 24 == 1u32 << x,
        x == 0 ==> (1u32 << (3 * x) as u32) == 1,
        x > 0 ==> (1u32 << (3 * x) as u32) == 8 * (1u32 << (3 * (x - 1)) as u32),
        (1u32 << (24 + 0) as u32) == 0x100_0000,
        x > 0 ==> (1u32 << (24 + x) as u32) == 2 * (1u32 << (24 + (x - 1)) as u32),
        forall|w: u32| #![trigger w & !((1u32 << 0u32) | (1u32 << 3u32) | (1u32 << 16u32))]
            (w & !((1u32 << 0) | (1u32 << 3) | (1u32 << 16))) | ((1u32 << 3) | (1u32 << 16)) == (w
                & !0x1_0009u32) | 0x1_0008,
        forall|w: u32| #![trigger w & !((1u32 << 0u32) | (1u32 << 3u32) | (1u32 << 16u32))]
            (w & !((1u32 << 0) | (1u32 << 3) | (1u32 << 16))) | 0 == w & !0x1_0009u32,
        forall|w: u32| #![trigger w & !((1u32 << 0u32) | (1u32 << 3u32) | (1u32 << 16u32))]
            (w & !((1u32 << 0) | (1u32 << 3) | (1u32 << 16))) | (1u32 << 0) == (w & !0x1_0009u32)
                | 1,
        forall|d: u8| #![trigger (d as u32) << 0u32]
            (((d as u32) << 0u32) | (1u32 << 24u32)) & !(1u32 << 28) == 0x100_0000 + d,
        ((1u32 << 17) | (1u32 << 19)) & !((1u32 << 18) | (1u32 << 5)) == 0xA_0000,
        forall|w: u32| #![trigger w & !0u32] (w & !0u32) | (1u32 << 0) == w | 1,
        forall|w: u32| #![trigger w & !0u32] (w & !0u32) | (1u32 << 1) == w | 2,
        forall|w: u32| #![trigger w & !0u32] w & !0u32 == w,
{
}

/// No channel's interrupt bit is another's, nor is an end bit a threshold bit.
pub proof fn law_interrupt_bits_do_not_alias(a: u8, b: u8)
    requires
        a < 8,
        b < 8,
    ensures
        a != b ==> threshold_bit(a) & threshold_bit(b) == 0,
        a != b ==> end_bit(a) & end_bit(b) == 0,
        end_bit(a) & threshold_bit(b) == 0,
{
    lemma_interrupt_bits(a as u32, b as u32);
}

/// The blocks tile the entry memory: one ends where the next begins.
pub proof fn law_blocks_tile(ch: u8)
    ensures
        block_addr(ch) + 4 * ENTRIES_PER_BLOCK == MEM_BASE + 256 * (ch + 1),
{
}

/// A pulse's level and duration can be read back from the entry.
pub proof fn law_entry_fields(lv0: bool, d0: u16, lv1: bool, d1: u16)
    ensures
        ({
            let word = entry_word(lv0, d0, lv1, d1);
            &&& 0 <= word <= u32::MAX
            &&& word % 0x8000 == clamped(d0)
            &&& (word / 0x8000 % 2 == 1) == lv0
            &&& word / 0x1_0000 % 0x8000 == clamped(d1)
            &&& (word / 0x8000_0000 == 1) == lv1
        }),
{
    let word = entry_word(lv0, d0, lv1, d1);
    let level0 = if lv0 { 1int } else { 0 };
    let level1 = if lv1 { 1int } else { 0 };
    let second = pulse(lv1, d1);
    assert(second == clamped(d1) + 0x8000 * level1);
    vstd::arithmetic::div_mod::lemma_fundamental_div_mod_converse(
        word,
        0x8000,
        level0 + 2 * second,
        clamped(d0),
    );
    vstd::arithmetic::div_mod::lemma_fundamental_div_mod_converse(
        word,
        0x1_0000,
        second,
        pulse(lv0, d0),
    );
    vstd::arithmetic::div_mod::lemma_fundamental_div_mod_converse(
        second,
        0x8000,
        level1,
        clamped(d1),
    );
    vstd::arithmetic::div_mod::lemma_fundamental_div_mod_converse(
        word,
        0x8000_0000,
        level1,
        pulse(lv0, d0) + 0x1_0000 * clamped(d1),
    );
}

/// A tick is 12.5 ns for each unit of the divider: as close to what was asked as it gets from
/// below, one at least and 255 at most.
pub proof fn law_the_divider_counts_12_5_ns(ns: u32)
    ensures
        1 <= divider_of(ns) <= 255,
        2 * ns < 25 ==> divider_of(ns) == 1,
        2 * ns >= 256 * 25 ==> divider_of(ns) == 255,
        25 <= 2 * ns < 256 * 25 ==> 25 * divider_of(ns) <= 2 * ns < 25 * (divider_of(ns) + 1),
{
}

/// A channel is left with its divider, one block, no carrier, the fast clock, its output at rest
/// and low, its block its own, and the memory mapped.
pub proof fn law_a_channel_is_configured(r: super::Registers, ch: u8, div: u8)
    requires
        ch < 8,
    ensures
        ({
            let end = super::after_all(r, configuring(ch, div));
            &&& end.words[(0x3FF5_6020 + 8 * ch) as u32] == 0x100_0000 + div
            &&& end.words[(0x3FF5_6024 + 8 * ch) as u32] == 0xA_0000
            &&& end.words[0x3FF5_60F0] == r.words[0x3FF5_60F0] | 1
        }),
{
    let ops = configuring(ch, div);
    lemma_interrupt_bits(0, 0);
    assert(super::after_all(r, ops.take(0)) == r);
    super::lemma_after_take(r, ops, 1);
    super::lemma_after_take(r, ops, 2);
    super::lemma_after_take(r, ops, 3);
    assert(ops.take(3) =~= ops);
}

/// A channel's threshold is bit 24 and up, one for each; its end is every third bit.
pub proof fn law_the_interrupt_bits_are_the_chips(ch: u8)
    requires
        ch < 8,
    ensures
        threshold_bit(0) == 0x100_0000,
        end_bit(0) == 1,
        ch > 0 ==> threshold_bit(ch) == 2 * threshold_bit((ch - 1) as u8),
        ch > 0 ==> end_bit(ch) == 8 * end_bit((ch - 1) as u8),
{
    lemma_interrupt_bits(0, 0);
    lemma_interrupt_bits(ch as u32, 0);
}

/// The word in a slot of a channel's block.
pub open spec fn slot(r: super::Registers, ch: u8, i: int) -> u32 {
    r.words[(0x3FF5_6800 + 256 * ch + 4 * i) as u32]
}

proof fn lemma_written(r: super::Registers, ch: u8, entries: Seq<Entry>, c: Chunk, k: int)
    requires
        ch < 8,
        c.src + c.len <= entries.len(),
        c.dest + c.len + (if c.terminator { 1int } else { 0 }) <= 64,
        0 <= k <= chunk_writes(ch, entries, c).len(),
    ensures
        ({
            let some = super::after_all(r, chunk_writes(ch, entries, c).take(k));
            &&& some.held == r.held
            &&& forall|i: int|
                0 <= i < k ==> #[trigger] slot(some, ch, c.dest + i) == if i < c.len {
                    entries[c.src + i].0
                } else {
                    0
                }
            &&& forall|a: u32|
                !(0x3FF5_6800 + 256 * ch + 4 * c.dest <= a < 0x3FF5_6800 + 256 * ch + 4 * (c.dest
                    + chunk_writes(ch, entries, c).len())) ==> #[trigger] some.words[a]
                    == r.words[a]
        }),
    decreases k,
{
    let ops = chunk_writes(ch, entries, c);
    if k > 0 {
        lemma_written(r, ch, entries, c, k - 1);
        super::lemma_after_take(r, ops, k);
        let before = super::after_all(r, ops.take(k - 1));
        let some = super::after_all(r, ops.take(k));
        let here = (0x3FF5_6800 + 256 * ch + 4 * (c.dest + (k - 1))) as u32;
        let value = if k - 1 < c.len {
            entries[c.src + (k - 1)].0
        } else {
            0
        };
        assert(ops[k - 1] == (RegOp::Write { addr: here, value }));
        assert(some.words == before.words.insert(here, value));
        assert forall|i: int| 0 <= i < k implies #[trigger] slot(some, ch, c.dest + i) == if i
            < c.len {
            entries[c.src + i].0
        } else {
            0
        } by {
            let addr = (0x3FF5_6800 + 256 * ch + 4 * (c.dest + i)) as u32;
            assert(addr == 0x3FF5_6800 + 256 * ch + 4 * (c.dest + i));
            if i < k - 1 {
                assert(addr != here);
                assert(slot(before, ch, c.dest + i) == slot(some, ch, c.dest + i));
            }
        }
    } else {
        assert(super::after_all(r, ops.take(0)) == r);
    }
}

/// A refill puts its entries into its half of the channel's own block, in order, the terminator
/// behind the last of them, and leaves every other word alone.
pub proof fn law_a_refill_stays_in_its_half(
    r: super::Registers,
    ch: u8,
    entries: Seq<Entry>,
    refill: Refill,
)
    requires
        ch < 8,
        refill.wf(),
        refill.total <= entries.len(),
    ensures
        ({
            let end = super::after_all(r, chunk_writes(ch, entries, chunk_of(refill)));
            let half = 32 * refill.next_half;
            let left = refill.total - refill.written;
            &&& forall|i: int|
                0 <= i < 32 && i < left ==> #[trigger] slot(end, ch, half + i)
                    == entries[refill.written + i].0
            &&& left < 32 ==> slot(end, ch, half + left) == 0
            &&& forall|a: u32|
                !(0x3FF5_6800 + 256 * ch + 4 * half <= a < 0x3FF5_6880 + 256 * ch + 4 * half)
                    ==> #[trigger] end.words[a] == r.words[a]
        }),
{
    let c = chunk_of(refill);
    let ops = chunk_writes(ch, entries, c);
    lemma_written(r, ch, entries, c, ops.len() as int);
    assert(ops.take(ops.len() as int) =~= ops);
    let end = super::after_all(r, ops);
    assert(c.dest == 32 * refill.next_half);
    assert(c.src == refill.written);
    assert forall|i: int| 0 <= i < 32 && i < refill.total - refill.written implies #[trigger] slot(
        end,
        ch,
        32 * refill.next_half + i,
    ) == entries[refill.written + i].0 by {
        assert(slot(end, ch, c.dest + i) == entries[c.src + i].0);
    }
    if refill.total - refill.written < 32 {
        assert(slot(end, ch, c.dest + c.len) == 0);
    }
}

/// A sequence that fits is in the block with a terminator behind it, and the channel starts
/// from its beginning: the resets are raised and lowered, then the start is set, and the rest
/// of its configuration is as it was.
pub proof fn law_a_sequence_is_sent_from_its_beginning(
    r: super::Registers,
    ch: u8,
    entries: Seq<Entry>,
)
    requires
        ch < 8,
        entries.len() < 64,
    ensures
        ({
            let ops = transmitting(ch, entries);
            let n = entries.len() as int + 1;
            let end = super::after_all(r, ops);
            let conf1 = (0x3FF5_6024 + 8 * ch) as u32;
            &&& ops.len() == n + 4
            &&& forall|i: int|
                0 <= i < entries.len() ==> #[trigger] slot(end, ch, i) == entries[i].0
            &&& slot(end, ch, entries.len() as int) == 0
            &&& super::after_all(r, ops.take(n + 2)).words[conf1] == (r.words[conf1]
                & !0x1_0009u32) | 0x1_0008
            &&& super::after_all(r, ops.take(n + 3)).words[conf1] == r.words[conf1] & !0x1_0009u32
            &&& end.words[conf1] == (r.words[conf1] & !0x1_0009u32) | 1
        }),
{
    let c = Chunk { dest: 0, src: 0, len: entries.len() as usize, terminator: true };
    let writes = chunk_writes(ch, entries, c);
    let ops = transmitting(ch, entries);
    let n = entries.len() as int + 1;
    let conf1 = (0x3FF5_6024 + 8 * ch) as u32;
    assert(writes.len() == n);
    lemma_written(r, ch, entries, c, n);
    assert(writes.take(n) =~= ops.take(n));
    let mid = super::after_all(r, ops.take(n));
    super::lemma_after_take(r, ops, n + 1);
    super::lemma_after_take(r, ops, n + 2);
    super::lemma_after_take(r, ops, n + 3);
    super::lemma_after_take(r, ops, n + 4);
    assert(ops.take(n + 4) =~= ops);
    lemma_interrupt_bits(0, 0);
    let end = super::after_all(r, ops);
    assert(mid.words[conf1] == r.words[conf1]);
    assert forall|i: int| 0 <= i < n implies #[trigger] slot(end, ch, i) == if i < entries.len() {
        entries[i].0
    } else {
        0
    } by {
        assert(slot(mid, ch, c.dest + i) == if i < entries.len() {
            entries[i].0
        } else {
            0
        });
    }
}

/// A stream tells when it has played half of its block of 64 entries, and wraps; before it
/// starts, nothing stale is pending and its threshold is let through. When it is served, its
/// threshold is acknowledged first, and shut off once the terminator is out.
pub proof fn law_a_stream_is_told_of_each_half(
    r: super::Registers,
    ch: u8,
    entries: Seq<Entry>,
    refill: Refill,
)
    requires
        ch < 8,
    ensures
        HALF_BLOCK == 32,
        ENTRIES_PER_BLOCK == 64,
        ({
            let ready = super::after_all(r, wraps(ch));
            &&& ready.words[0x3FF5_60F0] == r.words[0x3FF5_60F0] | 2
            &&& ready.words[(0x3FF5_60D0 + 4 * ch) as u32] == 32
        }),
        ({
            let ops = launches(ch);
            let armed = super::after_all(r, ops.take(2));
            &&& ops.len() == 3
            &&& armed.words[0x3FF5_60AC] == threshold_bit(ch) | end_bit(ch)
            &&& armed.words[0x3FF5_60A8] == r.words[0x3FF5_60A8] | threshold_bit(ch)
            &&& ops[2] == starts(ch)
        }),
        serving(ch, entries, refill)[0] == (RegOp::Write {
            addr: 0x3FF5_60AC,
            value: threshold_bit(ch),
        }),
        refill.terminated ==> serving(ch, entries, refill).skip(1) == seq![
            RegOp::Update { addr: 0x3FF5_60A8, clear: threshold_bit(ch), set: 0 },
        ],
        !refill.terminated ==> serving(ch, entries, refill).skip(1) == chunk_writes(
            ch,
            entries,
            chunk_of(refill),
        ),
{
    lemma_interrupt_bits(0, 0);
    let a = wraps(ch);
    assert(super::after_all(r, a.take(0)) == r);
    super::lemma_after_take(r, a, 1);
    super::lemma_after_take(r, a, 2);
    assert(a.take(2) =~= a);
    let b = launches(ch);
    assert(super::after_all(r, b.take(0)) == r);
    super::lemma_after_take(r, b, 1);
    super::lemma_after_take(r, b, 2);
    assert(serving(ch, entries, refill).skip(1) =~= if refill.terminated {
        seq![RegOp::Update { addr: 0x3FF5_60A8, clear: threshold_bit(ch), set: 0 }]
    } else {
        chunk_writes(ch, entries, chunk_of(refill))
    });
}

proof fn lemma_started(r: super::Registers, ch: u8)
    requires
        ch < 8,
    ensures
        ({
            let end = super::after_all(super::after_all(r, rewinds(ch)), launches(ch));
            &&& forall|a: u32| a >= 0x3FF5_6800 ==> #[trigger] end.words[a] == r.words[a]
            &&& end.words[(0x3FF5_6024 + 8 * ch) as u32] == (r.words[(0x3FF5_6024 + 8 * ch) as u32]
                & !0x1_0009u32) | 1
        }),
{
    let a = rewinds(ch);
    lemma_interrupt_bits(0, 0);
    assert(super::after_all(r, a.take(0)) == r);
    super::lemma_after_take(r, a, 1);
    super::lemma_after_take(r, a, 2);
    super::lemma_after_take(r, a, 3);
    assert(a.take(3) =~= a);
    let mid = super::after_all(r, a);
    let b = launches(ch);
    assert(super::after_all(mid, b.take(0)) == mid);
    super::lemma_after_take(mid, b, 1);
    super::lemma_after_take(mid, b, 2);
    super::lemma_after_take(mid, b, 3);
    assert(b.take(3) =~= b);
}

/// A stream starts with its block filled as far as it goes: the first 64 entries in order, or
/// all of them with a terminator behind; the bookkeeping says so, and the channel has been
/// started last.
pub proof fn law_a_stream_starts_with_its_block_full(
    r: super::Registers,
    ch: u8,
    entries: Seq<Entry>,
)
    requires
        ch < 8,
        entries.len() <= usize::MAX,
    ensures
        ({
            let (refill, ops) = streaming(ch, entries);
            let end = super::after_all(r, ops);
            &&& forall|i: int|
                0 <= i < 64 && i < entries.len() ==> #[trigger] slot(end, ch, i) == entries[i].0
            &&& entries.len() < 64 ==> slot(end, ch, entries.len() as int) == 0
            &&& refill.written == if entries.len() < 64 {
                entries.len() as int
            } else {
                64
            }
            &&& refill.terminated == (entries.len() < 64)
            &&& entries.len() >= 64 ==> refill.next_half == 0
            &&& ops.last() == starts(ch)
            &&& end.words[(0x3FF5_6024 + 8 * ch) as u32] % 2 == 1
        }),
{
    let n = entries.len() as int;
    let fresh = unsent(n);
    let primed = after_chunk(fresh);
    let (refill, ops) = streaming(ch, entries);
    let w = wraps(ch);
    let one = chunk_writes(ch, entries, chunk_of(fresh));
    let two = if primed.terminated {
        Seq::empty()
    } else {
        chunk_writes(ch, entries, chunk_of(primed))
    };
    assert(ops =~= w + one + two + rewinds(ch) + launches(ch));
    super::lemma_after_join(r, w + one + two + rewinds(ch), launches(ch));
    super::lemma_after_join(r, w + one + two, rewinds(ch));
    super::lemma_after_join(r, w + one, two);
    super::lemma_after_join(r, w, one);
    let r1 = super::after_all(r, w);
    let r2 = super::after_all(r1, one);
    let r3 = super::after_all(r2, two);
    law_a_refill_stays_in_its_half(r1, ch, entries, fresh);
    if !primed.terminated {
        law_a_refill_stays_in_its_half(r2, ch, entries, primed);
    }
    lemma_started(r3, ch);
    let end = super::after_all(r, ops);
    lemma_odd(r3.words[(0x3FF5_6024 + 8 * ch) as u32]);
    assert forall|i: int| 0 <= i < 64 && i < n implies #[trigger] slot(end, ch, i)
        == entries[i].0 by {
        let a = (0x3FF5_6800 + 256 * ch + 4 * i) as u32;
        assert(a == 0x3FF5_6800 + 256 * ch + 4 * i);
        assert(slot(end, ch, i) == r3.words[a]);
        if i < 32 {
            assert(slot(r2, ch, 0 + i) == entries[0 + i].0);
            assert(r3.words[a] == r2.words[a]);
        } else {
            assert(slot(r3, ch, 32 + (i - 32)) == entries[32 + (i - 32)].0);
        }
    }
    if n < 64 {
        let a = (0x3FF5_6800 + 256 * ch + 4 * n) as u32;
        assert(slot(end, ch, n) == r3.words[a]);
        if n < 32 {
            assert(slot(r2, ch, 0 + n) == 0);
            assert(r3.words[a] == r2.words[a]);
        } else {
            assert(slot(r3, ch, 32 + (n - 32)) == 0);
        }
    }
}

proof fn lemma_odd(w: u32)
    by (bit_vector)
    ensures
        ((w & !0x1_0009u32) | 1) % 2 == 1,
{
}

} // verus!
