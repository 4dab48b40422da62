//! The ESP32's peripherals: which registers are written, with what, and what is
//! made of what they hold.

use vstd::prelude::*;

use crate::bus::BusError;

pub mod adc;
pub mod adc2;
pub mod aes;
pub mod claims;
pub mod dac;
pub mod flash;
pub mod gpio;
pub mod i2c;
pub mod i2s;
pub mod lact;
pub mod ledc;
pub mod mcpwm;
pub mod pcnt;
pub mod rmt;
pub mod rng;
pub mod scratch;
pub mod sha;
pub mod spi;
pub mod spi1;
pub mod spi1_laws;
pub mod spi1_run;
pub mod spi_dma;
pub mod spi_laws;
pub mod spi_slave;
pub mod timg;
pub mod touch;
pub mod twai;

verus! {

/// The clock that feeds the peripherals' dividers.
pub const APB_HZ: u32 = 80_000_000;

/// What a look at a status register says.
#[derive(Clone, Copy, Debug, PartialEq, Eq, Structural)]
pub enum Poll {
    /// Not yet: look again.
    Again,
    Done,
    /// Not yet, and looked at often enough.
    TimedOut,
}

/// The verdict on a look that `before` looks in vain came before, where `limit` of
/// them are borne.
pub open spec fn verdict(done: bool, before: u32, limit: u32) -> Poll {
    if done {
        Poll::Done
    } else if before >= limit {
        Poll::TimedOut
    } else {
        Poll::Again
    }
}

/// The verdict on a look that `before` looks in vain came before, where `limit` of
/// them are borne.
pub fn judge(done: bool, before: u32, limit: u32) -> (p: Poll)
    ensures
        p == verdict(done, before, limit),
{
    if done {
        Poll::Done
    } else if before >= limit {
        Poll::TimedOut
    } else {
        Poll::Again
    }
}

/// How a controller answers a request to come up: clock it first if `clock` says
/// so, then go on or give up.
#[derive(Clone, Copy, Debug, PartialEq, Eq)]
pub struct Admission {
    pub clock: bool,
    pub result: Result<(), BusError>,
}

/// A connection through the pad matrix. A pad is given to the matrix, with its input
/// on, before it is connected.
#[derive(Clone, Copy, Debug, PartialEq, Eq, Structural)]
pub enum Route {
    /// A peripheral's output to a pad.
    Output { idx: u32, pin: u8 },
    /// A pad to a peripheral's input.
    Input { idx: u32, pin: u8 },
    /// A constant level to a peripheral's input.
    Level { idx: u32, high: bool },
}

/// One access to a memory-mapped register. A list of them is performed in order
/// by one that holds a single word for [`RegOp::Load`] and [`RegOp::Store`].
#[derive(Clone, Copy, Debug, PartialEq, Eq, Structural)]
pub enum RegOp {
    Write { addr: u32, value: u32 },
    /// Reads the register and writes it back with the bits of `clear` cleared and
    /// those of `set` set.
    Update { addr: u32, clear: u32, set: u32 },
    /// Reads the register into the held word.
    Load { addr: u32 },
    /// Writes the held word with the bits of `clear` cleared and those of `set`
    /// set; the held word stays.
    Store { addr: u32, clear: u32, set: u32 },
    /// Reads the register and drops what it holds.
    Drain { addr: u32 },
    /// Clocks the peripheral at `base`, or stops it and holds it in reset.
    Gate { base: u32, on: bool },
}

/// A word with the bits of `clear` cleared and those of `set` set.
pub open spec fn updated(value: u32, clear: u32, set: u32) -> u32 {
    (value & !clear) | set
}

/// A word with the bits of `clear` cleared and those of `set` set.
pub fn update(value: u32, clear: u32, set: u32) -> (r: u32)
    ensures
        r == updated(value, clear, set),
{
    (value & !clear) | set
}

/// One step with a crypto accelerator. A list of them ends at the first wait that
/// lasts too long.
#[derive(Clone, Copy, Debug, PartialEq, Eq, Structural)]
pub enum CryptoOp {
    /// Clock the accelerator, or stop its clock.
    Clock(bool),
    Write { addr: u32, value: u32 },
    /// Wait until the accelerator is idle.
    AwaitIdle,
    /// Read this many words from `addr` on; they are the result.
    Fetch { addr: u32, words: usize },
}

/// Why a transform did not come off.
#[derive(Clone, Copy, Debug, PartialEq, Eq, Structural)]
pub enum CryptoError {
    /// The accelerator did not get idle.
    Timeout,
}

/// The larger of two numbers.
pub open spec fn larger(a: int, b: int) -> int {
    if a < b {
        b
    } else {
        a
    }
}

/// The smaller of two numbers.
pub open spec fn smaller(a: int, b: int) -> int {
    if a < b {
        a
    } else {
        b
    }
}

/// What the registers and the held word come to.
pub struct Registers {
    pub words: Map<u32, u32>,
    pub held: u32,
}

/// The registers after one access, taking each to hold what was written to it.
pub open spec fn after(r: Registers, op: RegOp) -> Registers {
    match op {
        RegOp::Write { addr, value } => Registers { words: r.words.insert(addr, value), ..r },
        RegOp::Update { addr, clear, set } => Registers {
            words: r.words.insert(addr, updated(r.words[addr], clear, set)),
            ..r
        },
        RegOp::Load { addr } => Registers { held: r.words[addr], ..r },
        RegOp::Store { addr, clear, set } => Registers {
            words: r.words.insert(addr, updated(r.held, clear, set)),
            ..r
        },
        RegOp::Drain { addr } => r,
        RegOp::Gate { base, on } => r,
    }
}

/// The registers after a list of accesses.
pub open spec fn after_all(r: Registers, ops: Seq<RegOp>) -> Registers
    decreases ops.len(),
{
    if ops.len() == 0 {
        r
    } else {
        after(after_all(r, ops.drop_last()), ops.last())
    }
}

/// One access more.
pub(crate) proof fn lemma_after_take(r: Registers, ops: Seq<RegOp>, k: int)
    requires
        0 < k <= ops.len(),
    ensures
        after_all(r, ops.take(k)) == after(after_all(r, ops.take(k - 1)), ops[k - 1]),
{
    assert(ops.take(k).drop_last() =~= ops.take(k - 1));
}

/// A look that finds what it waits for ends the wait; one in vain goes on until there were as
/// many before it as are borne.
pub proof fn law_a_wait_is_bounded(done: bool, before: u32, limit: u32)
    ensures
        verdict(done, before, limit) is Done == done,
        verdict(done, before, limit) is TimedOut == (!done && before >= limit),
        verdict(done, before, limit) is Again == (!done && before < limit),
{
}

/// Accesses in two parts are those of the first and then those of the second.
pub(crate) proof fn lemma_after_join(r: Registers, a: Seq<RegOp>, b: Seq<RegOp>)
    ensures
        after_all(r, a + b) == after_all(after_all(r, a), b),
    decreases b.len(),
{
    if b.len() == 0 {
        assert(a + b =~= a);
    } else {
        assert((a + b).drop_last() =~= a + b.drop_last());
        lemma_after_join(r, a, b.drop_last());
    }
}

} // verus!
