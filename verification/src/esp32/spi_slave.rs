//! An SPI slave through the data buffer: it is armed before the master clocks, and
//! read when the master is done.

use vstd::prelude::*;

use super::spi::{
    load, spi_instance, unload, SPI_CK_I_EDGE, SPI_CLOCK, SPI_CMD, SPI_CMD_USR, SPI_CTRL,
    SPI_CTRL2, SPI_DOUTDIN, SPI_MAX_BYTES, SPI_PIN, SPI_SLAVE, SPI_SYNC_RESET, SPI_TIMEOUT_SPINS,
    SPI_TRANS_DONE, SPI_USER, SPI_USR_MISO, SPI_USR_MOSI,
};
use super::{judge, Poll, RegOp};
use crate::bus::{BusError, SpiMode};

verus! {

/// Slave rather than master.
pub const SPI_SLAVE_MODE: u32 = 1 << 30;
pub const SPI_WR_RD_BUF_EN: u32 = 1 << 29;
/// The clock's idle level.
pub const SPI_CK_IDLE_EDGE: u32 = 1 << 29;

/// How much goes out, in bits less one.
pub const SPI_SLV_WRBUF_DLEN: u32 = 0x48;
/// How much comes in, in bits less one.
pub const SPI_SLV_RDBUF_DLEN: u32 = 0x4C;

/// The delays of the two data lines, which make up for a clock that comes through
/// the pin matrix.
pub open spec fn delays(miso_mode: u32, miso_num: u32, mosi_mode: u32, mosi_num: u32) -> u32 {
    (miso_mode << 16) | (miso_num << 18) | (mosi_mode << 21) | (mosi_num << 23)
}

/// Idle level, input edge and delays of a mode.
pub open spec fn timing(mode: SpiMode) -> (bool, bool, u32) {
    match mode {
        SpiMode::Mode0 => (true, false, delays(0, 0, 2, 2)),
        SpiMode::Mode1 => (true, true, delays(2, 0, 0, 0)),
        SpiMode::Mode2 => (false, true, delays(0, 0, 1, 2)),
        SpiMode::Mode3 => (false, false, delays(1, 0, 0, 0)),
    }
}

fn pack_delays(miso_mode: u32, miso_num: u32, mosi_mode: u32, mosi_num: u32) -> (word: u32)
    ensures
        word == delays(miso_mode, miso_num, mosi_mode, mosi_num),
{
    (miso_mode << 16) | (miso_num << 18) | (mosi_mode << 21) | (mosi_num << 23)
}

/// Idle level, input edge and delays of a mode.
pub fn slave_mode_timing(mode: SpiMode) -> (t: (bool, bool, u32))
    ensures
        t == timing(mode),
{
    match mode {
        SpiMode::Mode0 => (true, false, pack_delays(0, 0, 2, 2)),
        SpiMode::Mode1 => (true, true, pack_delays(2, 0, 0, 0)),
        SpiMode::Mode2 => (false, true, pack_delays(0, 0, 1, 2)),
        SpiMode::Mode3 => (false, false, pack_delays(1, 0, 0, 0)),
    }
}

proof fn lemma_delays()
    by (bit_vector)
    ensures
        ((0u32 << 16) | (0u32 << 18) | (2u32 << 21) | (2u32 << 23)) & !0x03FF_0000u32 == 0,
        ((2u32 << 16) | (0u32 << 18) | (0u32 << 21) | (0u32 << 23)) & !0x03FF_0000u32 == 0,
        ((0u32 << 16) | (0u32 << 18) | (1u32 << 21) | (2u32 << 23)) & !0x03FF_0000u32 == 0,
        ((1u32 << 16) | (0u32 << 18) | (0u32 << 21) | (0u32 << 23)) & !0x03FF_0000u32 == 0,
{
}

/// No mode sets a bit outside the delay fields, and no two modes have the same
/// edges.
pub proof fn law_modes_are_told_apart(a: SpiMode, b: SpiMode)
    ensures
        timing(a).2 & !0x03FF_0000u32 == 0,
        a != b ==> (timing(a).0, timing(a).1) != (timing(b).0, timing(b).1),
{
    lemma_delays();
}

/// A controller as a slave. `ck_i_edge` is the input edge of its mode, which arming
/// has to carry.
#[derive(Clone, Copy, Debug, PartialEq, Eq, Structural)]
pub struct Esp32SpiSlave {
    pub base: u32,
    pub ck_i_edge: bool,
}

/// The accesses that make a controller a slave in a mode.
pub open spec fn enslaving(base: u32, mode: SpiMode) -> Seq<RegOp> {
    let (ck_idle, ck_i, ctrl2) = timing(mode);
    seq![
        RegOp::Gate { base, on: true },
        super::spi::write(base, SPI_CLOCK, 0),
        super::spi::write(base, SPI_USER, 0),
        super::spi::write(base, SPI_CTRL, 0),
        super::spi::write(base, SPI_SLAVE, SPI_WR_RD_BUF_EN | SPI_SLAVE_MODE),
        super::spi::change(base, SPI_SLAVE, 0, SPI_SYNC_RESET),
        super::spi::change(base, SPI_SLAVE, SPI_SYNC_RESET, 0),
        super::spi::change(base, SPI_USER, 0, SPI_DOUTDIN),
        if ck_idle {
            super::spi::change(base, SPI_PIN, 0, SPI_CK_IDLE_EDGE)
        } else {
            super::spi::change(base, SPI_PIN, SPI_CK_IDLE_EDGE, 0)
        },
    ] + (if ck_i {
        seq![super::spi::change(base, SPI_USER, 0, SPI_CK_I_EDGE)]
    } else {
        Seq::empty()
    }) + seq![super::spi::write(base, SPI_CTRL2, ctrl2)]
}

/// The accesses that preload some bytes and let the master's clock have them.
pub open spec fn preparing(base: u32, ck_i_edge: bool, data: Seq<u8>) -> Seq<RegOp> {
    let bits = (8 * data.len() - 1) as u32;
    seq![
        super::spi::change(base, SPI_SLAVE, 0, SPI_SYNC_RESET),
        super::spi::change(base, SPI_SLAVE, SPI_SYNC_RESET, 0),
    ] + super::spi::loading(base, data) + seq![
        super::spi::write(base, SPI_SLV_RDBUF_DLEN, bits),
        super::spi::write(base, SPI_SLV_WRBUF_DLEN, bits),
        super::spi::write(
            base,
            SPI_USER,
            SPI_DOUTDIN | (if ck_i_edge {
                SPI_CK_I_EDGE
            } else {
                0
            }) | SPI_USR_MOSI | SPI_USR_MISO,
        ),
        super::spi::change(base, SPI_SLAVE, SPI_TRANS_DONE, 0),
        super::spi::write(base, SPI_CMD, SPI_CMD_USR),
    ]
}

/// What a transfer comes to: what is asked, what there is, what the buffer holds,
/// whichever is least.
pub open spec fn clipped(len: int, have: int) -> int {
    super::smaller(super::smaller(len, have), SPI_MAX_BYTES as int)
}

fn clip(len: usize, have: usize) -> (n: usize)
    ensures
        n == clipped(len as int, have as int),
{
    let least: usize = if len < have {
        len
    } else {
        have
    };
    if least < SPI_MAX_BYTES {
        least
    } else {
        SPI_MAX_BYTES
    }
}

impl Esp32SpiSlave {
    /// The registers lie within the address space.
    pub open spec fn wf(&self) -> bool {
        self.base + 0x150 <= u32::MAX
    }

    /// A driver of the controller at an address.
    pub fn new(base_addr: u32) -> (s: Self)
        ensures
            s == (Esp32SpiSlave { base: base_addr, ck_i_edge: false }),
    {
        Esp32SpiSlave { base: base_addr, ck_i_edge: false }
    }

    fn reg(&self, offset: u32, value: u32) -> (op: RegOp)
        requires
            self.base + offset <= u32::MAX,
        ensures
            op == super::spi::write(self.base, offset, value),
    {
        RegOp::Write { addr: self.base + offset, value }
    }

    fn change(&self, offset: u32, clear: u32, set: u32) -> (op: RegOp)
        requires
            self.base + offset <= u32::MAX,
        ensures
            op == super::spi::change(self.base, offset, clear, set),
    {
        RegOp::Update { addr: self.base + offset, clear, set }
    }

    /// Makes the controller a slave in a mode; the pads are the caller's to route.
    pub fn init(&mut self, mode: SpiMode) -> (r: Result<Vec<RegOp>, BusError>)
        ensures
            match r {
                Err(e) => super::spi::instance_at(old(self).base) is None && e is InvalidConfig
                    && *final(self) == *old(self),
                Ok(ops) => super::spi::instance_at(old(self).base) is Some && ops@ == enslaving(
                    old(self).base,
                    mode,
                ) && *final(self) == (Esp32SpiSlave { ck_i_edge: timing(mode).1, ..*old(self) }),
            },
    {
        if spi_instance(self.base).is_none() {
            return Err(BusError::InvalidConfig);
        }
        let (ck_idle, ck_i, ctrl2): (bool, bool, u32) = slave_mode_timing(mode);
        self.ck_i_edge = ck_i;
        let pin: RegOp = if ck_idle {
            self.change(SPI_PIN, 0, SPI_CK_IDLE_EDGE)
        } else {
            self.change(SPI_PIN, SPI_CK_IDLE_EDGE, 0)
        };
        let mut ops: Vec<RegOp> = vec![
            RegOp::Gate { base: self.base, on: true },
            self.reg(SPI_CLOCK, 0),
            self.reg(SPI_USER, 0),
            self.reg(SPI_CTRL, 0),
            self.reg(SPI_SLAVE, SPI_WR_RD_BUF_EN | SPI_SLAVE_MODE),
            self.change(SPI_SLAVE, 0, SPI_SYNC_RESET),
            self.change(SPI_SLAVE, SPI_SYNC_RESET, 0),
            self.change(SPI_USER, 0, SPI_DOUTDIN),
            pin,
        ];
        if ck_i {
            ops.push(self.change(SPI_USER, 0, SPI_CK_I_EDGE));
        }
        ops.push(self.reg(SPI_CTRL2, ctrl2));
        assert(ops@ =~= enslaving(self.base, mode));
        Ok(ops)
    }

    /// Arms an exchange of up to `len` bytes, as far as `tx` and the buffer go.
    pub fn arm(&self, tx: &[u8], len: usize) -> (ops: Vec<RegOp>)
        requires
            self.wf(),
            0 < len,
            0 < tx@.len(),
        ensures
            ops@ == preparing(
                self.base,
                self.ck_i_edge,
                tx@.take(clipped(len as int, tx@.len() as int)),
            ),
    {
        let n: usize = clip(len, tx.len());
        let ghost data = tx@.take(n as int);
        let mut ops: Vec<RegOp> = vec![
            self.change(SPI_SLAVE, 0, SPI_SYNC_RESET),
            self.change(SPI_SLAVE, SPI_SYNC_RESET, 0),
        ];
        let mut words: Vec<RegOp> = load(self.base, tx, n);
        ops.append(&mut words);
        let bits: u32 = n as u32 * 8 - 1;
        let ck_i: u32 = if self.ck_i_edge {
            SPI_CK_I_EDGE
        } else {
            0
        };
        ops.push(self.reg(SPI_SLV_RDBUF_DLEN, bits));
        ops.push(self.reg(SPI_SLV_WRBUF_DLEN, bits));
        ops.push(self.reg(SPI_USER, SPI_DOUTDIN | ck_i | SPI_USR_MOSI | SPI_USR_MISO));
        ops.push(self.change(SPI_SLAVE, SPI_TRANS_DONE, 0));
        ops.push(self.reg(SPI_CMD, SPI_CMD_USR));
        assert(ops@ =~= preparing(self.base, self.ck_i_edge, data));
        ops
    }

    /// Whether the master is done, by the slave register after `spins` looks in vain.
    pub fn finished(&self, slave: u32, spins: u32) -> (p: Poll)
        ensures
            p == super::verdict(slave & SPI_TRANS_DONE != 0, spins, SPI_TIMEOUT_SPINS),
    {
        judge(slave & SPI_TRANS_DONE != 0, spins, SPI_TIMEOUT_SPINS)
    }

    /// How many words of the buffer to read for up to `len` bytes into a buffer of
    /// `room`.
    pub fn reply_words(&self, len: usize, room: usize) -> (n: usize)
        ensures
            n == super::spi::words_for(clipped(len as int, room as int)),
    {
        super::spi::word_count(clip(len, room))
    }

    /// Takes what the master sent out of the words of the buffer; what does not fit
    /// in `rx` or was not asked for is left.
    pub fn complete(&self, words: &[u32], rx: &mut [u8], len: usize)
        requires
            words@.len() == super::spi::words_for(clipped(len as int, old(rx)@.len() as int)),
        ensures
            final(rx)@.len() == old(rx)@.len(),
            forall|i: int|
                0 <= i < final(rx)@.len() ==> #[trigger] final(rx)@[i] == if i < clipped(
                    len as int,
                    old(rx)@.len() as int,
                ) {
                    crate::math::le_byte(words@[i / 4], i % 4)
                } else {
                    old(rx)@[i]
                },
    {
        let n: usize = clip(len, rx.len());
        unload(words, rx, n);
    }
}

} // verus!
