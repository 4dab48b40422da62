//! SPI transfers by DMA, which are not bound by the data buffer: the engine walks a
//! chain of descriptors in memory.

use vstd::prelude::*;

use super::spi::{
    Esp32Spi, SPI_CK_I_EDGE, SPI_CK_OUT_EDGE, SPI_CMD, SPI_CMD_USR, SPI_CS_HOLD, SPI_DOUTDIN,
    SPI_MISO_DLEN, SPI_MOSI_DLEN, SPI_SLAVE, SPI_SYNC_RESET, SPI_TIMEOUT_SPINS, SPI_TRANS_DONE,
    SPI_USER, SPI_USR_MISO, SPI_USR_MOSI,
};
use super::{judge, Poll, RegOp};
use crate::bus::BusError;

verus! {

pub const SPI_DMA_CONF: u32 = 0x100;
pub const SPI_DMA_OUT_LINK: u32 = 0x104;
pub const SPI_DMA_IN_LINK: u32 = 0x108;
pub const SPI_DMA_INT_ENA: u32 = 0x110;
pub const SPI_DMA_INT_RAW: u32 = 0x114;
pub const SPI_DMA_INT_CLR: u32 = 0x11C;
pub const SPI_DMA_RSTATUS: u32 = 0x148;
pub const SPI_DMA_TX_FIFO_EMPTY: u32 = 1 << 31;

pub const SPI_IN_RST: u32 = 1 << 2;
pub const SPI_OUT_RST: u32 = 1 << 3;
pub const SPI_AHBM_FIFO_RST: u32 = 1 << 4;
pub const SPI_AHBM_RST: u32 = 1 << 5;

/// Descriptor and data bursts, without which a chain armed again is misread.
pub const SPI_OUT_EOF_MODE: u32 = 1 << 9;
pub const SPI_OUTDSCR_BURST_EN: u32 = 1 << 10;
pub const SPI_INDSCR_BURST_EN: u32 = 1 << 11;
pub const SPI_OUT_DATA_BURST_EN: u32 = 1 << 12;

pub const SPI_OUTLINK_STOP: u32 = 1 << 28;
pub const SPI_OUTLINK_START: u32 = 1 << 29;
pub const SPI_INLINK_AUTO_RET: u32 = 1 << 20;
pub const SPI_INLINK_STOP: u32 = 1 << 28;
pub const SPI_INLINK_START: u32 = 1 << 29;

/// The receiving chain is at its end.
pub const SPI_IN_SUC_EOF: u32 = 1 << 5;
/// The sending chain is at its end.
pub const SPI_OUT_EOF: u32 = 1 << 7;

/// What a link register holds of an address: the bits above share it with start and
/// stop.
pub const LINK_ADDR_MASK: u32 = 0x000F_FFFF;

/// The part of a descriptor's address that a link register takes.
pub open spec fn link_field(chain: u32) -> u32 {
    chain & LINK_ADDR_MASK
}

/// The part of a descriptor's address that a link register takes.
pub fn link_addr(chain: u32) -> (field: u32)
    ensures
        field == link_field(chain),
{
    chain & LINK_ADDR_MASK
}

proof fn lemma_link_field(chain: u32)
    by (bit_vector)
    ensures
        ({
            let start = (chain & 0x000F_FFFF) | (1u32 << 29);
            &&& start & 0x000F_FFFF == chain & 0x000F_FFFF
            &&& start & (1u32 << 28) == 0
            &&& start & (1u32 << 29) != 0
        }),
        ({
            let start = (chain & 0x000F_FFFF) | (1u32 << 20) | (1u32 << 29);
            &&& start & 0x000F_FFFF == chain & 0x000F_FFFF
            &&& start & (1u32 << 28) == 0
            &&& start & (1u32 << 29) != 0
        }),
{
}

/// Arming a link keeps the address and sets start alone, whatever the chain's
/// address is.
pub proof fn law_start_bit_does_not_collide(chain: u32)
    ensures
        ({
            let start = link_field(chain) | SPI_OUTLINK_START;
            &&& start & LINK_ADDR_MASK == link_field(chain)
            &&& start & SPI_OUTLINK_STOP == 0
            &&& start & SPI_OUTLINK_START != 0
        }),
        ({
            let start = link_field(chain) | SPI_INLINK_AUTO_RET | SPI_INLINK_START;
            &&& start & LINK_ADDR_MASK == link_field(chain)
            &&& start & SPI_INLINK_STOP == 0
            &&& start & SPI_INLINK_START != 0
        }),
{
    lemma_link_field(chain);
}

/// The resets of both directions and of their common master.
pub open spec fn dma_resets() -> u32 {
    SPI_IN_RST | SPI_OUT_RST | SPI_AHBM_RST | SPI_AHBM_FIFO_RST
}

/// The accesses that arm a transfer: links disarmed, the core and then the engine
/// reset, bursts on, the last transfer's flags cleared, the lengths, both links
/// armed, the data phases enabled.
pub open spec fn arming(base: u32, cpha: bool, tx_chain: u32, rx_chain: u32, len: int) -> Seq<
    RegOp,
> {
    let bits = (8 * len - 1) as u32;
    seq![
        super::spi::write(base, SPI_DMA_IN_LINK, 0),
        super::spi::write(base, SPI_DMA_OUT_LINK, 0),
        super::spi::change(base, SPI_SLAVE, 0, SPI_SYNC_RESET),
        super::spi::change(base, SPI_SLAVE, SPI_SYNC_RESET, 0),
        super::spi::change(base, SPI_DMA_CONF, 0, dma_resets()),
        super::spi::change(base, SPI_DMA_CONF, dma_resets(), 0),
        super::spi::change(
            base,
            SPI_DMA_CONF,
            0,
            SPI_OUT_EOF_MODE | SPI_INDSCR_BURST_EN | SPI_OUTDSCR_BURST_EN
                | SPI_OUT_DATA_BURST_EN,
        ),
        super::spi::change(base, SPI_SLAVE, SPI_TRANS_DONE, 0),
        super::spi::write(base, SPI_DMA_INT_CLR, SPI_IN_SUC_EOF | SPI_OUT_EOF),
        super::spi::write(base, SPI_MOSI_DLEN, bits),
        super::spi::write(base, SPI_MISO_DLEN, bits),
        super::spi::write(base, SPI_DMA_OUT_LINK, link_field(tx_chain) | SPI_OUTLINK_START),
        super::spi::write(
            base,
            SPI_DMA_IN_LINK,
            link_field(rx_chain) | SPI_INLINK_AUTO_RET | SPI_INLINK_START,
        ),
        super::spi::write(
            base,
            SPI_USER,
            SPI_DOUTDIN | SPI_CS_HOLD | SPI_CK_I_EDGE | SPI_USR_MOSI | SPI_USR_MISO | if cpha {
                SPI_CK_OUT_EDGE
            } else {
                0
            },
        ),
    ]
}

/// The accesses that halt both links.
pub open spec fn halting(base: u32) -> Seq<RegOp> {
    seq![
        super::spi::write(base, SPI_DMA_OUT_LINK, SPI_OUTLINK_STOP),
        super::spi::write(base, SPI_DMA_IN_LINK, SPI_INLINK_STOP),
    ]
}

/// The transaction is over, and both chains with it.
pub open spec fn landed(slave: u32, int_raw: u32) -> bool {
    slave & SPI_TRANS_DONE != 0 && int_raw & SPI_IN_SUC_EOF != 0 && int_raw & SPI_OUT_EOF != 0
}

impl Esp32Spi {
    /// Arms a transfer; once [`Esp32Spi::dma_primed`] says so,
    /// [`Esp32Spi::dma_fire`] starts it.
    pub fn dma_setup_and_fire(&self, tx_chain: u32, rx_chain: u32, len: usize) -> (ops: Vec<RegOp>)
        requires
            self.wf(),
            0 < len,
            8 * len <= u32::MAX,
        ensures
            ops@ == arming(self.base, self.cpha, tx_chain, rx_chain, len as int),
    {
        let resets: u32 = SPI_IN_RST | SPI_OUT_RST | SPI_AHBM_RST | SPI_AHBM_FIFO_RST;
        let bits: u32 = len as u32 * 8 - 1;
        let ck_out: u32 = if self.cpha {
            SPI_CK_OUT_EDGE
        } else {
            0
        };
        let ops: Vec<RegOp> = vec![
            self.reg(SPI_DMA_IN_LINK, 0),
            self.reg(SPI_DMA_OUT_LINK, 0),
            self.change(SPI_SLAVE, 0, SPI_SYNC_RESET),
            self.change(SPI_SLAVE, SPI_SYNC_RESET, 0),
            self.change(SPI_DMA_CONF, 0, resets),
            self.change(SPI_DMA_CONF, resets, 0),
            self.change(
                SPI_DMA_CONF,
                0,
                SPI_OUT_EOF_MODE | SPI_INDSCR_BURST_EN | SPI_OUTDSCR_BURST_EN
                    | SPI_OUT_DATA_BURST_EN,
            ),
            self.change(SPI_SLAVE, SPI_TRANS_DONE, 0),
            self.reg(SPI_DMA_INT_CLR, SPI_IN_SUC_EOF | SPI_OUT_EOF),
            self.reg(SPI_MOSI_DLEN, bits),
            self.reg(SPI_MISO_DLEN, bits),
            self.reg(SPI_DMA_OUT_LINK, link_addr(tx_chain) | SPI_OUTLINK_START),
            self.reg(
                SPI_DMA_IN_LINK,
                link_addr(rx_chain) | SPI_INLINK_AUTO_RET | SPI_INLINK_START,
            ),
            self.reg(
                SPI_USER,
                SPI_DOUTDIN | SPI_CS_HOLD | SPI_CK_I_EDGE | SPI_USR_MOSI | SPI_USR_MISO | ck_out,
            ),
        ];
        assert(ops@ =~= arming(self.base, self.cpha, tx_chain, rx_chain, len as int));
        ops
    }

    /// Whether the first byte is there to go out, or was waited for long enough, by
    /// the transmit status after `spins` looks in vain.
    pub fn dma_primed(&self, rstatus: u32, spins: u32) -> (primed: bool)
        ensures
            primed == (rstatus & SPI_DMA_TX_FIFO_EMPTY == 0 || spins >= SPI_TIMEOUT_SPINS),
    {
        rstatus & SPI_DMA_TX_FIFO_EMPTY == 0 || spins >= SPI_TIMEOUT_SPINS
    }

    /// Starts the transfer that is armed.
    pub fn dma_fire(&self) -> (op: RegOp)
        requires
            self.wf(),
        ensures
            op == super::spi::write(self.base, SPI_CMD, SPI_CMD_USR),
    {
        self.reg(SPI_CMD, SPI_CMD_USR)
    }

    /// Arms a transfer of `len` bytes, given whether DMA can reach each chain. One of
    /// nothing is over at once, with no access.
    pub fn start_dma(
        &self,
        tx_chain: u32,
        rx_chain: u32,
        len: usize,
        tx_reachable: bool,
        rx_reachable: bool,
    ) -> (r: Result<Vec<RegOp>, BusError>)
        requires
            self.wf(),
            8 * len <= u32::MAX,
        ensures
            match r {
                Err(e) => len > 0 && !(tx_reachable && rx_reachable) && e is InvalidConfig,
                Ok(ops) => if len == 0 {
                    ops@ == Seq::<RegOp>::empty()
                } else {
                    tx_reachable && rx_reachable && ops@ == arming(
                        self.base,
                        self.cpha,
                        tx_chain,
                        rx_chain,
                        len as int,
                    )
                },
            },
    {
        if len == 0 {
            return Ok(Vec::new());
        }
        if !tx_reachable || !rx_reachable {
            return Err(BusError::InvalidConfig);
        }
        Ok(self.dma_setup_and_fire(tx_chain, rx_chain, len))
    }

    /// Whether a transfer is over, by the slave register and the DMA's raised bits
    /// after `spins` looks in vain: the transaction, the last byte received and the
    /// last byte fetched, which come at different times. One that timed out is to be
    /// halted with [`Esp32Spi::dma_stop`].
    pub fn wait_dma_done(&self, slave: u32, int_raw: u32, spins: u32) -> (p: Poll)
        ensures
            p == super::verdict(landed(slave, int_raw), spins, SPI_TIMEOUT_SPINS),
    {
        let done: bool = slave & SPI_TRANS_DONE != 0;
        let rx_landed: bool = int_raw & SPI_IN_SUC_EOF != 0;
        let tx_drained: bool = int_raw & SPI_OUT_EOF != 0;
        judge(done && rx_landed && tx_drained, spins, SPI_TIMEOUT_SPINS)
    }

    /// Halts both links.
    pub fn dma_stop(&self) -> (ops: Vec<RegOp>)
        requires
            self.wf(),
        ensures
            ops@ == halting(self.base),
    {
        let ops: Vec<RegOp> = vec![
            self.reg(SPI_DMA_OUT_LINK, SPI_OUTLINK_STOP),
            self.reg(SPI_DMA_IN_LINK, SPI_INLINK_STOP),
        ];
        assert(ops@ =~= halting(self.base));
        ops
    }

    /// Lets these flags interrupt.
    pub fn dma_int_enable(&self, mask: u32) -> (op: RegOp)
        requires
            self.wf(),
        ensures
            op == super::spi::write(self.base, SPI_DMA_INT_ENA, mask),
    {
        self.reg(SPI_DMA_INT_ENA, mask)
    }

    /// Acknowledges these flags.
    pub fn dma_int_clear(&self, mask: u32) -> (op: RegOp)
        requires
            self.wf(),
        ensures
            op == super::spi::write(self.base, SPI_DMA_INT_CLR, mask),
    {
        self.reg(SPI_DMA_INT_CLR, mask)
    }

    /// Acknowledges everything that this controller may be interrupting for: the
    /// flags, and the end of a transaction, which shares their line.
    pub fn ack_interrupts(&self) -> (ops: Vec<RegOp>)
        requires
            self.wf(),
        ensures
            ops@ == seq![
                super::spi::write(self.base, SPI_DMA_INT_CLR, u32::MAX),
                super::spi::change(self.base, SPI_SLAVE, SPI_TRANS_DONE, 0),
            ],
    {
        let ops: Vec<RegOp> = vec![
            self.reg(SPI_DMA_INT_CLR, u32::MAX),
            self.change(SPI_SLAVE, SPI_TRANS_DONE, 0),
        ];
        assert(ops@ =~= seq![
            super::spi::write(self.base, SPI_DMA_INT_CLR, u32::MAX),
            super::spi::change(self.base, SPI_SLAVE, SPI_TRANS_DONE, 0),
        ]);
        ops
    }

    /// Where the raised flags are read.
    pub fn dma_int_raw(&self) -> (addr: u32)
        requires
            self.wf(),
        ensures
            addr == self.base + SPI_DMA_INT_RAW,
    {
        self.base + SPI_DMA_INT_RAW
    }
}

} // verus!
