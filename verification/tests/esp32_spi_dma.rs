use flint_drivers::esp32::spi_dma::{
    SPI_AHBM_FIFO_RST, SPI_AHBM_RST, SPI_DMA_CONF, SPI_DMA_INT_CLR, SPI_DMA_INT_ENA,
    SPI_DMA_INT_RAW, SPI_DMA_IN_LINK, SPI_DMA_OUT_LINK, SPI_DMA_TX_FIFO_EMPTY, SPI_IN_RST,
    SPI_IN_SUC_EOF, SPI_OUTLINK_START, SPI_OUTLINK_STOP, SPI_OUT_EOF, SPI_OUT_RST, link_addr,
};
use flint_drivers::bus::BusError;
use flint_drivers::esp32::spi::{
    Esp32Spi, SPI2_BASE, SPI_CMD, SPI_CMD_USR, SPI_SLAVE, SPI_TIMEOUT_SPINS, SPI_TRANS_DONE,
};
use flint_drivers::esp32::{Poll, RegOp};

#[test]
fn the_register_offsets_match_spi_reg_h() {
    assert_eq!(SPI_DMA_CONF, 0x100);
    assert_eq!(SPI_DMA_OUT_LINK, 0x104);
    assert_eq!(SPI_DMA_IN_LINK, 0x108);
    assert_eq!(SPI_DMA_INT_ENA, 0x110);
    assert_eq!(SPI_DMA_INT_RAW, 0x114);
    assert_eq!(SPI_DMA_INT_CLR, 0x11C);
}

#[test]
fn the_start_bit_does_not_collide_with_the_address_field() {
    let head = 0x3FFD_9000;
    let programmed = link_addr(head) | SPI_OUTLINK_START;
    assert_eq!(programmed & 0x000F_FFFF, 0xD9000, "address was corrupted");
    assert_eq!(programmed & SPI_OUTLINK_START, SPI_OUTLINK_START);
    assert_eq!(programmed & SPI_OUTLINK_STOP, 0, "stop got set as well");
}

#[test]
fn the_reset_bits_are_the_four_the_header_names() {
    assert_eq!(SPI_IN_RST, 1 << 2);
    assert_eq!(SPI_OUT_RST, 1 << 3);
    assert_eq!(SPI_AHBM_FIFO_RST, 1 << 4);
    assert_eq!(SPI_AHBM_RST, 1 << 5);
}

#[test]
fn the_eof_flags_are_where_the_header_says() {
    assert_eq!(SPI_IN_SUC_EOF, 1 << 5);
    assert_eq!(SPI_OUT_EOF, 1 << 7);
}

#[test]
fn a_transfer_is_armed_with_its_links_down_first() {
    let spi = Esp32Spi::new(SPI2_BASE);
    let ops = spi.start_dma(0x3FFD_9000, 0x3FFD_A000, 100, true, true).unwrap();
    assert_eq!(ops.len(), 14);
    assert_eq!(ops[0], RegOp::Write { addr: SPI2_BASE + SPI_DMA_IN_LINK, value: 0 });
    assert_eq!(
        ops[11],
        RegOp::Write { addr: SPI2_BASE + SPI_DMA_OUT_LINK, value: 0x000D_9000 | (1 << 29) }
    );
    assert_eq!(
        ops[12],
        RegOp::Write { addr: SPI2_BASE + SPI_DMA_IN_LINK, value: 0x000D_A000 | (1 << 20) | (1 << 29) }
    );
    assert_eq!(spi.dma_fire(), RegOp::Write { addr: SPI2_BASE + SPI_CMD, value: SPI_CMD_USR });
}

#[test]
fn a_chain_out_of_reach_is_refused_and_nothing_is_over_at_once() {
    let spi = Esp32Spi::new(SPI2_BASE);
    assert_eq!(spi.start_dma(0, 0, 4, false, true).unwrap_err(), BusError::InvalidConfig);
    assert_eq!(spi.start_dma(0, 0, 4, true, false).unwrap_err(), BusError::InvalidConfig);
    assert_eq!(spi.start_dma(0, 0, 0, false, false).unwrap(), vec![]);
}

#[test]
fn a_transfer_is_over_only_when_both_chains_are() {
    let spi = Esp32Spi::new(SPI2_BASE);
    let all = SPI_IN_SUC_EOF | SPI_OUT_EOF;
    assert_eq!(spi.wait_dma_done(SPI_TRANS_DONE, all, 0), Poll::Done);
    assert_eq!(spi.wait_dma_done(0, all, 0), Poll::Again);
    assert_eq!(spi.wait_dma_done(SPI_TRANS_DONE, SPI_IN_SUC_EOF, 0), Poll::Again);
    assert_eq!(spi.wait_dma_done(SPI_TRANS_DONE, SPI_OUT_EOF, SPI_TIMEOUT_SPINS), Poll::TimedOut);
    assert!(spi.dma_primed(0, 0));
    assert!(!spi.dma_primed(SPI_DMA_TX_FIFO_EMPTY, 0));
    assert!(spi.dma_primed(SPI_DMA_TX_FIFO_EMPTY, SPI_TIMEOUT_SPINS));
}

#[test]
fn stopping_and_acknowledging_reach_both_sides() {
    let spi = Esp32Spi::new(SPI2_BASE);
    assert_eq!(
        spi.dma_stop(),
        vec![
            RegOp::Write { addr: SPI2_BASE + SPI_DMA_OUT_LINK, value: SPI_OUTLINK_STOP },
            RegOp::Write { addr: SPI2_BASE + SPI_DMA_IN_LINK, value: SPI_OUTLINK_STOP },
        ]
    );
    assert_eq!(
        spi.ack_interrupts(),
        vec![
            RegOp::Write { addr: SPI2_BASE + SPI_DMA_INT_CLR, value: u32::MAX },
            RegOp::Update { addr: SPI2_BASE + SPI_SLAVE, clear: SPI_TRANS_DONE, set: 0 },
        ]
    );
    assert_eq!(spi.dma_int_raw(), SPI2_BASE + SPI_DMA_INT_RAW);
}
