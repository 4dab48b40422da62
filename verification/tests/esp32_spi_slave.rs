use flint_drivers::esp32::spi_slave::{
    Esp32SpiSlave, SPI_SLAVE_MODE, SPI_SLV_RDBUF_DLEN, SPI_SLV_WRBUF_DLEN, SPI_WR_RD_BUF_EN,
    slave_mode_timing,
};
use flint_drivers::bus::{BusError, SpiMode};
use flint_drivers::esp32::spi::{
    SPI1_BASE, SPI2_BASE, SPI_CK_I_EDGE, SPI_CK_OUT_EDGE, SPI_SYNC_RESET, SPI_TIMEOUT_SPINS,
    SPI_TRANS_DONE, SPI_USER, SPI_W0,
};
use flint_drivers::esp32::{Poll, RegOp};

#[test]
fn slave_reg_bits_match_the_struct() {
    assert_eq!(SPI_SLAVE_MODE, 1 << 30);
    assert_eq!(SPI_WR_RD_BUF_EN, 1 << 29);
    assert_eq!(SPI_SYNC_RESET, 1 << 31);
    assert_eq!(SPI_TRANS_DONE, 1 << 4);
}

#[test]
fn slave_length_registers_are_where_the_reg_header_says() {
    assert_eq!(SPI_SLV_WRBUF_DLEN, 0x48);
    assert_eq!(SPI_SLV_RDBUF_DLEN, 0x4C);
}

#[test]
fn ck_i_edge_is_bit_6_not_the_master_out_edge() {
    assert_eq!(SPI_CK_I_EDGE, 1 << 6);
    assert_eq!(SPI_CK_OUT_EDGE, 1 << 7);
}

#[test]
fn mode0_timing_matches_esp_idf_no_dma() {
    let (ck_idle, ck_i, ctrl2) = slave_mode_timing(SpiMode::Mode0);
    assert!(ck_idle);
    assert!(!ck_i);
    assert_eq!(ctrl2, (2 << 21) | (2 << 23));
    assert_eq!(ctrl2, 0x0140_0000);
}

#[test]
fn every_mode_packs_its_delay_fields_inside_ctrl2() {
    for mode in [SpiMode::Mode0, SpiMode::Mode1, SpiMode::Mode2, SpiMode::Mode3] {
        let (_, _, ctrl2) = slave_mode_timing(mode);
        assert_eq!(ctrl2 & !0x03FF_0000, 0, "{mode:?} set a bit outside the delay fields");
    }
}

#[test]
fn modes_disagree_on_the_clock_edges() {
    let edges = |m| {
        let (idle, i, _) = slave_mode_timing(m);
        (idle, i)
    };
    assert_eq!(edges(SpiMode::Mode0), (true, false));
    assert_eq!(edges(SpiMode::Mode1), (true, true));
    assert_eq!(edges(SpiMode::Mode2), (false, true));
    assert_eq!(edges(SpiMode::Mode3), (false, false));
}

#[test]
fn a_slave_is_made_only_of_a_general_purpose_controller() {
    assert_eq!(Esp32SpiSlave::new(SPI1_BASE).init(SpiMode::Mode0).unwrap_err(), BusError::InvalidConfig);
    let mut slave = Esp32SpiSlave::new(SPI2_BASE);
    let ops = slave.init(SpiMode::Mode1).unwrap();
    assert!(slave.ck_i_edge);
    assert!(ops.contains(&RegOp::Update { addr: SPI2_BASE + SPI_USER, clear: 0, set: SPI_CK_I_EDGE }));
    let ops = slave.init(SpiMode::Mode0).unwrap();
    assert!(!slave.ck_i_edge);
    assert!(!ops.contains(&RegOp::Update { addr: SPI2_BASE + SPI_USER, clear: 0, set: SPI_CK_I_EDGE }));
}

#[test]
fn arming_preloads_no_more_than_there_is() {
    let slave = Esp32SpiSlave::new(SPI2_BASE);
    let ops = slave.arm(&[9, 8, 7], 64);
    assert!(ops.contains(&RegOp::Write { addr: SPI2_BASE + SPI_W0, value: 0x0007_0809 }));
    assert!(ops.contains(&RegOp::Write { addr: SPI2_BASE + SPI_SLV_RDBUF_DLEN, value: 23 }));
    let ops = slave.arm(&[1; 100], 100);
    assert!(ops.contains(&RegOp::Write { addr: SPI2_BASE + SPI_SLV_WRBUF_DLEN, value: 511 }));
}

#[test]
fn a_slaves_reply_is_what_the_master_sent() {
    let slave = Esp32SpiSlave::new(SPI2_BASE);
    let mut rx = [0u8; 3];
    assert_eq!(slave.reply_words(8, 3), 1);
    slave.complete(&[0xDDCC_BBAA], &mut rx, 8);
    assert_eq!(rx, [0xAA, 0xBB, 0xCC]);
    assert_eq!(slave.finished(SPI_TRANS_DONE, 0), Poll::Done);
    assert_eq!(slave.finished(0, SPI_TIMEOUT_SPINS), Poll::TimedOut);
    assert_eq!(slave.finished(0, 0), Poll::Again);
}
