use flint_drivers::esp32::i2s::{
    CLKM_CLK_EN, CLKM_CONF, CLKM_CONF_INT_DIV8, CONF, CONF2, CONF_CHAN, CONF_RX_SLAVE_MOD,
    CONF_RX_START, CONF_SIG_LOOPBACK, CONF_TX_MSB_SHIFT, CONF_TX_START, FIFO_CONF, FIFO_DSCR_EN,
    FIFO_RX_MOD_FORCE_EN, FIFO_TX_MOD_FORCE_EN, I2sError, I2sLoopback, INT_CLR, INT_IN_SUC_EOF, INT_RAW,
    IN_EOF_DES_ADDR, IN_LINK, LC_AHBM_FIFO_RST, LC_AHBM_RST, LC_CONF, LC_IN_RST, LC_OUT_RST,
    LINK_START, LINK_STOP, OUT_LINK, RXEOF_NUM, RX_BCK_DIV_SHIFT, RX_BITS_MOD_SHIFT,
    SAMPLE_RATE_16BIT_BCK8, SAMPLE_RATE_CONF, TX_BITS_MOD_SHIFT,
};
use flint_drivers::bus::BusError;
use flint_drivers::esp32::RegOp;

fn controller() -> I2sLoopback {
    I2sLoopback {}
}

#[test]
fn register_addresses_match_i2s_reg_h() {
    assert_eq!(CONF, 0x3FF4_F008);
    assert_eq!(INT_RAW, 0x3FF4_F00C);
    assert_eq!(FIFO_CONF, 0x3FF4_F020);
    assert_eq!(RXEOF_NUM, 0x3FF4_F024);
    assert_eq!(CONF_CHAN, 0x3FF4_F02C);
    assert_eq!(OUT_LINK, 0x3FF4_F030);
    assert_eq!(IN_LINK, 0x3FF4_F034);
    assert_eq!(IN_EOF_DES_ADDR, 0x3FF4_F03C);
    assert_eq!(LC_CONF, 0x3FF4_F060);
    assert_eq!(CONF2, 0x3FF4_F0A8);
    assert_eq!(CLKM_CONF, 0x3FF4_F0AC);
    assert_eq!(SAMPLE_RATE_CONF, 0x3FF4_F0B0);
}

#[test]
fn the_conf_bits_are_where_the_struct_orders_them() {
    assert_eq!(CONF_TX_START, 1 << 4);
    assert_eq!(CONF_RX_START, 1 << 5);
    assert_eq!(CONF_RX_SLAVE_MOD, 1 << 7);
    assert_eq!(CONF_TX_MSB_SHIFT, 1 << 10);
    assert_eq!(CONF_SIG_LOOPBACK, 1 << 18);
    assert_eq!(CONF_SIG_LOOPBACK & (CONF_TX_START | CONF_RX_SLAVE_MOD), 0);
}

#[test]
fn the_rx_done_flag_is_bit_nine() {
    assert_eq!(INT_IN_SUC_EOF, 1 << 9);
}

#[test]
fn the_clock_and_sample_fields_encode_16bit_by_8() {
    assert_eq!(CLKM_CLK_EN, 1 << 20);
    assert_eq!(CLKM_CONF_INT_DIV8 & CLKM_CLK_EN, CLKM_CLK_EN);
    assert_eq!(CLKM_CONF_INT_DIV8 & 0xFF, 8);
    assert_eq!((CLKM_CONF_INT_DIV8 >> 14) & 0x3F, 1);
    assert_eq!((CLKM_CONF_INT_DIV8 >> 8) & 0x3F, 0, "div_b must be zero for integer divide");
    assert_eq!(SAMPLE_RATE_16BIT_BCK8 & 0x3F, 8);
    assert_eq!((SAMPLE_RATE_16BIT_BCK8 >> RX_BCK_DIV_SHIFT) & 0x3F, 8);
    assert_eq!((SAMPLE_RATE_16BIT_BCK8 >> TX_BITS_MOD_SHIFT) & 0x3F, 16);
    assert_eq!((SAMPLE_RATE_16BIT_BCK8 >> RX_BITS_MOD_SHIFT) & 0x3F, 16);
}

#[test]
fn dma_is_enabled_and_the_link_start_bit_is_twenty_nine() {
    assert_eq!(FIFO_DSCR_EN, 1 << 12);
    assert_eq!(FIFO_TX_MOD_FORCE_EN, 1 << 19);
    assert_eq!(FIFO_RX_MOD_FORCE_EN, 1 << 20);
    assert_eq!(LINK_START, 1 << 29);
    assert_eq!(LINK_STOP, 1 << 28);
    assert_eq!(LINK_STOP & LINK_START, 0);
    assert_eq!(0x000F_FFFFu32 & (LINK_START | LINK_STOP), 0);
}

#[test]
fn the_dma_reset_bits_are_the_low_four_of_lc_conf() {
    assert_eq!(LC_IN_RST, 1 << 0);
    assert_eq!(LC_OUT_RST, 1 << 1);
    assert_eq!(LC_AHBM_FIFO_RST, 1 << 2);
    assert_eq!(LC_AHBM_RST, 1 << 3);
}

#[test]
fn memory_that_does_not_split_evenly_is_refused() {
    let i2s = controller();
    assert_eq!(i2s.start_stream(64, 64, 0).unwrap_err(), I2sError::BadGeometry);
    assert_eq!(i2s.start_stream(64, 60, 4).unwrap_err(), I2sError::BadGeometry);
    assert_eq!(i2s.start_stream(64, 64, 3).unwrap_err(), I2sError::BadGeometry);
    assert_eq!(i2s.start_stream(24, 24, 4).unwrap_err(), I2sError::BadGeometry);
    assert_eq!(i2s.start_stream(0, 0, 4).unwrap_err(), I2sError::BadGeometry);
    let s = i2s.start_stream(64, 64, 4).unwrap();
    assert_eq!((s.count, s.chunk, s.serviced()), (4, 16, 0));
}

#[test]
fn a_streams_buffers_follow_each_other() {
    let mut s = controller().start_stream(32, 32, 4).unwrap();
    let rx: Vec<u8> = (0..32).collect();
    assert_eq!(s.bounds(0), (0, 8));
    assert_eq!(s.bounds(3), (24, 32));
    assert_eq!(s.rx_buffer(&rx, 2), &rx[16..24]);
    let mut tx = [0u8; 32];
    s.tx_buffer_mut(&mut tx, 1).fill(9);
    assert_eq!(tx[..8], [0; 8]);
    assert_eq!(tx[8..16], [9; 8]);
    assert_eq!(tx[16..], [0; 16]);
    let (idx, op) = s.wait(6);
    assert_eq!(idx, 2);
    assert_eq!(op, RegOp::Write { addr: INT_CLR, value: INT_IN_SUC_EOF });
    assert_eq!(s.serviced(), 1);
}

#[test]
fn the_receiver_is_armed_before_the_sender() {
    let ops = controller().loopback(0x3FFD_9000, 0x3FFD_A000, 64);
    assert_eq!(ops[4], RegOp::Write { addr: RXEOF_NUM, value: 16 });
    assert_eq!(ops[6], RegOp::Write { addr: IN_LINK, value: 0x000D_A000 | LINK_START });
    assert_eq!(ops[7], RegOp::Update { addr: CONF, clear: 0, set: CONF_RX_START });
    assert_eq!(ops[8], RegOp::Write { addr: OUT_LINK, value: 0x000D_9000 | LINK_START });
    assert_eq!(ops[9], RegOp::Update { addr: CONF, clear: 0, set: CONF_TX_START });
    let s = controller().start_stream(64, 64, 4).unwrap();
    assert_eq!(s.start(0, 0)[4], RegOp::Write { addr: RXEOF_NUM, value: 4 });
}

#[test]
fn a_stopped_stream_leaves_nothing_running() {
    let s = controller().start_stream(64, 64, 4).unwrap();
    let mut conf = CONF_TX_START | CONF_RX_START | CONF_SIG_LOOPBACK;
    for op in s.stop() {
        if let RegOp::Update { addr: CONF, clear, set } = op {
            conf = (conf & !clear) | set;
        }
    }
    assert_eq!(conf, CONF_SIG_LOOPBACK);
    assert!(!controller().is_running(conf));
    assert!(controller().is_running(CONF_RX_START));
    assert!(controller().eof_pending(INT_IN_SUC_EOF));
    assert!(!controller().eof_pending(0));
}

#[test]
fn an_unroutable_data_pad_is_refused() {
    assert!(I2sLoopback::new(Ok(()), Ok(())).result.is_ok());
    assert!(I2sLoopback::new(Err(BusError::InvalidConfig), Ok(())).result.is_err());
    assert!(I2sLoopback::new(Ok(()), Err(BusError::InvalidConfig)).result.is_err());
    assert_eq!(I2sLoopback::configure().len(), 10);
}
