use flint_drivers::esp32::i2c::{
    Esp32I2c, I2C0_BASE, I2C1_BASE, I2C_ACK_ERR, I2C_ARB_LOST, I2C_CMD_ACK_CHECK_EN,
    I2C_CMD_ACK_VALUE_NAK, I2C_CMD_OP_END, I2C_CMD_OP_READ, I2C_CMD_OP_RSTART, I2C_CMD_OP_STOP,
    I2C_CMD_OP_WRITE, I2C_COMD_BASE, I2C_COMD_SLOTS, I2C_CTR, I2C_FIFO_CONF, I2C_FIFO_DATA,
    I2C_INT_ALL, I2C_INT_CLR, I2C_INT_ENA, I2C_INT_RAW, I2C_INT_STATUS, I2C_MAX_BYTES, I2C_MS_MODE,
    I2C_RXFIFO_ST, I2C_RX_FIFO_RST, I2C_SCL_HIGH, I2C_SCL_LOW, I2C_SDA_HOLD, I2C_SDA_SAMPLE_REG,
    I2C_SLAVE_ADDR, I2C_SR, I2C_TIMEOUT_SPINS, I2C_TIME_OUT, I2C_TOUT, I2C_TRANS_COMPLETE,
    I2C_TRANS_START, I2C_TX_FIFO_RST, Wait, i2c_instance, received, route_pins,
};
use flint_drivers::bus::{BusConfig, BusError, I2cConfig, SpiConfig, SpiMode};
use flint_drivers::esp32::RegOp;

fn commands(base: u32, ops: &[RegOp]) -> Vec<(u32, u32)> {
    ops.iter()
        .filter_map(|op| match op {
            RegOp::Write { addr, value } if *addr >= base + I2C_COMD_BASE => {
                Some(((addr - base - I2C_COMD_BASE) / 4, *value))
            }
            _ => None,
        })
        .collect()
}

fn queued(base: u32, ops: &[RegOp]) -> Vec<u32> {
    ops.iter()
        .filter_map(|op| match op {
            RegOp::Write { addr, value } if *addr == base + I2C_FIFO_DATA => Some(*value),
            _ => None,
        })
        .collect()
}

#[test]
fn register_offsets_match_trm_i2c_summary() {
    assert_eq!(I2C_SCL_LOW, 0x00);
    assert_eq!(I2C_CTR, 0x04);
    assert_eq!(I2C_SR, 0x08);
    assert_eq!(I2C_TOUT, 0x0C);
    assert_eq!(I2C_SLAVE_ADDR, 0x10);
    assert_eq!(I2C_RXFIFO_ST, 0x14);
    assert_eq!(I2C_FIFO_CONF, 0x18);
    assert_eq!(I2C_FIFO_DATA, 0x1C);
    assert_eq!(I2C_INT_RAW, 0x20);
    assert_eq!(I2C_INT_CLR, 0x24);
    assert_eq!(I2C_INT_ENA, 0x28);
    assert_eq!(I2C_INT_STATUS, 0x2C);
    assert_eq!(I2C_SDA_HOLD, 0x30);
    assert_eq!(I2C_SDA_SAMPLE_REG, 0x34);
    assert_eq!(I2C_SCL_HIGH, 0x38);
    assert_eq!(I2C_COMD_BASE, 0x58);
}

#[test]
fn command_slots_cover_the_documented_range() {
    let last = I2C_COMD_BASE + (I2C_COMD_SLOTS as u32 - 1) * 4;
    assert_eq!(last, 0x94);
}

#[test]
fn opcode_values_are_zero_based() {
    assert_eq!(I2C_CMD_OP_RSTART, 0 << 11);
    assert_eq!(I2C_CMD_OP_WRITE, 1 << 11);
    assert_eq!(I2C_CMD_OP_READ, 2 << 11);
    assert_eq!(I2C_CMD_OP_STOP, 3 << 11);
    assert_eq!(I2C_CMD_OP_END, 4 << 11);
}

#[test]
fn rstart_carries_no_address_payload() {
    let addr: u32 = 0x50;
    let corrupted_pattern = I2C_CMD_OP_RSTART | (addr << 1);
    assert_ne!(I2C_CMD_OP_RSTART, corrupted_pattern);
    assert_eq!(I2C_CMD_OP_RSTART, 0);
}

#[test]
fn trans_complete_bit_is_7_not_0() {
    assert_eq!(I2C_TRANS_COMPLETE, 1 << 7);
    assert_ne!(I2C_TRANS_COMPLETE, 1);
}

#[test]
fn ms_mode_bit_is_4_not_1() {
    assert_eq!(I2C_MS_MODE, 1 << 4);
    assert_ne!(I2C_MS_MODE, 1 << 1);
}

#[test]
fn byte_count_is_bounded_to_fit_the_command_register_file() {
    assert_eq!(I2C_MAX_BYTES, 13);
}

#[test]
fn i2c_base_addresses_are_distinct_register_blocks() {
    assert_eq!(I2C0_BASE, 0x3FF5_3000);
    assert_eq!(I2C1_BASE, 0x3FF6_7000);
    assert_ne!(I2C1_BASE - I2C0_BASE, 0x20);
}

#[test]
fn sda_and_scl_may_not_share_a_pad() {
    assert!(route_pins(21, 21, Ok(()), Ok(())).is_err());
}

#[test]
fn unroutable_pads_are_rejected() {
    let refused = Err(BusError::InvalidConfig);
    assert!(route_pins(28, 22, refused, Ok(())).is_err());
    assert!(route_pins(21, 34, Ok(()), refused).is_err());
    assert!(route_pins(21, 22, refused, refused).is_err());
}

#[test]
fn the_interrupt_bits_are_espressifs() {
    assert_eq!(I2C_TRANS_COMPLETE, 1 << 7);
    assert_eq!(I2C_ACK_ERR, 1 << 10);
    assert_eq!(I2C_TIME_OUT, 1 << 8);
    assert_eq!(I2C_ARB_LOST, 1 << 5);
}

#[test]
fn tx_fifo_reset_is_the_higher_bit() {
    assert_eq!(I2C_TX_FIFO_RST, 1 << 13);
    assert_eq!(I2C_RX_FIFO_RST, 1 << 12);
    assert!(I2C_TX_FIFO_RST > I2C_RX_FIFO_RST);
}

#[test]
fn the_status_bits_being_cleared_do_not_overlap() {
    let all = [I2C_TRANS_COMPLETE, I2C_ACK_ERR, I2C_TIME_OUT, I2C_ARB_LOST];
    for (i, a) in all.iter().enumerate() {
        for b in &all[i + 1..] {
            assert_eq!(a & b, 0);
        }
    }
    assert_eq!(I2C_INT_ALL, all.iter().fold(0, |acc, b| acc | b));
}

#[test]
fn a_write_command_asks_the_controller_to_check_the_ack() {
    let cmd = I2C_CMD_OP_WRITE | I2C_CMD_ACK_CHECK_EN | 1;
    assert_eq!(cmd & 0xFF, 1, "byte_num");
    assert_ne!(cmd & I2C_CMD_ACK_CHECK_EN, 0, "ack_check_en must be set");
    assert_eq!(cmd >> 11 & 0x7, 1, "op_code WRITE");
}

#[test]
fn the_command_word_fields_do_not_overlap() {
    assert_eq!(I2C_CMD_ACK_CHECK_EN, 1 << 8);
    assert_eq!(I2C_CMD_ACK_VALUE_NAK, 1 << 10);
    assert_eq!(I2C_CMD_ACK_CHECK_EN & I2C_CMD_ACK_VALUE_NAK, 0);
    assert_eq!(I2C_CMD_ACK_CHECK_EN & 0xFF, 0, "must not collide with byte_num");
    for op in [I2C_CMD_OP_RSTART, I2C_CMD_OP_WRITE, I2C_CMD_OP_READ, I2C_CMD_OP_STOP] {
        assert_eq!(op & 0x7FF, 0, "op_code must sit above the ack bits");
    }
}

#[test]
fn a_write_is_a_start_the_address_the_bytes_and_a_stop() {
    let i2c = Esp32I2c::new(I2C0_BASE);
    let ops = i2c.write(0x76, &[0xF4, 0x27]).unwrap();
    let send = I2C_CMD_OP_WRITE | I2C_CMD_ACK_CHECK_EN | 1;
    assert_eq!(
        commands(I2C0_BASE, &ops),
        vec![
            (0, I2C_CMD_OP_RSTART),
            (1, send),
            (2, send),
            (3, send),
            (4, I2C_CMD_OP_STOP),
        ]
    );
    assert_eq!(queued(I2C0_BASE, &ops), vec![0xEC, 0xF4, 0x27]);
    assert_eq!(
        ops[ops.len() - 1],
        RegOp::Update { addr: I2C0_BASE + I2C_CTR, clear: 0, set: I2C_TRANS_START }
    );
}

#[test]
fn the_last_byte_of_a_read_is_refused() {
    let i2c = Esp32I2c::new(I2C1_BASE);
    let ops = i2c.read(0x76, 2).unwrap();
    assert_eq!(
        commands(I2C1_BASE, &ops),
        vec![
            (0, I2C_CMD_OP_RSTART),
            (1, I2C_CMD_OP_WRITE | I2C_CMD_ACK_CHECK_EN | 1),
            (2, I2C_CMD_OP_READ | 1),
            (3, I2C_CMD_OP_READ | 1 | I2C_CMD_ACK_VALUE_NAK),
            (4, I2C_CMD_OP_STOP),
        ]
    );
    assert_eq!(queued(I2C1_BASE, &ops), vec![0xED]);
}

#[test]
fn a_transfer_beyond_the_command_registers_is_refused() {
    let i2c = Esp32I2c::new(I2C0_BASE);
    assert!(i2c.write(1, &[0; 13]).is_ok());
    assert_eq!(i2c.write(1, &[0; 14]).unwrap_err(), BusError::InvalidConfig);
    assert!(i2c.read(1, 13).is_ok());
    assert_eq!(i2c.read(1, 14).unwrap_err(), BusError::InvalidConfig);
    assert_eq!(i2c.read(1, 0).unwrap(), vec![]);
}

#[test]
fn every_failure_rebuilds_the_controller() {
    let i2c = Esp32I2c { base: I2C0_BASE, half: 400 };
    for (raw, spins, want) in [
        (I2C_ACK_ERR | I2C_TRANS_COMPLETE, 0, BusError::DeviceNotResponding),
        (I2C_TIME_OUT, 0, BusError::Timeout),
        (I2C_ARB_LOST, 0, BusError::Busy),
        (0, I2C_TIMEOUT_SPINS, BusError::Timeout),
    ] {
        match i2c.wait_done(raw, spins) {
            Wait::Over { result, ops } => {
                assert_eq!(result, Err(want));
                assert_eq!(ops, i2c.recover());
            }
            Wait::Again => panic!("a failure ends the wait"),
        }
    }
}

#[test]
fn a_transfer_without_a_failure_is_waited_for_and_acknowledged() {
    let i2c = Esp32I2c::new(I2C0_BASE);
    assert!(matches!(i2c.wait_done(0, 0), Wait::Again));
    match i2c.wait_done(I2C_TRANS_COMPLETE, 5) {
        Wait::Over { result, ops } => {
            assert_eq!(result, Ok(()));
            assert_eq!(ops, vec![RegOp::Write { addr: I2C0_BASE + I2C_INT_CLR, value: I2C_INT_ALL }]);
        }
        Wait::Again => panic!("completion ends the wait"),
    }
}

#[test]
fn rebuilding_clears_the_commands_and_cycles_the_clock() {
    let i2c = Esp32I2c { base: I2C0_BASE, half: 400 };
    let ops = i2c.recover();
    for slot in 0..16 {
        assert_eq!(ops[slot], RegOp::Write { addr: I2C0_BASE + I2C_COMD_BASE + 4 * slot as u32, value: 0 });
    }
    assert_eq!(ops[16], RegOp::Gate { base: I2C0_BASE, on: false });
    assert_eq!(ops[17], RegOp::Gate { base: I2C0_BASE, on: true });
    assert_eq!(ops[18..], i2c.program()[..]);
}

#[test]
fn a_clock_is_halved_and_never_too_fast() {
    let mut i2c = Esp32I2c::new(I2C0_BASE);
    let ops = i2c.set_clock(100_000);
    assert_eq!(i2c.half, 400);
    assert!(ops.contains(&RegOp::Write { addr: I2C0_BASE + I2C_SCL_LOW, value: 400 }));
    assert!(ops.contains(&RegOp::Write { addr: I2C0_BASE + I2C_SDA_HOLD, value: 200 }));
    i2c.set_clock(80_000_000);
    assert_eq!(i2c.half, 10);
}

#[test]
fn an_exchange_addresses_writes_and_reads() {
    let i2c = Esp32I2c::new(I2C0_BASE);
    assert_eq!(i2c.exchange(&[], 4).result, Err(BusError::InvalidConfig));
    let scan = i2c.exchange(&[0x50], 0);
    assert_eq!(scan.stages.len(), 1);
    assert_eq!(queued(I2C0_BASE, &scan.stages[0].ops), vec![0xA0]);
    let read = i2c.exchange(&[0x50], 3);
    assert_eq!(read.stages.len(), 1);
    assert_eq!(read.stages[0].fetch, 3);
    let both = i2c.exchange(&[0x50, 7], 3);
    assert_eq!(both.stages.len(), 2);
    assert_eq!((both.stages[0].fetch, both.stages[1].fetch), (0, 3));
    let too_long = i2c.exchange(&[0x50, 7], 14);
    assert_eq!(too_long.stages.len(), 1);
    assert_eq!(too_long.result, Err(BusError::InvalidConfig));
}

#[test]
fn received_bytes_are_the_low_ends_of_the_words() {
    let mut buf = [0u8; 2];
    received(&[0xFFFF_FF12, 0x34], &mut buf);
    assert_eq!(buf, [0x12, 0x34]);
}

#[test]
fn only_an_i2c_configuration_brings_an_i2c_controller_up() {
    let cfg = BusConfig::I2c(I2cConfig { sda: 21, scl: 22, hz: 400_000 });
    let spi = BusConfig::Spi(SpiConfig { mosi: 1, miso: 2, sck: 3, max_hz: 1, mode: SpiMode::Mode0 });
    let i2c = Esp32I2c::new(I2C0_BASE);
    let a = i2c.init(&cfg, Ok(()), Ok(()));
    assert!(a.clock && a.result.is_ok());
    let a = i2c.init(&cfg, Ok(()), Err(BusError::InvalidConfig));
    assert!(a.clock && a.result.is_err());
    let a = i2c.init(&spi, Ok(()), Ok(()));
    assert!(!a.clock && a.result.is_err());
    let a = Esp32I2c::new(0xDEAD_BEEF).init(&cfg, Ok(()), Ok(()));
    assert!(!a.clock && a.result.is_err());
    assert_eq!(i2c_instance(I2C1_BASE), Some(1));
}
