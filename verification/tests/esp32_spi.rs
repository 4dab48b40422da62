use flint_drivers::esp32::spi::{
    Chunk, DmaSlot, Esp32Spi, Exchange, SPI1_BASE, SPI2_BASE, SPI3_BASE, SPI_ADDR, SPI_CK_OUT_EDGE,
    SPI_CLOCK, SPI_CMD, SPI_CMD_USR, SPI_CS_HOLD, SPI_CS_SETUP, SPI_CTRL, SPI_CTRL1, SPI_CTRL2,
    SPI_DOUTDIN, SPI_MAX_BYTES, SPI_MISO_DLEN, SPI_MOSI_DLEN, SPI_PIN, SPI_RD_STATUS, SPI_SLAVE,
    SPI_TIMEOUT_SPINS, SPI_USER, SPI_USER1, SPI_USER2, SPI_USR_MISO, SPI_USR_MOSI, SPI_W0, SpiCtrl,
    claim_index, dma_slot, fifo_done, pack_word, route_pins, spi_clock_reg, spi_instance, unload,
    unpack_word, word_count,
};
use flint_drivers::bus::{BusConfig, BusError, I2cConfig, SpiConfig, SpiMode};
use flint_drivers::esp32::claims::Claims;
use flint_drivers::esp32::{Poll, RegOp};

fn decode_clock(reg: u32) -> Option<(u32, u32, u32, u32)> {
    if reg & (1 << 31) != 0 {
        return None;
    }
    let pre = ((reg >> 18) & 0x1FFF) + 1;
    let n = ((reg >> 12) & 0x3F) + 1;
    let h = ((reg >> 6) & 0x3F) + 1;
    let l = (reg & 0x3F) + 1;
    Some((pre, n, h, l))
}

#[test]
fn clock_divider_matches_esp_idf_known_good_values() {
    assert_eq!(spi_clock_reg(80_000_000, 4_000_000), 0x0001_3253);
    assert_eq!(decode_clock(spi_clock_reg(80_000_000, 40_000_000)), Some((1, 2, 1, 2)));
}

#[test]
fn a_1mhz_clock_is_consistent_not_the_buggy_register() {
    let reg = spi_clock_reg(80_000_000, 1_000_000);
    assert_ne!(reg, 0x0000_f9cf);
    let (pre, n, h, l) = decode_clock(reg).expect("not equ_sysclk at 1 MHz");
    assert_eq!(80_000_000 / (pre * n), 1_000_000);
    assert!(h <= n, "high phase {h} exceeds the period {n}");
    assert_eq!(l, n, "low phase must span the whole low half");
}

#[test]
fn the_divider_reaches_low_frequencies_within_tolerance() {
    for &hz in &[8_000_000, 2_000_000, 1_000_000, 500_000, 100_000, 40_000] {
        let (pre, n, h, l) = decode_clock(spi_clock_reg(80_000_000, hz)).unwrap();
        let eff = 80_000_000 / (pre * n);
        assert!(eff.abs_diff(hz) * 100 <= hz * 5, "{hz} Hz off by too much: {eff}");
        assert!(h <= n && l == n, "inconsistent phase counters at {hz} Hz");
    }
}

#[test]
fn above_three_quarters_apb_uses_the_system_clock_directly() {
    assert_eq!(spi_clock_reg(80_000_000, 80_000_000), 1 << 31);
    assert!(decode_clock(spi_clock_reg(80_000_000, 80_000_000)).is_none());
}

#[test]
fn register_offsets_match_trm_spi_summary() {
    assert_eq!(SPI_CMD, 0x00);
    assert_eq!(SPI_ADDR, 0x04);
    assert_eq!(SPI_CTRL, 0x08);
    assert_eq!(SPI_CTRL1, 0x0C);
    assert_eq!(SPI_RD_STATUS, 0x10);
    assert_eq!(SPI_CTRL2, 0x14);
    assert_eq!(SPI_CLOCK, 0x18);
    assert_eq!(SPI_USER, 0x1C);
    assert_eq!(SPI_USER1, 0x20);
    assert_eq!(SPI_USER2, 0x24);
    assert_eq!(SPI_MOSI_DLEN, 0x28);
    assert_eq!(SPI_MISO_DLEN, 0x2C);
    assert_eq!(SPI_PIN, 0x34);
    assert_eq!(SPI_SLAVE, 0x38);
    assert_eq!(SPI_W0, 0x80);
}

#[test]
fn usr_start_bit_is_18_not_0() {
    assert_eq!(SPI_CMD_USR, 1 << 18);
    assert_ne!(SPI_CMD_USR, 1);
}

#[test]
fn pack_and_unpack_round_trip_four_bytes_per_word() {
    let bytes = [0xDE, 0xAD, 0xBE, 0xEF];
    let word = pack_word(&bytes);
    assert_eq!(word, 0xEFBE_ADDE);
    let mut out = [0u8; 4];
    unpack_word(word, &mut out);
    assert_eq!(out, bytes);
}

#[test]
fn pack_handles_partial_final_word() {
    let bytes = [0x01, 0x02];
    let word = pack_word(&bytes);
    assert_eq!(word, 0x0000_0201);
}

#[test]
fn spi1_is_not_addressable_as_a_general_purpose_controller() {
    assert_eq!(spi_instance(SPI1_BASE), None);
}

#[test]
fn a_bus_may_not_reuse_one_pad_for_two_signals() {
    let ok = (Ok(()), Ok(()), Ok(()));
    assert!(route_pins(23, 23, 18, ok).is_err());
    assert!(route_pins(23, 19, 19, ok).is_err());
}

#[test]
fn mosi_and_sck_cannot_land_on_input_only_pads() {
    let refused = Err(BusError::InvalidConfig);
    assert!(route_pins(34, 19, 18, (refused, Ok(()), Ok(()))).is_err());
    assert!(route_pins(23, 19, 35, (Ok(()), Ok(()), refused)).is_err());
    assert!(route_pins(23, 34, 18, (Ok(()), Ok(()), Ok(()))).is_ok());
}

#[test]
fn transfer_length_is_capped_at_the_data_buffer_size() {
    assert_eq!(SPI_MAX_BYTES, 64);
}

#[test]
fn a_transfer_through_the_buffer_packs_its_bytes_and_starts() {
    let mut spi = Esp32Spi::new(SPI2_BASE);
    spi.configure(1_000_000, SpiMode::Mode1);
    let ops = spi.fifo_exchange(&[1, 2, 3, 4, 5], 8).unwrap();
    assert_eq!(
        ops,
        vec![
            RegOp::Write { addr: SPI2_BASE + SPI_W0, value: 0x0403_0201 },
            RegOp::Write { addr: SPI2_BASE + SPI_W0 + 4, value: 5 },
            RegOp::Write { addr: SPI2_BASE + SPI_MOSI_DLEN, value: 39 },
            RegOp::Write { addr: SPI2_BASE + SPI_MISO_DLEN, value: 39 },
            RegOp::Update {
                addr: SPI2_BASE + SPI_USER,
                clear: !(SPI_CS_SETUP | SPI_CS_HOLD),
                set: SPI_DOUTDIN | SPI_USR_MOSI | SPI_USR_MISO | SPI_CK_OUT_EDGE,
            },
            RegOp::Write { addr: SPI2_BASE + SPI_CMD, value: SPI_CMD_USR },
        ]
    );
}

#[test]
fn a_transfer_beyond_the_buffer_is_refused_not_cut() {
    let spi = Esp32Spi::new(SPI2_BASE);
    assert_eq!(spi.fifo_exchange(&[0; 65], 65).unwrap_err(), BusError::InvalidConfig);
    assert!(spi.fifo_exchange(&[0; 65], 64).is_ok());
    assert_eq!(spi.fifo_exchange(&[0; 65], 0).unwrap(), vec![]);
}

#[test]
fn a_reply_is_unpacked_into_the_bytes_asked_for() {
    let mut rx = [0xEEu8; 6];
    assert_eq!(word_count(5), 2);
    unload(&[0x0403_0201, 0x0000_0005], &mut rx, 5);
    assert_eq!(rx, [1, 2, 3, 4, 5, 0xEE]);
}

#[test]
fn waiting_ends_with_the_command_or_the_limit() {
    assert_eq!(fifo_done(0, 0), Poll::Done);
    assert_eq!(fifo_done(SPI_CMD_USR, SPI_TIMEOUT_SPINS - 1), Poll::Again);
    assert_eq!(fifo_done(SPI_CMD_USR, SPI_TIMEOUT_SPINS), Poll::TimedOut);
}

#[test]
fn a_large_transfer_is_cut_into_pieces_that_cover_it() {
    let spi = Esp32Spi::new(SPI2_BASE);
    assert_eq!(spi.fifo_chunked(0), vec![]);
    assert_eq!(
        spi.fifo_chunked(130),
        vec![
            Chunk { from: 0, to: 64 },
            Chunk { from: 64, to: 128 },
            Chunk { from: 128, to: 130 },
        ]
    );
}

#[test]
fn dma_carries_everything_once_it_has_a_channel() {
    let spi = Esp32Spi::new(SPI3_BASE);
    let mut slot = DmaSlot::new();
    slot.grant(true);
    assert!(matches!(spi.exchange(&mut slot, 4, 4, true, 1), Exchange::Dma { bank: 0 }));
    assert!(matches!(spi.exchange(&mut slot, 9000, 9000, true, 3), Exchange::Dma { bank: 1 }));
    assert!(matches!(spi.exchange(&mut slot, 4, 4, true, 1), Exchange::Dma { bank: 0 }));
}

#[test]
fn a_large_transfer_that_dma_cannot_have_is_an_error() {
    let spi = Esp32Spi::new(SPI3_BASE);
    let mut slot = DmaSlot::new();
    slot.grant(true);
    assert!(matches!(
        spi.exchange(&mut slot, 65, 65, false, 1),
        Exchange::Refused(BusError::DmaError)
    ));
    assert!(matches!(
        spi.exchange(&mut slot, 70_000, 70_000, true, 17),
        Exchange::Refused(BusError::InvalidConfig)
    ));
    match spi.exchange(&mut slot, 64, 64, false, 1) {
        Exchange::Fifo(list) => assert_eq!(list, vec![Chunk { from: 0, to: 64 }]),
        _ => panic!("a small transfer goes through the buffer"),
    }
    spi.set_dma(&mut slot, false);
    assert!(matches!(spi.exchange(&mut slot, 65, 65, false, 1), Exchange::Fifo(_)));
    assert_eq!(slot.next_bank, 0);
}

#[test]
fn a_controller_without_an_instance_transfers_nothing() {
    let spi = Esp32Spi::new(SPI1_BASE);
    let mut slot = DmaSlot::new();
    assert!(matches!(
        spi.exchange(&mut slot, 4, 4, true, 1),
        Exchange::Refused(BusError::InvalidConfig)
    ));
    spi.set_dma(&mut slot, false);
    assert!(slot.enabled);
}

#[test]
fn a_channel_that_is_held_stays() {
    let mut slot = DmaSlot::new();
    slot.grant(false);
    assert!(!slot.channel);
    slot.grant(true);
    slot.grant(false);
    assert!(slot.channel);
    assert_eq!(dma_slot(2), Some(0));
    assert_eq!(dma_slot(3), Some(1));
    assert_eq!(dma_slot(1), None);
}

#[test]
fn a_controller_is_opened_once_and_again_after_a_failure() {
    let mut claims = Claims::new(2);
    let spi = Esp32Spi::open(&mut claims, SpiCtrl::Spi3).unwrap();
    assert_eq!(spi.base, SPI3_BASE);
    assert_eq!(Esp32Spi::open(&mut claims, SpiCtrl::Spi3).unwrap_err(), BusError::Busy);
    Esp32Spi::opened(&mut claims, SpiCtrl::Spi3, Err(BusError::InvalidConfig));
    assert!(Esp32Spi::open(&mut claims, SpiCtrl::Spi3).is_ok());
    Esp32Spi::opened(&mut claims, SpiCtrl::Spi3, Ok(()));
    assert_eq!(Esp32Spi::open(&mut claims, SpiCtrl::Spi3).unwrap_err(), BusError::Busy);
    assert_eq!(claim_index(SpiCtrl::Spi2), 0);
    assert!(Esp32Spi::open(&mut claims, SpiCtrl::Spi2).is_ok());
}

#[test]
fn only_an_spi_configuration_brings_an_spi_controller_up() {
    let spi = Esp32Spi::new(SPI2_BASE);
    let ok = (Ok(()), Ok(()), Ok(()));
    let cfg = SpiConfig { mosi: 13, miso: 12, sck: 14, max_hz: 1_000_000, mode: SpiMode::Mode0 };
    let a = spi.init(&BusConfig::Spi(cfg), ok);
    assert!(a.clock && a.result.is_ok());
    let a = spi.init(&BusConfig::I2c(I2cConfig { sda: 1, scl: 2, hz: 100_000 }), ok);
    assert!(!a.clock && a.result.is_err());
    let a = Esp32Spi::new(SPI1_BASE).init(&BusConfig::Spi(cfg), ok);
    assert!(!a.clock && a.result.is_err());
    let a = spi.init(&BusConfig::Spi(SpiConfig { miso: 13, ..cfg }), ok);
    assert!(a.clock && a.result.is_err());
}

#[test]
fn a_mode_sets_the_idle_level_and_remembers_the_phase() {
    let mut spi = Esp32Spi::new(SPI2_BASE);
    let ops = spi.configure(4_000_000, SpiMode::Mode3);
    assert!(spi.cpha);
    assert_eq!(ops[0], RegOp::Write { addr: SPI2_BASE + SPI_CLOCK, value: 0x0001_3253 });
    assert_eq!(
        ops[1],
        RegOp::Update { addr: SPI2_BASE + SPI_PIN, clear: 0, set: 7 | (1 << 29) }
    );
    let ops = spi.configure(4_000_000, SpiMode::Mode0);
    assert!(!spi.cpha);
    assert_eq!(
        ops[1],
        RegOp::Update { addr: SPI2_BASE + SPI_PIN, clear: 1 << 29, set: 7 }
    );
}

#[test]
fn a_speed_beyond_the_peripheral_clock_is_refused() {
    let spi = Esp32Spi::new(SPI2_BASE);
    assert_eq!(spi.set_speed(0).unwrap_err(), BusError::InvalidConfig);
    assert_eq!(spi.set_speed(80_000_001).unwrap_err(), BusError::InvalidConfig);
    assert_eq!(
        spi.set_speed(80_000_000).unwrap(),
        RegOp::Write { addr: SPI2_BASE + SPI_CLOCK, value: 1 << 31 }
    );
}
