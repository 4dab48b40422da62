use flint_drivers::esp32::twai::{
    BTR0_125K, BTR1_125K, BUS_TIMING_0, BUS_TIMING_1, CDR_PELICAN_NO_CLKOUT, CLOCK_DIVIDER, CMD,
    CMD_CDO, CMD_RRB, CMD_SRR, DATA0, Frame, INT_ENA, MODE, MODE_AFM, MODE_LOM, MODE_RM, MODE_STM,
    Mode, STATUS, STATUS_RBS, Twai, decode, encode,
};
use flint_drivers::bus::BusError;
use flint_drivers::esp32::RegOp;

#[test]
fn register_addresses_match_the_struct() {
    assert_eq!(MODE, 0x3FF6_B000);
    assert_eq!(CMD, 0x3FF6_B004);
    assert_eq!(STATUS, 0x3FF6_B008);
    assert_eq!(BUS_TIMING_0, 0x3FF6_B018);
    assert_eq!(BUS_TIMING_1, 0x3FF6_B01C);
    assert_eq!(DATA0, 0x3FF6_B040);
    assert_eq!(CLOCK_DIVIDER, 0x3FF6_B07C);
}

#[test]
fn the_125k_timing_encodes_value_minus_one() {
    assert_eq!(BTR0_125K, 0x8F);
    assert_eq!(BTR1_125K, 0x3E);
}

#[test]
fn pelican_mode_is_bit_seven_and_clkout_is_off() {
    assert_eq!(CDR_PELICAN_NO_CLKOUT, 0x88);
}

#[test]
fn self_test_mode_sets_stm_and_the_single_filter_bit() {
    assert_eq!(Mode::SelfTest.mode_bits(), MODE_STM | MODE_AFM);
    assert_eq!(Mode::Normal.mode_bits(), MODE_AFM);
    assert_eq!(Mode::ListenOnly.mode_bits(), MODE_LOM | MODE_AFM);
    assert_eq!(MODE_STM, 1 << 2);
}

#[test]
fn a_standard_frame_round_trips_through_the_buffer_format() {
    let f = Frame { id: 0x2AB, len: 5, data: [0x11, 0x22, 0x33, 0x44, 0x55, 0, 0, 0] };
    let (buf, n) = encode(&f);
    assert_eq!(n, 8);
    assert_eq!(buf[0] & 0x0F, 5);
    assert_eq!(buf[1], (0x2AB >> 3) as u8);
    assert_eq!(buf[2] & 0x1F, 0, "the low five bits of byte 2 are not the ID");
    assert_eq!(decode(&buf), f);
}

#[test]
fn the_max_length_frame_does_not_run_off_the_buffer() {
    let f = Frame { id: 0x7FF, len: 8, data: [1, 2, 3, 4, 5, 6, 7, 8] };
    let (buf, n) = encode(&f);
    assert_eq!(n, 11);
    assert_eq!(decode(&buf), f);
    let mut over = buf;
    over[0] = 0x0F;
    assert_eq!(decode(&over).len, 8);
}

#[test]
fn the_command_bits_are_distinct() {
    assert_eq!(CMD_SRR, 1 << 4);
    assert_eq!(CMD_RRB, 1 << 2);
    assert_eq!(CMD_CDO, 1 << 3);
    assert_eq!(STATUS_RBS, 1 << 0);
}

#[test]
fn the_controller_is_set_up_in_reset() {
    let ops = Twai::configure(Mode::SelfTest);
    assert_eq!(ops.len(), 16);
    assert_eq!(ops[0], RegOp::Write { addr: MODE, value: MODE_RM });
    assert_eq!(ops[4], RegOp::Write { addr: DATA0, value: 0 });
    assert_eq!(ops[5], RegOp::Write { addr: DATA0 + 16, value: 0xFF });
    assert_eq!(ops[12], RegOp::Write { addr: INT_ENA, value: 0 });
    assert_eq!(ops[14], RegOp::Write { addr: MODE, value: MODE_STM | MODE_AFM });
    assert_eq!(ops[15], RegOp::Write { addr: CMD, value: CMD_RRB | CMD_CDO });
}

#[test]
fn a_frame_sent_to_itself_comes_back() {
    let twai = Twai {};
    let f = Frame { id: 0x123, len: 2, data: [9, 8, 0, 0, 0, 0, 0, 0] };
    let ops = twai.self_reception(&f);
    assert_eq!(ops.len(), 6);
    assert_eq!(ops[5], RegOp::Write { addr: CMD, value: CMD_SRR });
    let mut words = [0xFFFF_FF00u32; 11];
    for op in &ops[..5] {
        if let RegOp::Write { addr, value } = op {
            words[((addr - DATA0) / 4) as usize] |= value;
        }
    }
    let (back, free) = twai.take(&words);
    assert_eq!(back, f);
    assert_eq!(free, RegOp::Write { addr: CMD, value: CMD_RRB });
    assert!(twai.arrived(STATUS_RBS));
    assert!(!twai.arrived(!STATUS_RBS));
}

#[test]
fn an_overlong_frame_is_cut_when_sent() {
    let f = Frame { id: 1, len: 12, data: [1, 2, 3, 4, 5, 6, 7, 8] };
    let (buf, n) = encode(&f);
    assert_eq!((buf[0], n), (8, 11));
    assert!(Twai::new(Ok(()), Ok(())).result.is_ok());
    assert!(Twai::new(Ok(()), Err(BusError::InvalidConfig)).result.is_err());
    assert!(Twai::new(Err(BusError::Busy), Ok(())).result.is_err());
}

#[test]
fn a_frame_comes_back_as_the_bus_carries_it() {
    let f = Frame { id: 0xFABC, len: 3, data: [1, 2, 3, 4, 5, 6, 7, 8] };
    let (buf, n) = encode(&f);
    assert_eq!(n, 6);
    assert_eq!(decode(&buf), Frame { id: 0x2BC, len: 3, data: [1, 2, 3, 0, 0, 0, 0, 0] });
    let f = Frame { id: 1, len: 200, data: [1, 2, 3, 4, 5, 6, 7, 8] };
    assert_eq!(decode(&encode(&f).0), Frame { len: 8, ..f });
}
