use flint_drivers::esp32::touch::{
    Channel, DREF_FIELD_MASK, MEAS_DONE, MEAS_POLL_SPINS, PAD_DAC_MASK, PAD_MUX_SEL, PAD_TIE_OPT,
    RTC_IO_TOUCH_CFG, RTC_IO_TOUCH_PAD0, SAR_TOUCH_CTRL1, SAR_TOUCH_CTRL2, SAR_TOUCH_ENABLE,
    SAR_TOUCH_OUT1, START_EN, START_FORCE, START_FSM_EN, Touch, XPD_WAIT_MASK,
};
use flint_drivers::esp32::{Poll, RegOp};

#[test]
fn lib_register_addresses_match_the_headers() {
    assert_eq!(SAR_TOUCH_CTRL1, 0x3FF4_8858);
    assert_eq!(SAR_TOUCH_CTRL2, 0x3FF4_8884);
    assert_eq!(SAR_TOUCH_ENABLE, 0x3FF4_888C);
    assert_eq!(SAR_TOUCH_OUT1, 0x3FF4_8870);
    assert_eq!(RTC_IO_TOUCH_CFG, 0x3FF4_8490);
    assert_eq!(RTC_IO_TOUCH_PAD0, 0x3FF4_8494);
    assert_eq!(RTC_IO_TOUCH_PAD0 + Channel::T7.num() * 4, 0x3FF4_84B0);
    assert_eq!(RTC_IO_TOUCH_PAD0 + 9 * 4, 0x3FF4_84B8);
}

#[test]
fn the_channel_gpio_map_is_the_esp_idf_one_both_ways() {
    let pairs = [
        (Channel::T0, 4u8),
        (Channel::T1, 0),
        (Channel::T2, 2),
        (Channel::T3, 15),
        (Channel::T4, 13),
        (Channel::T5, 12),
        (Channel::T6, 14),
        (Channel::T7, 27),
        (Channel::T8, 33),
        (Channel::T9, 32),
    ];
    for (ch, gpio) in pairs {
        assert_eq!(ch.gpio(), gpio);
        assert_eq!(Channel::from_gpio(gpio), Some(ch));
    }
    for gpio in [1u8, 3, 5, 16, 19, 21, 22, 23, 25, 26] {
        assert_eq!(Channel::from_gpio(gpio), None, "GPIO{gpio} was accepted");
    }
}

#[test]
fn channels_8_and_9_swap_but_the_rest_do_not() {
    assert_eq!(Channel::T8.num(), 8);
    assert_eq!(Channel::T8.swapped(), 9);
    assert_eq!(Channel::T9.num(), 9);
    assert_eq!(Channel::T9.swapped(), 8);
    for ch in [Channel::T0, Channel::T5, Channel::T7] {
        assert_eq!(ch.num(), ch.swapped(), "channel 0-7 must not swap");
    }
}

#[test]
fn the_count_is_read_from_the_right_pair_and_half() {
    assert_eq!(Channel::T0.out_reg_and_shift(), (0x3FF4_8870, 16));
    assert_eq!(Channel::T1.out_reg_and_shift(), (0x3FF4_8870, 0));
    assert_eq!(Channel::T7.out_reg_and_shift(), (0x3FF4_887C, 0));
    assert_eq!(Channel::T8.out_reg_and_shift(), (0x3FF4_8880, 0));
    assert_eq!(Channel::T9.out_reg_and_shift(), (0x3FF4_8880, 16));
}

#[test]
fn the_control_bits_are_the_documented_positions() {
    assert_eq!(MEAS_DONE, 1 << 10);
    assert_eq!(START_FSM_EN, 1 << 11);
    assert_eq!(START_EN, 1 << 12);
    assert_eq!(START_FORCE, 1 << 13);
    assert_eq!(XPD_WAIT_MASK, 0xFF << 16);
    assert_eq!(PAD_DAC_MASK, 0x7 << 23);
    assert_eq!(PAD_DAC_MASK & (PAD_MUX_SEL | PAD_TIE_OPT), 0);
    assert_eq!(DREF_FIELD_MASK, (0x3 << 29) | (0x3 << 27) | (0x3 << 25));
}

#[test]
fn a_measurement_is_started_by_an_edge_and_let_go() {
    let (t, up) = Touch::new();
    assert_eq!(up.len(), 4);
    let ops = t.read(Channel::T8);
    assert_eq!(ops.len(), 5);
    assert_eq!(ops[2], RegOp::Update { addr: SAR_TOUCH_ENABLE, clear: 1 << 9, set: 1 << 9 });
    assert_eq!(ops[3], RegOp::Update { addr: SAR_TOUCH_CTRL2, clear: START_EN, set: 0 });
    assert_eq!(ops[4], RegOp::Update { addr: SAR_TOUCH_CTRL2, clear: START_EN, set: START_EN });
    assert_eq!(t.release(Channel::T8), RegOp::Update { addr: SAR_TOUCH_ENABLE, clear: 1 << 9, set: 0 });
}

#[test]
fn a_count_is_its_own_half_of_the_word() {
    let (t, _) = Touch::new();
    assert_eq!(t.count(Channel::T0, 0x1234_5678), 0x1234);
    assert_eq!(t.count(Channel::T1, 0x1234_5678), 0x5678);
    assert_eq!(t.count(Channel::T9, 0x1234_5678), 0x1234);
    assert_eq!(t.done(MEAS_DONE, 0), Poll::Done);
    assert_eq!(t.done(0, 0), Poll::Again);
    assert_eq!(t.done(0, MEAS_POLL_SPINS - 1), Poll::TimedOut);
}
