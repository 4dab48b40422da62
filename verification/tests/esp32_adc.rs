use flint_drivers::esp32::adc::{
    AMP_FSM_MASK, Adc1, AdcError, Attenuation, Channel, EN_PAD_FORCE, EN_PAD_MASK, EN_PAD_SHIFT,
    FORCE_XPD_SAR_MASK, FORCE_XPD_SAR_ON, FORCE_XPD_SAR_SHIFT, FULL_SCALE, HALL_PHASE_FORCE,
    MEAS_DATA_MASK, MEAS_DONE_SAR, MEAS_START_FORCE, MEAS_START_SAR, PAD_FUN_IE, PAD_FUN_SEL_MASK,
    PAD_MUX_SEL, PAD_RDE, PAD_RUE, PAD_TOUCH_START, PAD_TOUCH_XPD, Pull, RTCIO_BASE,
    RTC_GPIO_ENABLE, RTC_GPIO_IN, RTC_GPIO_OUT, RTC_GPIO_SHIFT, RTC_HALL_SENS, SAMPLE_BIT_12,
    SAMPLE_BIT_MASK, SAR_ATTEN1, SAR_MEAS_CTRL, SAR_MEAS_START1, SAR_MEAS_WAIT2, SAR_READ_CTRL,
    SAR_TOUCH_CTRL1, SENS_BASE, TOUCH_PAD0, XPD_HALL, XPD_HALL_FORCE, average, result, rtc_gpio_of,
    touch_pad_of,
};
use flint_drivers::esp32::RegOp;

#[test]
fn register_addresses_match_sens_reg_h() {
    assert_eq!(SENS_BASE, 0x3FF4_8800);
    assert_eq!(SAR_READ_CTRL, 0x3FF4_8800);
    assert_eq!(SAR_ATTEN1, 0x3FF4_8834);
    assert_eq!(SAR_MEAS_START1, 0x3FF4_8854);
}

#[test]
fn channel_numbering_is_not_the_gpio_number() {
    assert_eq!(Channel::Gpio36.index(), 0);
    assert_eq!(Channel::Gpio39.index(), 3);
    assert_eq!(Channel::Gpio32.index(), 4);
    assert_eq!(Channel::Gpio33.index(), 5);
    assert_eq!(Channel::Gpio35.index(), 7);
}

#[test]
fn gpio_lookup_round_trips_and_rejects_the_rest() {
    for gpio in [32u8, 33, 34, 35, 36, 37, 38, 39] {
        let ch = Channel::from_gpio(gpio).expect("ADC1 channel");
        assert_eq!(ch.gpio(), gpio);
    }
    for gpio in [0u8, 2, 4, 12, 25, 26, 27, 31, 40] {
        assert_eq!(Channel::from_gpio(gpio), None, "GPIO{gpio} was accepted");
    }
}

#[test]
fn attenuation_occupies_two_bits_per_channel() {
    assert_eq!(Channel::Gpio36.index() * 2, 0);
    assert_eq!(Channel::Gpio33.index() * 2, 10);
    assert_eq!(Channel::Gpio35.index() * 2, 14);
    assert_eq!(Attenuation::Db0.code(), 0);
    assert_eq!(Attenuation::Db11.code(), 3);
}

#[test]
fn twelve_bit_conversions_are_encoded_as_three() {
    assert_eq!(SAMPLE_BIT_12, 3);
    assert_eq!(SAMPLE_BIT_12 & SAMPLE_BIT_MASK, SAMPLE_BIT_12);
    assert_eq!(FULL_SCALE, 4095);
}

#[test]
fn the_data_and_done_fields_do_not_overlap() {
    assert_eq!(MEAS_DATA_MASK, 0xFFFF);
    assert_eq!(MEAS_DONE_SAR, 1 << 16);
    assert_eq!(MEAS_DATA_MASK & MEAS_DONE_SAR, 0);
}

#[test]
fn rtc_gpio_numbering_is_a_third_scheme_again() {
    assert_eq!(rtc_gpio_of(Channel::Gpio33), Some(8));
    assert_eq!(rtc_gpio_of(Channel::Gpio32), Some(9));
    assert_eq!(Channel::Gpio33.index(), 5);
    for ch in [Channel::Gpio34, Channel::Gpio35, Channel::Gpio36, Channel::Gpio39] {
        assert_eq!(rtc_gpio_of(ch), None, "{ch:?} has no output driver");
    }
}

#[test]
fn the_rtc_gpio_registers_are_where_the_header_says() {
    assert_eq!(RTC_GPIO_OUT, RTCIO_BASE + 0x00);
    assert_eq!(RTC_GPIO_ENABLE, RTCIO_BASE + 0x0C);
    assert_eq!(RTC_GPIO_IN, RTCIO_BASE + 0x24);
    assert_eq!(RTC_GPIO_SHIFT, 14);
    assert_eq!(1u32 << (RTC_GPIO_SHIFT + 8), 1 << 22);
}

#[test]
fn the_hall_sensor_is_taken_from_the_ulp_and_switched_off() {
    assert_eq!(SAR_TOUCH_CTRL1, 0x3FF4_8858);
    assert_eq!(XPD_HALL_FORCE, 1 << 26);
    assert_eq!(HALL_PHASE_FORCE, 1 << 27);
    assert_eq!(RTC_HALL_SENS, 0x3FF4_8478);
    assert_eq!(XPD_HALL, 1 << 31);
}

#[test]
fn the_amplifier_fsm_mask_covers_its_three_fields_and_nothing_else() {
    assert_eq!(SAR_MEAS_CTRL, 0x3FF4_8810);
    assert_eq!(AMP_FSM_MASK, 0xFFF0);
    assert_eq!(AMP_FSM_MASK & 0xF, 0, "bits 0..4 are not the amp's");
    assert_eq!(AMP_FSM_MASK >> 16, 0, "bits 16+ are not the amp's");
}

#[test]
fn the_sar_power_field_is_two_bits_at_eighteen() {
    assert_eq!(SAR_MEAS_WAIT2, 0x3FF4_880C);
    assert_eq!(FORCE_XPD_SAR_SHIFT, 18);
    assert_eq!(FORCE_XPD_SAR_ON & FORCE_XPD_SAR_MASK, FORCE_XPD_SAR_ON);
}

#[test]
fn the_touch_pad_array_base_lands_on_the_documented_registers() {
    assert_eq!(TOUCH_PAD0 + 8 * 4, RTCIO_BASE + 0xB4);
    assert_eq!(TOUCH_PAD0 + 9 * 4, RTCIO_BASE + 0xB8);
}

#[test]
fn only_the_two_touch_pad_channels_have_pulls() {
    assert_eq!(touch_pad_of(Channel::Gpio33), Some(8));
    assert_eq!(touch_pad_of(Channel::Gpio32), Some(9));
    for ch in [
        Channel::Gpio34,
        Channel::Gpio35,
        Channel::Gpio36,
        Channel::Gpio37,
        Channel::Gpio38,
        Channel::Gpio39,
    ] {
        assert_eq!(touch_pad_of(ch), None, "{ch:?} claimed a pull it has not got");
    }
}

#[test]
fn the_pad_pull_bits_are_not_the_io_mux_ones() {
    assert_eq!(PAD_RUE, 1 << 27);
    assert_eq!(PAD_RDE, 1 << 28);
    assert_eq!(PAD_MUX_SEL, 1 << 19);
    assert_eq!(PAD_FUN_SEL_MASK, 0x3 << 17);
    assert_eq!(PAD_FUN_IE, 1 << 13);
    assert_eq!(PAD_FUN_SEL_MASK & PAD_MUX_SEL, 0);
    assert_eq!(PAD_TOUCH_XPD, 1 << 20);
    assert_eq!(PAD_TOUCH_START, 1 << 22);
    assert_eq!(PAD_RUE & PAD_RDE, 0);
}

#[test]
fn the_pad_selector_clears_the_start_strobe() {
    let stale = EN_PAD_FORCE | MEAS_START_FORCE | MEAS_START_SAR | (0xFFF << EN_PAD_SHIFT);
    let base = (stale & !(EN_PAD_MASK << EN_PAD_SHIFT)) & !MEAS_START_SAR;
    assert_eq!(base & MEAS_START_SAR, 0, "start strobe survived");
    assert_eq!(base & (EN_PAD_MASK << EN_PAD_SHIFT), 0, "pad selection survived");
    assert_eq!(base & EN_PAD_FORCE, EN_PAD_FORCE);
    assert_eq!(base & MEAS_START_FORCE, MEAS_START_FORCE);
}

#[test]
fn a_conversion_raises_the_start_strobe_from_low_to_high() {
    let (adc, _) = Adc1::new();
    let ops = adc.read(Channel::Gpio33);
    let pad = (1u32 << 5) << EN_PAD_SHIFT;
    let clear = (EN_PAD_MASK << EN_PAD_SHIFT) | MEAS_START_SAR;
    assert_eq!(
        ops,
        vec![
            RegOp::Load { addr: SAR_MEAS_START1 },
            RegOp::Store { addr: SAR_MEAS_START1, clear, set: pad },
            RegOp::Store { addr: SAR_MEAS_START1, clear, set: pad | MEAS_START_SAR },
        ]
    );
}

#[test]
fn a_count_is_read_only_when_the_conversion_is_done() {
    assert_eq!(result(0x0000_0ABC), None);
    assert_eq!(result(MEAS_DONE_SAR | 0x0ABC), Some(0x0ABC));
    assert_eq!(result(u32::MAX), Some(0xFFFF));
}

#[test]
fn an_average_rounds_down() {
    assert_eq!(average(&[1, 2]), 1);
    assert_eq!(average(&[4095, 4095, 4095]), 4095);
    assert_eq!(average(&[0xFFFF; 3]), 0xFFFF);
    let (adc, _) = Adc1::new();
    assert_eq!(adc.read_averaged(0), 1);
    assert_eq!(adc.read_averaged(7), 7);
}

#[test]
fn a_pad_without_resistors_refuses_a_pull() {
    let (adc, _) = Adc1::new();
    assert_eq!(adc.set_pad_pull(Channel::Gpio36, Pull::Up), Err(AdcError::NoPullOnThisPad));
    let op = adc.set_pad_pull(Channel::Gpio32, Pull::Down).unwrap();
    assert_eq!(
        op,
        RegOp::Update {
            addr: TOUCH_PAD0 + 9 * 4,
            clear: PAD_FUN_SEL_MASK | PAD_FUN_IE | PAD_TOUCH_XPD | PAD_TOUCH_START | PAD_RUE | PAD_RDE,
            set: PAD_MUX_SEL | PAD_RDE,
        }
    );
}

#[test]
fn attenuation_is_set_in_the_channels_own_two_bits() {
    let (adc, _) = Adc1::new();
    assert_eq!(
        adc.set_attenuation(Channel::Gpio33, Attenuation::Db6),
        RegOp::Update { addr: SAR_ATTEN1, clear: 3 << 10, set: 2 << 10 }
    );
}

#[test]
fn the_pad_debug_bit_is_the_pads_rtc_gpio() {
    let (adc, _) = Adc1::new();
    assert_eq!(adc.pad_debug(Channel::Gpio33, 1, 2, 3, 4).bit, 1 << 22);
    assert_eq!(adc.pad_debug(Channel::Gpio34, 1, 2, 3, 4).bit, 0);
    assert_eq!(adc.pad_addr(Channel::Gpio33), TOUCH_PAD0 + 32);
}
