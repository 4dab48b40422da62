use flint_drivers::esp32::adc2::{
    AMP_FSM_MASK, Adc2, Adc2Error, Channel, EN_PAD_MASK, EN_PAD_SHIFT, FORCE_XPD_AMP_SHIFT,
    FORCE_XPD_SAR_MASK, FORCE_XPD_SAR_ON, FORCE_XPD_SAR_SHIFT, MEAS_DATA_MASK, MEAS_DONE_SAR,
    MEAS_START_FORCE, MEAS_START_SAR, SAR2_DATA_INV, SAR2_DIG_FORCE, SAR2_PWDET_FORCE,
    SAR2_SAMPLE_BIT_12, SAR2_SAMPLE_BIT_MASK, SARADC_SAR2_MUX, SAR_ATTEN2, SAR_MEAS_CTRL,
    SAR_MEAS_START2, SAR_MEAS_WAIT2, SAR_READ_CTRL2, SYSCON_SARADC_CTRL, guard,
};
use flint_drivers::esp32::adc::{Attenuation, FULL_SCALE};
use flint_drivers::esp32::RegOp;

#[test]
fn register_addresses_match_sens_and_syscon_reg_h() {
    assert_eq!(SAR_MEAS_WAIT2, 0x3FF4_880C);
    assert_eq!(SAR_MEAS_CTRL, 0x3FF4_8810);
    assert_eq!(SAR_ATTEN2, 0x3FF4_8838);
    assert_eq!(SAR_READ_CTRL2, 0x3FF4_8890);
    assert_eq!(SAR_MEAS_START2, 0x3FF4_8894);
    assert_eq!(SYSCON_SARADC_CTRL, 0x3FF6_6010);
}

#[test]
fn the_radio_interlock_refuses_while_up_and_allows_while_down() {
    assert_eq!(guard(true), Err(Adc2Error::RadioBusy));
    assert_eq!(guard(false), Ok(()));
}

#[test]
fn lib_channel_numbering_is_not_the_gpio_number() {
    assert_eq!(Channel::Gpio4.index(), 0);
    assert_eq!(Channel::Gpio27.index(), 7);
    assert_eq!(Channel::Gpio25.index(), 8);
    assert_eq!(Channel::Gpio26.index(), 9);
}

#[test]
fn the_dac_pins_are_channels_8_and_9() {
    assert_eq!(Channel::from_gpio(25), Some(Channel::Gpio25));
    assert_eq!(Channel::from_gpio(26), Some(Channel::Gpio26));
    assert_eq!(Channel::Gpio25.gpio(), 25);
    assert_eq!(Channel::Gpio26.gpio(), 26);
}

#[test]
fn gpio_lookup_round_trips_and_rejects_adc1_pins() {
    for gpio in [4u8, 0, 2, 15, 13, 12, 14, 27, 25, 26] {
        let ch = Channel::from_gpio(gpio).expect("ADC2 channel");
        assert_eq!(ch.gpio(), gpio);
    }
    for gpio in [32u8, 33, 34, 35, 36, 39, 1, 5, 40] {
        assert_eq!(Channel::from_gpio(gpio), None, "GPIO{gpio} was accepted");
    }
}

#[test]
fn lib_twelve_bit_conversions_are_encoded_as_three() {
    assert_eq!(SAR2_SAMPLE_BIT_12, 3);
    assert_eq!(SAR2_SAMPLE_BIT_12 & SAR2_SAMPLE_BIT_MASK, SAR2_SAMPLE_BIT_12);
    assert_eq!(FULL_SCALE, 4095);
}

#[test]
fn the_control_bits_sit_where_the_header_says_and_do_not_overlap() {
    assert_eq!(SAR2_PWDET_FORCE, 1 << 27);
    assert_eq!(SAR2_DIG_FORCE, 1 << 28);
    assert_eq!(SAR2_DATA_INV, 1 << 29);
    assert_eq!(SARADC_SAR2_MUX, 1 << 2);
}

#[test]
fn lib_the_data_and_done_fields_do_not_overlap() {
    assert_eq!(MEAS_DATA_MASK, 0xFFFF);
    assert_eq!(MEAS_DONE_SAR, 1 << 16);
    assert_eq!(MEAS_DATA_MASK & MEAS_DONE_SAR, 0);
    assert_eq!(EN_PAD_SHIFT, 19);
    assert_eq!((1u32 << 9) << EN_PAD_SHIFT, 1 << 28);
    assert_eq!((EN_PAD_MASK << EN_PAD_SHIFT) & MEAS_START_FORCE, 0);
}

#[test]
fn the_shared_sar_power_field_matches_adc1() {
    assert_eq!(FORCE_XPD_SAR_SHIFT, 18);
    assert_eq!(FORCE_XPD_SAR_ON & FORCE_XPD_SAR_MASK, FORCE_XPD_SAR_ON);
    assert_eq!(FORCE_XPD_AMP_SHIFT, 16);
    assert_eq!(AMP_FSM_MASK, 0xFFF0);
}

#[test]
fn a_conversion_is_refused_while_the_radio_is_up() {
    let (adc, _) = Adc2::new();
    assert_eq!(adc.read(Channel::Gpio25, true).unwrap_err(), Adc2Error::RadioBusy);
    let ops = adc.read(Channel::Gpio25, false).unwrap();
    let pad = (1u32 << 8) << EN_PAD_SHIFT;
    assert_eq!(ops.len(), 3);
    assert_eq!(
        ops[2],
        RegOp::Store {
            addr: SAR_MEAS_START2,
            clear: (EN_PAD_MASK << EN_PAD_SHIFT) | MEAS_START_SAR,
            set: pad | MEAS_START_SAR,
        }
    );
}

#[test]
fn the_second_converters_attenuation_has_its_own_register() {
    let (adc, _) = Adc2::new();
    assert_eq!(
        adc.set_attenuation(Channel::Gpio26, Attenuation::Db11),
        RegOp::Update { addr: SAR_ATTEN2, clear: 3 << 18, set: 3 << 18 }
    );
    assert_eq!(adc.read_averaged(0), 1);
}
