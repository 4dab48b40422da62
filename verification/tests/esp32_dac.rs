use flint_drivers::esp32::dac::{
    Channel, Dac, PAD_DAC1, PDAC_DAC_MASK, PDAC_DAC_SHIFT, PDAC_DAC_XPD_FORCE, PDAC_FUN_IE,
    PDAC_FUN_SEL_MASK, PDAC_MUX_SEL, PDAC_RDE, PDAC_RUE, PDAC_XPD_DAC, RTC_GPIO_ENABLE,
    SAR_DAC_CTRL1, SAR_DAC_CTRL2, SW_TONE_EN,
};
use flint_drivers::esp32::RegOp;

#[test]
fn register_addresses_match_the_headers() {
    assert_eq!(PAD_DAC1, 0x3FF4_8484);
    assert_eq!(Channel::Gpio26.pad_reg(), 0x3FF4_8488);
    assert_eq!(SAR_DAC_CTRL1, 0x3FF4_8898);
    assert_eq!(SAR_DAC_CTRL2, 0x3FF4_889C);
    assert_eq!(RTC_GPIO_ENABLE, 0x3FF4_840C);
}

#[test]
fn the_two_channels_are_gpio_25_and_26_not_pin_order_confusable() {
    assert_eq!(Channel::Gpio25.gpio(), 25);
    assert_eq!(Channel::Gpio26.gpio(), 26);
    assert_eq!(Channel::Gpio25.index(), 0);
    assert_eq!(Channel::Gpio26.index(), 1);
    assert_eq!(Channel::from_gpio(25), Some(Channel::Gpio25));
    assert_eq!(Channel::from_gpio(26), Some(Channel::Gpio26));
    for gpio in [0u8, 24, 27, 32, 33] {
        assert_eq!(Channel::from_gpio(gpio), None, "GPIO{gpio} was accepted");
    }
}

#[test]
fn the_value_field_is_eight_bits_at_nineteen() {
    assert_eq!(PDAC_DAC_SHIFT, 19);
    assert_eq!(PDAC_DAC_MASK, 0xFF);
    assert_eq!((PDAC_DAC_MASK << PDAC_DAC_SHIFT), 0x07F8_0000);
    assert_eq!((PDAC_DAC_MASK << PDAC_DAC_SHIFT) & PDAC_XPD_DAC, 0);
}

#[test]
fn the_cosine_enable_bits_are_24_and_25() {
    assert_eq!(Channel::Gpio25.cw_en(), 1 << 24);
    assert_eq!(Channel::Gpio26.cw_en(), 1 << 25);
    assert_eq!(SW_TONE_EN, 1 << 16);
}

#[test]
fn the_output_enable_bit_follows_the_rtc_gpio_number() {
    assert_eq!(Channel::Gpio25.rtc_output_bit(), 1 << 20);
    assert_eq!(Channel::Gpio26.rtc_output_bit(), 1 << 21);
}

#[test]
fn the_pad_control_bits_do_not_collide() {
    assert_eq!(PDAC_MUX_SEL, 1 << 17);
    assert_eq!(PDAC_FUN_SEL_MASK, 0x3 << 15);
    assert_eq!(PDAC_FUN_SEL_MASK & PDAC_MUX_SEL, 0);
    assert_eq!(PDAC_XPD_DAC, 1 << 18);
    assert_eq!(PDAC_DAC_XPD_FORCE, 1 << 10);
    assert_eq!(PDAC_FUN_IE, 1 << 11);
    assert_eq!(PDAC_RUE, 1 << 27);
    assert_eq!(PDAC_RDE, 1 << 28);
    assert_eq!(PDAC_RUE & PDAC_RDE, 0);
}

#[test]
fn driving_a_channel_untangles_it_from_the_tone() {
    let (dac, tone_off) = Dac::new();
    assert_eq!(tone_off, RegOp::Update { addr: SAR_DAC_CTRL1, clear: SW_TONE_EN, set: 0 });
    let ops = dac.output(Channel::Gpio26, 0xA5);
    assert_eq!(ops.len(), 4);
    assert_eq!(ops[1], RegOp::Update { addr: RTC_GPIO_ENABLE, clear: 1 << 21, set: 0 });
    assert_eq!(ops[2], RegOp::Update { addr: SAR_DAC_CTRL2, clear: 1 << 25, set: 0 });
    assert_eq!(
        ops[3],
        RegOp::Update { addr: PAD_DAC1 + 4, clear: 0xFF << 19, set: 0xA5 << 19 }
    );
    assert_eq!(
        dac.power_down(Channel::Gpio25),
        RegOp::Update { addr: PAD_DAC1, clear: PDAC_DAC_XPD_FORCE | PDAC_XPD_DAC, set: 0 }
    );
}
