use flint_drivers::esp32::gpio::{
    Esp32Gpio, GPIO_BASE, GPIO_ENABLE, GPIO_ENABLE1, GPIO_ENABLE1_W1TC, GPIO_ENABLE1_W1TS,
    GPIO_ENABLE_W1TC, GPIO_ENABLE_W1TS, GPIO_IN, GPIO_IN1, GPIO_OUT, GPIO_OUT1, GPIO_OUT1_W1TC,
    GPIO_OUT1_W1TS, GPIO_OUT_W1TC, GPIO_OUT_W1TS, GPIO_STATUS1_W1TC, GPIO_STATUS_W1TC, PinLevel,
    PinMode, pin_bit,
};
use flint_drivers::bus::BusError;
use flint_drivers::esp32::RegOp;

#[test]
fn instance_is_the_gpio_block_and_is_one_object() {
    let a = Esp32Gpio::instance();
    let b = Esp32Gpio::instance();
    assert_eq!(a.base, GPIO_BASE);
    assert_eq!(a, b);
}

#[test]
fn pin_bit_selects_base_registers_for_pins_0_to_31() {
    assert_eq!(pin_bit(0), Some((false, 1)));
    assert_eq!(pin_bit(5), Some((false, 1 << 5)));
    assert_eq!(pin_bit(31), Some((false, 1 << 31)));
}

#[test]
fn pin_bit_selects_1_registers_for_pins_32_to_39() {
    assert_eq!(pin_bit(32), Some((true, 1)));
    assert_eq!(pin_bit(33), Some((true, 1 << 1)));
    assert_eq!(pin_bit(39), Some((true, 1 << 7)));
}

#[test]
fn pin_bit_rejects_pins_beyond_39() {
    assert_eq!(pin_bit(40), None);
    assert_eq!(pin_bit(255), None);
}

#[test]
fn register_offsets_match_trm_gpio_summary() {
    assert_eq!(GPIO_OUT, 0x04);
    assert_eq!(GPIO_OUT_W1TS, 0x08);
    assert_eq!(GPIO_OUT_W1TC, 0x0C);
    assert_eq!(GPIO_OUT1, 0x10);
    assert_eq!(GPIO_OUT1_W1TS, 0x14);
    assert_eq!(GPIO_OUT1_W1TC, 0x18);
    assert_eq!(GPIO_ENABLE, 0x20);
    assert_eq!(GPIO_ENABLE_W1TS, 0x24);
    assert_eq!(GPIO_ENABLE_W1TC, 0x28);
    assert_eq!(GPIO_ENABLE1, 0x2C);
    assert_eq!(GPIO_ENABLE1_W1TS, 0x30);
    assert_eq!(GPIO_ENABLE1_W1TC, 0x34);
    assert_eq!(GPIO_IN, 0x3C);
    assert_eq!(GPIO_IN1, 0x40);
    assert_eq!(GPIO_STATUS_W1TC, 0x4C);
    assert_eq!(GPIO_STATUS1_W1TC, 0x58);
}

#[test]
fn enable_and_status_no_longer_alias() {
    assert_ne!(GPIO_ENABLE_W1TC, GPIO_STATUS_W1TC);
    assert_ne!(GPIO_ENABLE, GPIO_IN);
}

#[test]
fn a_pin_is_driven_through_its_own_bit() {
    let g = Esp32Gpio::instance();
    assert_eq!(
        g.write(5, PinLevel::High),
        Ok(RegOp::Write { addr: GPIO_BASE + GPIO_OUT_W1TS, value: 1 << 5 })
    );
    assert_eq!(
        g.write(33, PinLevel::Low),
        Ok(RegOp::Write { addr: GPIO_BASE + GPIO_OUT1_W1TC, value: 1 << 1 })
    );
    assert_eq!(g.write(40, PinLevel::Low), Err(BusError::InvalidConfig));
}

#[test]
fn a_direction_is_set_or_refused_never_ignored() {
    let g = Esp32Gpio::instance();
    assert_eq!(
        g.set_mode(31, PinMode::Output),
        Ok(RegOp::Write { addr: GPIO_BASE + GPIO_ENABLE_W1TS, value: 1 << 31 })
    );
    assert_eq!(
        g.set_mode(32, PinMode::Input),
        Ok(RegOp::Write { addr: GPIO_BASE + GPIO_ENABLE1_W1TC, value: 1 })
    );
    for mode in [PinMode::InputPullUp, PinMode::InputPullDown, PinMode::OutputOpenDrain] {
        assert_eq!(g.set_mode(4, mode), Err(BusError::InvalidConfig));
    }
    assert_eq!(g.set_mode(40, PinMode::Input), Err(BusError::InvalidConfig));
}

#[test]
fn a_level_is_the_pins_bit() {
    let g = Esp32Gpio::instance();
    assert_eq!(g.input_reg(4), Ok(GPIO_BASE + GPIO_IN));
    assert_eq!(g.input_reg(39), Ok(GPIO_BASE + GPIO_IN1));
    assert_eq!(g.input_reg(40), Err(BusError::InvalidConfig));
    assert_eq!(g.read(4, 0x10), Ok(PinLevel::High));
    assert_eq!(g.read(4, !0x10), Ok(PinLevel::Low));
    assert_eq!(g.read(99, 0), Err(BusError::InvalidConfig));
    assert_eq!(
        g.clear_interrupt(32),
        Ok(RegOp::Write { addr: GPIO_BASE + GPIO_STATUS1_W1TC, value: 1 })
    );
    assert_eq!(g.clear_interrupt(40), Err(BusError::InvalidConfig));
}
