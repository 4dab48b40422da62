use flint_drivers::bus::BusError;
use flint_drivers::logical::axp192::{
    millivolts_for, pack_field, steps_for, unpack_field, Axp192, AxpError, Rail, ADC_BATTERY_I,
    ADC_BATTERY_V, BATTERY_PRESENT, CHARGE_ACTIVE, GPIO34_BASE, REG_ADC_ENABLE_1,
    REG_GPIO34_FUNCTION, REG_GPIO34_STATUS, REG_OUTPUT_CTRL,
};
use flint_drivers::logical::{update, RegOp};

#[test]
fn rail_enable_bits_match_the_output_control_register() {
    assert_eq!(Rail::Dcdc1.enable_bit(), 0);
    assert_eq!(Rail::Dcdc3.enable_bit(), 1);
    assert_eq!(Rail::Ldo2.enable_bit(), 2);
    assert_eq!(Rail::Ldo3.enable_bit(), 3);
    assert_eq!(Rail::Dcdc2.enable_bit(), 4);
}

#[test]
fn voltage_encode_decode_round_trips_on_every_rail() {
    for rail in [Rail::Dcdc1, Rail::Dcdc2, Rail::Dcdc3, Rail::Ldo2, Rail::Ldo3] {
        let c = rail.cfg();
        let mut mv = c.min_mv;
        while mv <= c.max_mv {
            let steps = steps_for(mv, c.min_mv, c.step_mv);
            assert_eq!(millivolts_for(steps, c.min_mv, c.step_mv), mv, "rail {rail:?} at {mv} mV");
            mv += c.step_mv;
        }
    }
}

#[test]
fn the_core2_target_voltages_encode_as_expected() {
    let c = Rail::Dcdc3.cfg();
    assert_eq!(steps_for(2800, c.min_mv, c.step_mv), 84);
    let c = Rail::Ldo2.cfg();
    assert_eq!(steps_for(3300, c.min_mv, c.step_mv), 15);
}

#[test]
fn setting_one_shared_ldo_preserves_the_other() {
    let ldo2 = Rail::Ldo2.cfg();
    let ldo3 = Rail::Ldo3.cfg();
    let ldo3_steps = steps_for(2900, ldo3.min_mv, ldo3.step_mv);
    let reg = pack_field(0, ldo3_steps, ldo3.lsb, ldo3.mask);
    assert_eq!(reg, 0x0B);
    let ldo2_steps = steps_for(3300, ldo2.min_mv, ldo2.step_mv);
    let reg = pack_field(reg, ldo2_steps, ldo2.lsb, ldo2.mask);
    assert_eq!(reg, 0xFB);
    assert_eq!(unpack_field(reg, ldo2.lsb, ldo2.mask), 0xF);
    assert_eq!(unpack_field(reg, ldo3.lsb, ldo3.mask), 0xB);
    assert_eq!(millivolts_for(unpack_field(reg, ldo3.lsb, ldo3.mask), ldo3.min_mv, ldo3.step_mv), 2900);
}

#[test]
fn pack_field_masks_overspill() {
    let c = Rail::Dcdc3.cfg();
    assert_eq!(pack_field(0xFF, 0xFF, c.lsb, c.mask) & !c.mask, 0x80);
    assert_eq!(pack_field(0x80, 0x00, c.lsb, c.mask), 0x80, "the reserved bit is preserved");
}

#[test]
fn a_voltage_outside_the_range_is_an_error_not_a_clamp() {
    let (min, max) = Rail::Ldo2.voltage_range();
    assert_eq!((min, max), (1800, 3300));
    let c = Rail::Ldo2.cfg();
    assert!(3300 <= c.max_mv);
    assert!(3400 > c.max_mv, "3400 mV must be rejected for LDO2");
    assert!(1700 < c.min_mv, "1700 mV must be rejected for LDO2");
}

#[test]
fn battery_voltage_decodes_at_1_1_millivolts_per_count() {
    let hi = 0xFFu16;
    let lo = 0x0Fu16;
    let counts = (hi << 4) | (lo & 0x0F);
    assert_eq!(counts, 4095);
    assert_eq!(counts * 11 / 10, 4504);
}

#[test]
fn the_status_bits_are_where_the_datasheet_puts_them() {
    assert_eq!(CHARGE_ACTIVE, 1 << 6);
    assert_eq!(BATTERY_PRESENT, 1 << 5);
    assert_eq!(ADC_BATTERY_V, 1 << 7);
    assert_eq!(ADC_BATTERY_I, 1 << 6);
}

#[test]
fn gpio_status_bit_is_the_index_minus_the_pair_base() {
    assert_eq!(1u8 << (3 - GPIO34_BASE), 1 << 0);
    assert_eq!(1u8 << (4 - GPIO34_BASE), 1 << 1);
    assert_eq!(REG_GPIO34_STATUS, 0x96);
    assert_eq!(REG_GPIO34_FUNCTION, 0x95);
}

fn apply(op: RegOp, before: u8) -> u8 {
    match op {
        RegOp::Update { clear, set, .. } => update(before, clear, set),
        RegOp::Write { value, .. } => value,
        RegOp::DelayMs(_) => before,
    }
}

#[test]
fn an_out_of_range_voltage_names_the_rail_and_the_request() {
    let axp = Axp192::new();
    assert_eq!(
        axp.set_rail_millivolts(Rail::Ldo2, 3400),
        Err(AxpError::VoltageOutOfRange { rail: Rail::Ldo2, millivolts: 3400 })
    );
    assert_eq!(
        axp.set_rail_millivolts(Rail::Ldo2, 1700),
        Err(AxpError::VoltageOutOfRange { rail: Rail::Ldo2, millivolts: 1700 })
    );
}

#[test]
fn a_set_voltage_reads_back() {
    let axp = Axp192::new();
    let op = axp.set_rail_millivolts(Rail::Dcdc3, 2800).unwrap();
    assert_eq!(op, RegOp::Update { reg: 0x27, clear: 0x7F, set: 84 });
    assert_eq!(apply(op, 0x80), 0x80 | 84);
    assert_eq!(axp.rail_millivolts(Rail::Dcdc3, apply(op, 0x80)), 2800);
}

#[test]
fn a_voltage_between_two_steps_is_rounded_down() {
    let axp = Axp192::new();
    let op = axp.set_rail_millivolts(Rail::Ldo3, 2999).unwrap();
    assert_eq!(axp.rail_millivolts(Rail::Ldo3, apply(op, 0xA0)), 2900);
    assert_eq!(apply(op, 0xA0) & 0xF0, 0xA0);
}

#[test]
fn switching_a_rail_touches_its_bit_alone() {
    let axp = Axp192::new();
    let on = axp.set_rail_enabled(Rail::Dcdc2, true);
    assert_eq!(on, RegOp::Update { reg: REG_OUTPUT_CTRL, clear: 0x10, set: 0x10 });
    assert_eq!(apply(on, 0x42), 0x52);
    assert!(axp.rail_enabled(Rail::Dcdc2, 0x52));
    let off = axp.set_rail_enabled(Rail::Dcdc2, false);
    assert_eq!(apply(off, 0xFF), 0xEF);
    assert!(!axp.rail_enabled(Rail::Dcdc2, 0xEF));
}

#[test]
fn the_battery_reports_its_voltage_and_its_presence() {
    let axp = Axp192::new();
    assert_eq!(axp.battery_millivolts(0xFF, 0x0F), 4504);
    assert_eq!(axp.battery_millivolts(0xFF, 0xFF), 4504);
    assert_eq!(axp.battery_millivolts(0, 9), 9);
    assert!(axp.battery_present(0x20));
    assert!(!axp.battery_present(0xDF));
    assert!(axp.charging(0x40));
    assert!(!axp.charging(0xBF));
    assert_eq!(
        axp.enable_battery_adc(),
        RegOp::Update { reg: REG_ADC_ENABLE_1, clear: 0, set: 0xC0 }
    );
}

#[test]
fn only_the_wired_pins_can_be_driven() {
    let axp = Axp192::new();
    assert_eq!(
        axp.set_gpio(4, true),
        Ok(RegOp::Update { reg: REG_GPIO34_STATUS, clear: 2, set: 2 })
    );
    assert_eq!(
        axp.set_gpio(3, false),
        Ok(RegOp::Update { reg: REG_GPIO34_STATUS, clear: 1, set: 0 })
    );
    assert_eq!(axp.set_gpio(2, true), Err(AxpError::UnsupportedGpio(2)));
    assert_eq!(axp.set_gpio(5, true), Err(AxpError::UnsupportedGpio(5)));
    let op = axp.set_gpio_open_drain_output(4).unwrap();
    assert_eq!(apply(op, 0xFF), 0xF6);
    assert_eq!(axp.set_gpio_open_drain_output(3), Err(AxpError::UnsupportedGpio(3)));
}

#[test]
fn a_bus_error_is_carried_as_it_is() {
    assert_eq!(AxpError::from(BusError::InvalidConfig), AxpError::Bus(BusError::InvalidConfig));
}
