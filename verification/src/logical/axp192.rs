//! X-Powers AXP192, a power-management IC with five switchable rails.

use vstd::prelude::*;

use super::RegOp;
use crate::bus::BusError;

verus! {

/// I2C address of the part.
pub const ADDR: u8 = 0x34;

/// Power status: input-source presence and battery current direction.
pub const REG_POWER_STATUS: u8 = 0x00;
/// Charge status: charging indication and battery presence.
pub const REG_CHARGE_STATUS: u8 = 0x01;
/// Output control, one enable bit per rail.
pub const REG_OUTPUT_CTRL: u8 = 0x12;
/// Battery-voltage ADC, high 8 bits, then low 4 bits.
pub const REG_BAT_VOLTAGE_HI: u8 = 0x78;
pub const REG_BAT_VOLTAGE_LO: u8 = 0x79;
/// ADC enable 1: bit 7 battery voltage, bit 6 battery current.
pub const REG_ADC_ENABLE_1: u8 = 0x82;
/// Function control and output status of the pin pair GPIO3 and GPIO4.
pub const REG_GPIO34_FUNCTION: u8 = 0x95;
pub const REG_GPIO34_STATUS: u8 = 0x96;
/// The lowest index the pin pair covers.
pub const GPIO34_BASE: u8 = 3;

/// What selecting open-drain output for GPIO4 keeps of the function register,
/// and what it sets there.
pub const GPIO34_FUNC_PRESERVE: u8 = 0x72;
pub const GPIO4_OPEN_DRAIN_OUTPUT: u8 = 0x84;

/// The charger is active.
pub const CHARGE_ACTIVE: u8 = 1 << 6;
/// A battery is connected.
pub const BATTERY_PRESENT: u8 = 1 << 5;
/// The battery voltage and current ADCs.
pub const ADC_BATTERY_V: u8 = 1 << 7;
pub const ADC_BATTERY_I: u8 = 1 << 6;

/// One of the five outputs.
#[derive(Clone, Copy, Debug, PartialEq, Eq, Structural)]
pub enum Rail {
    Dcdc1,
    Dcdc2,
    Dcdc3,
    Ldo2,
    Ldo3,
}

/// How a rail is enabled and how its voltage is encoded.
#[derive(Clone, Copy, Debug, PartialEq, Eq, Structural)]
pub struct RailCfg {
    pub enable_bit: u8,
    pub min_mv: u16,
    pub max_mv: u16,
    pub step_mv: u16,
    pub voltage_reg: u8,
    /// Where the value's lowest bit lies in the register.
    pub lsb: u8,
    /// The register's bits that belong to the rail.
    pub mask: u8,
}

/// The part's table of rails. LDO2 and LDO3 share a register.
pub open spec fn rail_table(rail: Rail) -> RailCfg {
    match rail {
        Rail::Dcdc1 => RailCfg {
            enable_bit: 0,
            min_mv: 700,
            max_mv: 3500,
            step_mv: 25,
            voltage_reg: 0x26,
            lsb: 0,
            mask: 0x7F,
        },
        Rail::Dcdc2 => RailCfg {
            enable_bit: 4,
            min_mv: 700,
            max_mv: 2275,
            step_mv: 25,
            voltage_reg: 0x23,
            lsb: 0,
            mask: 0x3F,
        },
        Rail::Dcdc3 => RailCfg {
            enable_bit: 1,
            min_mv: 700,
            max_mv: 3500,
            step_mv: 25,
            voltage_reg: 0x27,
            lsb: 0,
            mask: 0x7F,
        },
        Rail::Ldo2 => RailCfg {
            enable_bit: 2,
            min_mv: 1800,
            max_mv: 3300,
            step_mv: 100,
            voltage_reg: 0x28,
            lsb: 4,
            mask: 0xF0,
        },
        Rail::Ldo3 => RailCfg {
            enable_bit: 3,
            min_mv: 1800,
            max_mv: 3300,
            step_mv: 100,
            voltage_reg: 0x28,
            lsb: 0,
            mask: 0x0F,
        },
    }
}

impl Rail {
    /// The bit of the output-control register that enables the rail.
    pub fn enable_bit(self) -> (bit: u8)
        ensures
            bit == rail_table(self).enable_bit,
            bit < 8,
    {
        self.cfg().enable_bit
    }

    pub fn cfg(self) -> (cfg: RailCfg)
        ensures
            cfg == rail_table(self),
    {
        match self {
            Rail::Dcdc1 => RailCfg {
                enable_bit: 0,
                min_mv: 700,
                max_mv: 3500,
                step_mv: 25,
                voltage_reg: 0x26,
                lsb: 0,
                mask: 0x7F,
            },
            Rail::Dcdc2 => RailCfg {
                enable_bit: 4,
                min_mv: 700,
                max_mv: 2275,
                step_mv: 25,
                voltage_reg: 0x23,
                lsb: 0,
                mask: 0x3F,
            },
            Rail::Dcdc3 => RailCfg {
                enable_bit: 1,
                min_mv: 700,
                max_mv: 3500,
                step_mv: 25,
                voltage_reg: 0x27,
                lsb: 0,
                mask: 0x7F,
            },
            Rail::Ldo2 => RailCfg {
                enable_bit: 2,
                min_mv: 1800,
                max_mv: 3300,
                step_mv: 100,
                voltage_reg: 0x28,
                lsb: 4,
                mask: 0xF0,
            },
            Rail::Ldo3 => RailCfg {
                enable_bit: 3,
                min_mv: 1800,
                max_mv: 3300,
                step_mv: 100,
                voltage_reg: 0x28,
                lsb: 0,
                mask: 0x0F,
            },
        }
    }

    /// The millivolts the rail can be set to, both ends included.
    pub fn voltage_range(self) -> (range: (u16, u16))
        ensures
            range == (rail_table(self).min_mv, rail_table(self).max_mv),
    {
        let c = self.cfg();
        (c.min_mv, c.max_mv)
    }
}

/// Millivolts as a count of steps above the minimum, rounded down.
pub fn steps_for(millivolts: u16, min_mv: u16, step_mv: u16) -> (steps: u8)
    requires
        min_mv <= millivolts,
        step_mv > 0,
    ensures
        steps == ((millivolts - min_mv) / step_mv as int) as u8,
{
    ((millivolts - min_mv) / step_mv) as u8
}

/// A count of steps as millivolts.
pub fn millivolts_for(steps: u8, min_mv: u16, step_mv: u16) -> (millivolts: u16)
    requires
        min_mv + steps * step_mv <= u16::MAX,
    ensures
        millivolts == min_mv + steps * step_mv,
{
    proof {
        assert(0 <= steps * step_mv) by (nonlinear_arith);
    }
    min_mv + steps as u16 * step_mv
}

/// `reg` with the field of `mask` holding `value`, whose lowest bit goes to `lsb`;
/// what does not fit the field is dropped.
pub open spec fn packed(reg: u8, value: u8, lsb: u8, mask: u8) -> u8 {
    (reg & !mask) | ((value << lsb) & mask)
}

/// The field of `mask` in `reg`.
pub open spec fn unpacked(reg: u8, lsb: u8, mask: u8) -> u8 {
    (reg & mask) >> lsb
}

/// Places `value` into the field of `mask`, leaving the other bits as they are.
pub fn pack_field(reg: u8, value: u8, lsb: u8, mask: u8) -> (r: u8)
    requires
        lsb < 8,
    ensures
        r == packed(reg, value, lsb, mask),
{
    (reg & !mask) | ((value << lsb) & mask)
}

/// Extracts the field of `mask`.
pub fn unpack_field(reg: u8, lsb: u8, mask: u8) -> (r: u8)
    requires
        lsb < 8,
    ensures
        r == unpacked(reg, lsb, mask),
{
    (reg & mask) >> lsb
}

/// Why an operation failed.
#[derive(Clone, Copy, Debug, PartialEq, Eq, Structural)]
pub enum AxpError {
    Bus(BusError),
    /// The rail cannot be set to this; it is not clamped.
    VoltageOutOfRange { rail: Rail, millivolts: u16 },
    /// Only GPIO3 and GPIO4 are wired, GPIO4 alone as an open-drain output.
    UnsupportedGpio(u8),
}

impl From<BusError> for AxpError {
    fn from(e: BusError) -> (r: Self) {
        AxpError::Bus(e)
    }
}

impl vstd::std_specs::convert::FromSpecImpl<BusError> for AxpError {
    open spec fn obeys_from_spec() -> bool {
        true
    }

    open spec fn from_spec(e: BusError) -> AxpError {
        AxpError::Bus(e)
    }
}

/// The rail's enable bit as a mask.
pub open spec fn enable_mask(rail: Rail) -> u8 {
    1u8 << rail_table(rail).enable_bit
}

/// The steps that encode a voltage in the rail's range.
pub open spec fn rail_steps(rail: Rail, millivolts: u16) -> int {
    (millivolts - rail_table(rail).min_mv) / rail_table(rail).step_mv as int
}

/// The voltage that a register value encodes for the rail.
pub open spec fn rail_reading(rail: Rail, reg: u8) -> int {
    let c = rail_table(rail);
    c.min_mv + unpacked(reg, c.lsb, c.mask) * c.step_mv
}

/// The access that switches a rail.
pub open spec fn switching(rail: Rail, on: bool) -> RegOp {
    RegOp::Update {
        reg: REG_OUTPUT_CTRL,
        clear: enable_mask(rail),
        set: if on {
            enable_mask(rail)
        } else {
            0
        },
    }
}

/// The access that sets a rail's voltage, where the rail can have it.
pub open spec fn setting(rail: Rail, millivolts: u16) -> Result<RegOp, AxpError> {
    let c = rail_table(rail);
    if c.min_mv <= millivolts <= c.max_mv {
        Ok(
            RegOp::Update {
                reg: c.voltage_reg,
                clear: c.mask,
                set: ((rail_steps(rail, millivolts) as u8) << c.lsb) & c.mask,
            },
        )
    } else {
        Err(AxpError::VoltageOutOfRange { rail, millivolts })
    }
}

/// The access that makes a pin an open-drain output.
pub open spec fn draining(gpio: u8) -> Result<RegOp, AxpError> {
    if gpio == 4 {
        Ok(
            RegOp::Update {
                reg: REG_GPIO34_FUNCTION,
                clear: !GPIO34_FUNC_PRESERVE,
                set: GPIO4_OPEN_DRAIN_OUTPUT,
            },
        )
    } else {
        Err(AxpError::UnsupportedGpio(gpio))
    }
}

/// The access that floats a pin or pulls it to ground.
pub open spec fn driving(gpio: u8, high: bool) -> Result<RegOp, AxpError> {
    if GPIO34_BASE <= gpio <= 4 {
        let bit = 1u8 << (gpio - GPIO34_BASE) as u8;
        Ok(
            RegOp::Update {
                reg: REG_GPIO34_STATUS,
                clear: bit,
                set: if high {
                    bit
                } else {
                    0
                },
            },
        )
    } else {
        Err(AxpError::UnsupportedGpio(gpio))
    }
}

/// The battery's millivolts.
pub open spec fn battery_reading(high: u8, low: u8) -> int {
    (16 * high + low % 16) * 11 / 10
}

/// A battery is connected.
pub open spec fn connected(charge_status: u8) -> bool {
    charge_status & BATTERY_PRESENT != 0
}

/// The charger is active.
pub open spec fn being_charged(charge_status: u8) -> bool {
    charge_status & CHARGE_ACTIVE != 0
}

/// The part. Each method that changes it gives the register access to perform;
/// each that reads it takes the register's value.
#[derive(Clone, Copy, Debug)]
pub struct Axp192 {}

impl Axp192 {
    pub fn new() -> (axp: Self)
        ensures
            axp == (Axp192 {  }),
    {
        Axp192 {  }
    }

    /// Enables or disables a rail and leaves the others' bits alone.
    pub fn set_rail_enabled(&self, rail: Rail, on: bool) -> (op: RegOp)
        ensures
            op == switching(rail, on),
    {
        let bit: u8 = 1 << rail.enable_bit();
        RegOp::Update { reg: REG_OUTPUT_CTRL, clear: bit, set: if on { bit } else { 0 } }
    }

    /// Whether the rail is enabled, by the output-control register.
    pub fn rail_enabled(&self, rail: Rail, output_ctrl: u8) -> (on: bool)
        ensures
            on == (output_ctrl & enable_mask(rail) != 0),
    {
        output_ctrl & (1 << rail.enable_bit()) != 0
    }

    /// Sets a rail's voltage, rounded down to its step.
    pub fn set_rail_millivolts(&self, rail: Rail, millivolts: u16) -> (r: Result<RegOp, AxpError>)
        ensures
            r == setting(rail, millivolts),
    {
        let c = rail.cfg();
        if millivolts < c.min_mv || millivolts > c.max_mv {
            return Err(AxpError::VoltageOutOfRange { rail, millivolts });
        }
        let steps: u8 = steps_for(millivolts, c.min_mv, c.step_mv);
        Ok(RegOp::Update { reg: c.voltage_reg, clear: c.mask, set: (steps << c.lsb) & c.mask })
    }

    /// The rail's voltage, by its voltage register.
    pub fn rail_millivolts(&self, rail: Rail, reg: u8) -> (millivolts: u16)
        ensures
            millivolts == rail_reading(rail, reg),
    {
        let c = rail.cfg();
        let steps: u8 = unpack_field(reg, c.lsb, c.mask);
        proof {
            lemma_field_bound(reg);
        }
        millivolts_for(steps, c.min_mv, c.step_mv)
    }

    /// Whether a battery is connected, by the charge-status register.
    pub fn battery_present(&self, charge_status: u8) -> (b: bool)
        ensures
            b == connected(charge_status),
    {
        charge_status & BATTERY_PRESENT != 0
    }

    /// Whether the charger is active, by the charge-status register.
    pub fn charging(&self, charge_status: u8) -> (b: bool)
        ensures
            b == being_charged(charge_status),
    {
        charge_status & CHARGE_ACTIVE != 0
    }

    /// Switches the battery voltage and current ADCs on.
    pub fn enable_battery_adc(&self) -> (op: RegOp)
        ensures
            op == (RegOp::Update {
                reg: REG_ADC_ENABLE_1,
                clear: 0,
                set: ADC_BATTERY_V | ADC_BATTERY_I,
            }),
    {
        RegOp::Update { reg: REG_ADC_ENABLE_1, clear: 0, set: ADC_BATTERY_V | ADC_BATTERY_I }
    }

    /// Makes `gpio` an open-drain output.
    pub fn set_gpio_open_drain_output(&self, gpio: u8) -> (r: Result<RegOp, AxpError>)
        ensures
            r == draining(gpio),
    {
        if gpio != 4 {
            return Err(AxpError::UnsupportedGpio(gpio));
        }
        Ok(
            RegOp::Update {
                reg: REG_GPIO34_FUNCTION,
                clear: !GPIO34_FUNC_PRESERVE,
                set: GPIO4_OPEN_DRAIN_OUTPUT,
            },
        )
    }

    /// Floats `gpio` or pulls it to ground.
    pub fn set_gpio(&self, gpio: u8, high: bool) -> (r: Result<RegOp, AxpError>)
        ensures
            r == driving(gpio, high),
    {
        if gpio < GPIO34_BASE || gpio > 4 {
            return Err(AxpError::UnsupportedGpio(gpio));
        }
        let bit: u8 = 1 << (gpio - GPIO34_BASE);
        Ok(RegOp::Update { reg: REG_GPIO34_STATUS, clear: bit, set: if high { bit } else { 0 } })
    }

    /// The battery's millivolts, by the two ADC registers: twelve bits at 1.1 mV.
    pub fn battery_millivolts(&self, high: u8, low: u8) -> (millivolts: u16)
        ensures
            millivolts == battery_reading(high, low),
    {
        let counts: u16 = 16 * (high as u16) + (low % 16) as u16;
        counts * 11 / 10
    }
}

proof fn lemma_field_bound(reg: u8)
    by (bit_vector)
    ensures
        (reg & 0x7F) >> 0u8 <= 0x7F,
        (reg & 0x3F) >> 0u8 <= 0x3F,
        (reg & 0xF0) >> 4u8 <= 0x0F,
        (reg & 0x0F) >> 0u8 <= 0x0F,
        (reg & 0x7F) >> 0u8 == reg % 128,
        (reg & 0x3F) >> 0u8 == reg % 64,
        (reg & 0xF0) >> 4u8 == reg / 16,
        (reg & 0x0F) >> 0u8 == reg % 16,
        (reg & (1u8 << 5) != 0) == (reg / 32 % 2 == 1),
        (reg & (1u8 << 6) != 0) == (reg / 64 % 2 == 1),
        1u8 << 0u8 == 1,
        1u8 << 1u8 == 2,
        1u8 << 2u8 == 4,
        1u8 << 3u8 == 8,
        1u8 << 4u8 == 16,
        ((reg & !(1u8 << 0u8)) | (1u8 << 0u8)) % 2 == 1,
        ((reg & !(1u8 << 0u8)) | 0) % 2 == 0,
        ((reg & !(1u8 << 0u8)) | (1u8 << 0u8)) / 2 == reg / 2,
        ((reg & !(1u8 << 0u8)) | 0) / 2 == reg / 2,
        ((reg & !(1u8 << 1u8)) | (1u8 << 1u8)) / 2 % 2 == 1,
        ((reg & !(1u8 << 1u8)) | 0) / 2 % 2 == 0,
        ((reg & !(1u8 << 1u8)) | (1u8 << 1u8)) % 2 == reg % 2,
        ((reg & !(1u8 << 1u8)) | 0) % 2 == reg % 2,
        ((reg & !(1u8 << 1u8)) | (1u8 << 1u8)) / 4 == reg / 4,
        ((reg & !(1u8 << 1u8)) | 0) / 4 == reg / 4,
        ((reg & !(!0x72u8)) | 0x84) == (reg & 0x72) | 0x84,
{
}

proof fn lemma_field_round_trip(cur: u8, steps: u8)
    by (bit_vector)
    ensures
        steps <= 0x7F ==> (((cur & !0x7Fu8) | ((steps << 0u8) & 0x7F)) & 0x7F) >> 0u8 == steps,
        steps <= 0x3F ==> (((cur & !0x3Fu8) | ((steps << 0u8) & 0x3F)) & 0x3F) >> 0u8 == steps,
        steps <= 0x0F ==> (((cur & !0xF0u8) | ((steps << 4u8) & 0xF0)) & 0xF0) >> 4u8 == steps,
        steps <= 0x0F ==> (((cur & !0x0Fu8) | ((steps << 0u8) & 0x0F)) & 0x0F) >> 0u8 == steps,
        (((cur & !0xF0u8) | ((steps << 4u8) & 0xF0)) & 0x0F) == cur & 0x0F,
        (((cur & !0x0Fu8) | ((steps << 0u8) & 0x0F)) & 0xF0) == cur & 0xF0,
{
}

/// A rail set to a voltage in its range reads back as that voltage, rounded down
/// to the rail's step, whatever the register held before.
pub proof fn law_voltage_reads_back(rail: Rail, millivolts: u16, before: u8)
    requires
        rail_table(rail).min_mv <= millivolts <= rail_table(rail).max_mv,
    ensures
        ({
            let c = rail_table(rail);
            let after = super::updated(
                before,
                c.mask,
                ((rail_steps(rail, millivolts) as u8) << c.lsb) & c.mask,
            );
            &&& after == packed(before, rail_steps(rail, millivolts) as u8, c.lsb, c.mask)
            &&& rail_reading(rail, after) <= millivolts < rail_reading(rail, after) + c.step_mv
            &&& (millivolts - c.min_mv) % c.step_mv as int == 0 ==> rail_reading(rail, after)
                == millivolts
        }),
{
    let c = rail_table(rail);
    let steps = rail_steps(rail, millivolts);
    match rail {
        Rail::Dcdc1 => assert(0 <= steps <= 0x7F),
        Rail::Dcdc2 => assert(0 <= steps <= 0x3F),
        Rail::Dcdc3 => assert(0 <= steps <= 0x7F),
        Rail::Ldo2 => assert(0 <= steps <= 0x0F),
        Rail::Ldo3 => assert(0 <= steps <= 0x0F),
    }
    lemma_field_round_trip(before, steps as u8);
}

/// Setting one of the two LDOs that share a register leaves the other's voltage.
pub proof fn law_shared_register_keeps_the_other_ldo(steps: u8, before: u8)
    ensures
        ({
            let ldo2 = rail_table(Rail::Ldo2);
            let ldo3 = rail_table(Rail::Ldo3);
            &&& rail_reading(Rail::Ldo3, packed(before, steps, ldo2.lsb, ldo2.mask))
                == rail_reading(Rail::Ldo3, before)
            &&& rail_reading(Rail::Ldo2, packed(before, steps, ldo3.lsb, ldo3.mask))
                == rail_reading(Rail::Ldo2, before)
        }),
{
    lemma_field_round_trip(before, steps);
}

proof fn lemma_enable_bits(cur: u8, a: u8, b: u8)
    by (bit_vector)
    requires
        a < 8,
        b < 8,
        a != b,
    ensures
        ((cur & !(1u8 << a)) | (1u8 << a)) & (1u8 << a) != 0,
        ((cur & !(1u8 << a)) | 0) & (1u8 << a) == 0,
        ((cur & !(1u8 << a)) | (1u8 << a)) & (1u8 << b) == cur & (1u8 << b),
        ((cur & !(1u8 << a)) | 0) & (1u8 << b) == cur & (1u8 << b),
{
}

/// Switching a rail does what was asked of it and leaves every other rail alone.
pub proof fn law_switching_a_rail_keeps_the_others(rail: Rail, other: Rail, on: bool, before: u8)
    requires
        rail != other,
    ensures
        ({
            let after = super::updated(
                before,
                enable_mask(rail),
                if on {
                    enable_mask(rail)
                } else {
                    0
                },
            );
            &&& (after & enable_mask(rail) != 0) == on
            &&& after & enable_mask(other) == before & enable_mask(other)
        }),
{
    lemma_enable_bits(before, rail_table(rail).enable_bit, rail_table(other).enable_bit);
}

/// A register's value is the voltage of the datasheet's tables: 25 mV steps above 700 mV,
/// 100 mV steps above 1800 mV, LDO2 in the upper half of the register that it shares.
pub proof fn law_a_voltage_is_the_datasheets(reg: u8)
    ensures
        rail_reading(Rail::Dcdc1, reg) == 700 + 25 * (reg % 128),
        rail_reading(Rail::Dcdc2, reg) == 700 + 25 * (reg % 64),
        rail_reading(Rail::Dcdc3, reg) == 700 + 25 * (reg % 128),
        rail_reading(Rail::Ldo2, reg) == 1800 + 100 * (reg / 16),
        rail_reading(Rail::Ldo3, reg) == 1800 + 100 * (reg % 16),
{
    lemma_field_bound(reg);
}

/// The register of a rail's voltage.
pub open spec fn voltage_register(rail: Rail) -> u8 {
    match rail {
        Rail::Dcdc1 => 0x26,
        Rail::Dcdc2 => 0x23,
        Rail::Dcdc3 => 0x27,
        Rail::Ldo2 => 0x28,
        Rail::Ldo3 => 0x28,
    }
}

/// A voltage is set where the rail can have it, both ends included, and refused in so many
/// words elsewhere. The register then reads as that voltage, rounded down to the step, and
/// the other rail's share of the register is as it was.
pub proof fn law_a_voltage_is_set_or_refused(rail: Rail, millivolts: u16, before: u8)
    ensures
        ({
            let (low, high, step) = match rail {
                Rail::Dcdc1 => (700int, 3500int, 25int),
                Rail::Dcdc2 => (700int, 2275int, 25int),
                Rail::Dcdc3 => (700int, 3500int, 25int),
                Rail::Ldo2 => (1800int, 3300int, 100int),
                Rail::Ldo3 => (1800int, 3300int, 100int),
            };
            match setting(rail, millivolts) {
                Ok(RegOp::Update { reg, clear, set }) => {
                    let now = rail_reading(rail, super::updated(before, clear, set));
                    &&& low <= millivolts <= high
                    &&& reg == voltage_register(rail)
                    &&& now <= millivolts < now + step
                    &&& rail is Ldo2 ==> rail_reading(
                        Rail::Ldo3,
                        super::updated(before, clear, set),
                    ) == rail_reading(Rail::Ldo3, before)
                    &&& rail is Ldo3 ==> rail_reading(
                        Rail::Ldo2,
                        super::updated(before, clear, set),
                    ) == rail_reading(Rail::Ldo2, before)
                },
                Ok(_) => false,
                Err(e) => !(low <= millivolts <= high) && e == (AxpError::VoltageOutOfRange {
                    rail,
                    millivolts,
                }),
            }
        }),
{
    let c = rail_table(rail);
    if c.min_mv <= millivolts <= c.max_mv {
        law_voltage_reads_back(rail, millivolts, before);
        law_shared_register_keeps_the_other_ldo(rail_steps(rail, millivolts) as u8, before);
    }
}

/// The rails' enable bits are the datasheet's.
pub proof fn law_a_rail_has_its_own_switch(on: bool)
    ensures
        switching(Rail::Dcdc1, on) == (RegOp::Update {
            reg: 0x12,
            clear: 1,
            set: if on { 1 } else { 0 },
        }),
        switching(Rail::Dcdc3, on) == (RegOp::Update {
            reg: 0x12,
            clear: 2,
            set: if on { 2 } else { 0 },
        }),
        switching(Rail::Ldo2, on) == (RegOp::Update {
            reg: 0x12,
            clear: 4,
            set: if on { 4 } else { 0 },
        }),
        switching(Rail::Ldo3, on) == (RegOp::Update {
            reg: 0x12,
            clear: 8,
            set: if on { 8 } else { 0 },
        }),
        switching(Rail::Dcdc2, on) == (RegOp::Update {
            reg: 0x12,
            clear: 16,
            set: if on { 16 } else { 0 },
        }),
{
    lemma_field_bound(0);
}

/// A pin follows what was asked of it, and the pin that shares its register stays; there
/// are two pins.
pub proof fn law_a_pin_is_driven_alone(gpio: u8, high: bool, before: u8)
    ensures
        match driving(gpio, high) {
            Ok(RegOp::Update { reg, clear, set }) => {
                let now = super::updated(before, clear, set);
                &&& gpio == 3 || gpio == 4
                &&& reg == 0x96
                &&& gpio == 3 ==> (now % 2 == 1) == high && now / 2 == before / 2
                &&& gpio == 4 ==> (now / 2 % 2 == 1) == high && now % 2 == before % 2 && now / 4
                    == before / 4
            },
            Ok(_) => false,
            Err(e) => gpio != 3 && gpio != 4 && e == AxpError::UnsupportedGpio(gpio),
        },
{
    lemma_field_bound(before);
}

/// Making GPIO4 an open-drain output keeps what belongs to others in its register.
pub proof fn law_a_pin_is_made_an_output_alone(gpio: u8, before: u8)
    ensures
        match draining(gpio) {
            Ok(RegOp::Update { reg, clear, set }) => gpio == 4 && reg == 0x95 && super::updated(
                before,
                clear,
                set,
            ) == (before & 0x72) | 0x84,
            Ok(_) => false,
            Err(e) => gpio != 4 && e == AxpError::UnsupportedGpio(gpio),
        },
{
    lemma_field_bound(before);
}

/// Twelve bits come as eight and four, and one is worth 1.1 mV.
pub proof fn law_a_battery_count_is_1100_microvolts(count: int, spare: int)
    requires
        0 <= count < 4096,
        0 <= spare < 16,
    ensures
        ({
            let told = battery_reading((count / 16) as u8, (16 * spare + count % 16) as u8);
            0 <= 1100 * count - 1000 * told < 1000
        }),
{
    let low = (16 * spare + count % 16) as u8;
    assert(low % 16 == count % 16);
}

/// The charge status tells of a battery in bit 5 and of the charger in bit 6.
pub proof fn law_the_charge_status_is_read_bit_by_bit(status: u8)
    ensures
        connected(status) == (status / 32 % 2 == 1),
        being_charged(status) == (status / 64 % 2 == 1),
{
    lemma_field_bound(status);
}

} // verus!
