//! Device drivers that know a part and nothing of the chip or board around it.

use vstd::prelude::*;

pub mod axp192;
pub mod bme280;
pub mod bme280_laws;
pub mod bmi270;
pub mod ft6336u;
pub mod ili9342c;
pub mod ssd1306;
pub mod ws2812;
pub mod mpu6886;

verus! {

/// One access to a part's byte registers. A list of them is performed in order,
/// up to the first that fails.
#[derive(Clone, Copy, Debug, PartialEq, Eq, Structural)]
pub enum RegOp {
    Write { reg: u8, value: u8 },
    /// Reads the register and writes it back with the bits of `clear` cleared and
    /// those of `set` set.
    Update { reg: u8, clear: u8, set: u8 },
    DelayMs(u32),
}

/// What an update writes where it has read `value`.
pub open spec fn updated(value: u8, clear: u8, set: u8) -> u8 {
    (value & !clear) | set
}

/// What an update writes where it has read `value`.
pub fn update(value: u8, clear: u8, set: u8) -> (r: u8)
    ensures
        r == updated(value, clear, set),
{
    (value & !clear) | set
}

} // verus!
