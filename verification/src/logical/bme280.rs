//! Bosch BME280 and BMP280: temperature, pressure and, on the former, humidity.
//!
//! A reading is either computed from raw counts by the manufacturer's
//! compensation formulas or refused; none is made up.

use vstd::prelude::*;

use crate::bus::BusError;
use crate::math::{byte_to_signed, bytes_to_signed, div_i64};

verus! {

pub const REG_ID: u8 = 0xD0;
pub const REG_RESET: u8 = 0xE0;
pub const REG_CTRL_HUM: u8 = 0xF2;
pub const REG_CTRL_MEAS: u8 = 0xF4;
pub const REG_CONFIG: u8 = 0xF5;
/// A burst from here gives pressure, temperature and, where there is a sensor for
/// it, humidity.
pub const REG_PRESS_MSB: u8 = 0xF7;
/// The first trim block: temperature, pressure, a reserved byte and `dig_h1`.
pub const REG_CALIB_00: u8 = 0x88;
/// The second trim block: the rest of humidity.
pub const REG_CALIB_26: u8 = 0xE1;

pub const CHIP_ID_BME280: u8 = 0x60;
pub const CHIP_ID_BMP280: u8 = 0x58;

/// The command that resets the part.
pub const RESET_COMMAND: u8 = 0xB6;
/// Humidity oversampling of one.
pub const HUM_X1: u8 = 0x01;
/// Temperature and pressure oversampling of one, normal mode.
pub const MEAS_NORMAL: u8 = 0x27;
/// A second between measurements, filter off.
pub const CONFIG_STANDBY: u8 = 0xA0;

/// How the part is wired: registers are addressed differently.
#[derive(Clone, Copy, Debug, PartialEq, Eq, Structural)]
pub enum Transport {
    I2c,
    Spi,
}

/// Which part answered.
#[derive(Clone, Copy, Debug, PartialEq, Eq, Structural)]
pub enum Variant {
    Bme280,
    /// Has no humidity sensor.
    Bmp280,
}

/// The factory's trim values.
#[derive(Clone, Copy, Debug, PartialEq, Eq, Structural)]
pub struct Calibration {
    pub dig_t1: u16,
    pub dig_t2: i16,
    pub dig_t3: i16,
    pub dig_p1: u16,
    pub dig_p2: i16,
    pub dig_p3: i16,
    pub dig_p4: i16,
    pub dig_p5: i16,
    pub dig_p6: i16,
    pub dig_p7: i16,
    pub dig_p8: i16,
    pub dig_p9: i16,
    pub dig_h1: u8,
    pub dig_h2: i16,
    pub dig_h3: u8,
    pub dig_h4: i16,
    pub dig_h5: i16,
    pub dig_h6: i8,
}

/// All trim values zero.
pub open spec fn zero_calibration() -> Calibration {
    Calibration {
        dig_t1: 0,
        dig_t2: 0,
        dig_t3: 0,
        dig_p1: 0,
        dig_p2: 0,
        dig_p3: 0,
        dig_p4: 0,
        dig_p5: 0,
        dig_p6: 0,
        dig_p7: 0,
        dig_p8: 0,
        dig_p9: 0,
        dig_h1: 0,
        dig_h2: 0,
        dig_h3: 0,
        dig_h4: 0,
        dig_h5: 0,
        dig_h6: 0,
    }
}

impl Default for Calibration {
    fn default() -> (c: Self)
        ensures
            c == zero_calibration(),
    {
        Calibration {
            dig_t1: 0,
            dig_t2: 0,
            dig_t3: 0,
            dig_p1: 0,
            dig_p2: 0,
            dig_p3: 0,
            dig_p4: 0,
            dig_p5: 0,
            dig_p6: 0,
            dig_p7: 0,
            dig_p8: 0,
            dig_p9: 0,
            dig_h1: 0,
            dig_h2: 0,
            dig_h3: 0,
            dig_h4: 0,
            dig_h5: 0,
            dig_h6: 0,
        }
    }
}

/// Two bytes as a word, low one first.
pub open spec fn word(b: Seq<u8>, at: int) -> u16 {
    (b[at] + 0x100 * b[at + 1]) as u16
}

/// Two bytes as a signed word, low one first.
pub open spec fn signed_word(b: Seq<u8>, at: int) -> i16 {
    crate::math::signed16(b[at], b[at + 1]) as i16
}

/// The trim values of a part: the first block, and the humidity block where there
/// is a humidity sensor. `dig_h4` and `dig_h5` are twelve bits each and share a
/// byte.
pub open spec fn calibration_of(variant: Variant, low: Seq<u8>, high: Seq<u8>) -> Calibration {
    let humid = variant == Variant::Bme280;
    Calibration {
        dig_t1: word(low, 0),
        dig_t2: signed_word(low, 2),
        dig_t3: signed_word(low, 4),
        dig_p1: word(low, 6),
        dig_p2: signed_word(low, 8),
        dig_p3: signed_word(low, 10),
        dig_p4: signed_word(low, 12),
        dig_p5: signed_word(low, 14),
        dig_p6: signed_word(low, 16),
        dig_p7: signed_word(low, 18),
        dig_p8: signed_word(low, 20),
        dig_p9: signed_word(low, 22),
        dig_h1: low[25],
        dig_h2: if humid {
            signed_word(high, 0)
        } else {
            0
        },
        dig_h3: if humid {
            high[2]
        } else {
            0
        },
        dig_h4: if humid {
            (crate::math::signed8(high[3]) * 16 + high[4] % 16) as i16
        } else {
            0
        },
        dig_h5: if humid {
            (crate::math::signed8(high[5]) * 16 + high[4] / 16) as i16
        } else {
            0
        },
        dig_h6: if humid {
            crate::math::signed8(high[6]) as i8
        } else {
            0
        },
    }
}

/// A twenty-bit count from its three bytes.
pub open spec fn count20(msb: u8, lsb: u8, xlsb: u8) -> int {
    msb * 4096 + lsb * 16 + xlsb / 16
}

/// A twenty-bit count from its three bytes.
pub fn raw20(msb: u8, lsb: u8, xlsb: u8) -> (r: i32)
    ensures
        r == count20(msb, lsb, xlsb),
{
    msb as i32 * 4096 + lsb as i32 * 16 + (xlsb / 16) as i32
}

/// What an `i32` holds.
pub open spec fn fits32(x: int) -> bool {
    i32::MIN <= x <= i32::MAX
}

/// What an `i64` holds.
pub open spec fn fits64(x: int) -> bool {
    i64::MIN <= x <= i64::MAX
}

// Temperature.

/// The linear term before scaling.
pub open spec fn temp_linear(c: Calibration, adc: int) -> int {
    adc / 8 - c.dig_t1 * 2
}

/// The deviation from the reference count.
pub open spec fn temp_offset(c: Calibration, adc: int) -> int {
    adc / 16 - c.dig_t1
}

/// The fine temperature that the other formulas build on.
pub open spec fn fine_temperature(c: Calibration, adc: int) -> int {
    temp_linear(c, adc) * c.dig_t2 / 2048 + temp_offset(c, adc) * temp_offset(c, adc) / 4096
        * c.dig_t3 / 16384
}

/// The temperature in hundredths of a degree.
pub open spec fn centi_degrees(fine: int) -> int {
    (fine * 5 + 128) / 256
}

/// Every intermediate of the temperature formula fits an `i32`.
pub open spec fn temperature_fits(c: Calibration, adc: int) -> bool {
    let offset = temp_offset(c, adc);
    let fine = fine_temperature(c, adc);
    &&& fits32(temp_linear(c, adc))
    &&& fits32(temp_linear(c, adc) * c.dig_t2)
    &&& fits32(offset)
    &&& fits32(offset * offset)
    &&& fits32(offset * offset / 4096 * c.dig_t3)
    &&& fits32(fine)
    &&& fits32(fine * 5)
    &&& fits32(fine * 5 + 128)
}

/// The fine temperature and the temperature in hundredths of a degree.
pub fn compensate_temperature(calib: &Calibration, adc_t: i32) -> (r: (i32, i32))
    requires
        temperature_fits(*calib, adc_t as int),
    ensures
        r.0 == fine_temperature(*calib, adc_t as int),
        r.1 == centi_degrees(fine_temperature(*calib, adc_t as int)),
{
    proof {
        crate::math::lemma_shr_i32(adc_t);
    }
    let t1: i32 = calib.dig_t1 as i32;
    let linear: i32 = ((adc_t >> 3) - t1 * 2) * calib.dig_t2 as i32;
    proof {
        crate::math::lemma_shr_i32(linear);
    }
    let var1: i32 = linear >> 11;
    let offset: i32 = (adc_t >> 4) - t1;
    let square: i32 = offset * offset;
    proof {
        crate::math::lemma_shr_i32(square);
    }
    let curved: i32 = (square >> 12) * calib.dig_t3 as i32;
    proof {
        crate::math::lemma_shr_i32(curved);
    }
    let var2: i32 = curved >> 14;
    let t_fine: i32 = var1 + var2;
    let scaled: i32 = t_fine * 5 + 128;
    proof {
        crate::math::lemma_shr_i32(scaled);
    }
    (t_fine, scaled >> 8)
}

/// Whether the temperature formula can be computed on these values.
pub fn temperature_in_range(calib: &Calibration, adc_t: i32) -> (b: bool)
    ensures
        b == temperature_fits(*calib, adc_t as int),
{
    proof {
        crate::math::lemma_shr_i32(adc_t);
    }
    let t1: i32 = calib.dig_t1 as i32;
    let first: i32 = (adc_t >> 3) - t1 * 2;
    let linear: i32 = match first.checked_mul(calib.dig_t2 as i32) {
        Some(v) => v,
        None => return false,
    };
    proof {
        crate::math::lemma_shr_i32(linear);
    }
    let offset: i32 = (adc_t >> 4) - t1;
    let square: i32 = match offset.checked_mul(offset) {
        Some(v) => v,
        None => return false,
    };
    proof {
        crate::math::lemma_shr_i32(square);
    }
    let curved: i32 = match (square >> 12).checked_mul(calib.dig_t3 as i32) {
        Some(v) => v,
        None => return false,
    };
    proof {
        crate::math::lemma_shr_i32(curved);
    }
    let t_fine: i32 = match (linear >> 11).checked_add(curved >> 14) {
        Some(v) => v,
        None => return false,
    };
    let scaled: i32 = match t_fine.checked_mul(5) {
        Some(v) => v,
        None => return false,
    };
    scaled.checked_add(128).is_some()
}

// Pressure.

/// The temperature's distance from the formula's reference.
pub open spec fn pressure_base(fine: int) -> int {
    fine - 128000
}

/// The offset term. Its middle part is kept to what an `i64` holds.
pub open spec fn pressure_offset(c: Calibration, fine: int) -> int {
    let v = pressure_base(fine);
    v * v * c.dig_p6 + (v * c.dig_p5 * 0x2_0000) as i64 + c.dig_p4 * 0x8_0000_0000
}

/// The sensitivity before the last scaling.
pub open spec fn pressure_slope(c: Calibration, fine: int) -> int {
    let v = pressure_base(fine);
    0x8000_0000_0000 + (v * v * c.dig_p3 / 256 + v * c.dig_p2 * 4096)
}

/// The sensitivity; zero where no pressure can be computed.
pub open spec fn pressure_divisor(c: Calibration, fine: int) -> int {
    pressure_slope(c, fine) * c.dig_p1 / 0x2_0000_0000
}

/// The numerator of the first approximation.
pub open spec fn pressure_numerator(c: Calibration, adc: int, fine: int) -> int {
    (1048576 - adc) * 0x8000_0000 - pressure_offset(c, fine)
}

/// The first approximation.
pub open spec fn pressure_first(c: Calibration, adc: int, fine: int) -> int {
    crate::math::div_toward_zero(
        pressure_numerator(c, adc, fine) * 3125,
        pressure_divisor(c, fine),
    )
}

/// The pressure in Pa, in units of 1/256, from the first approximation.
pub open spec fn pressure_final(c: Calibration, p: int) -> int {
    let high = p / 8192;
    (p + c.dig_p9 * high * high / 0x200_0000 + c.dig_p8 * p / 0x8_0000) / 256 + c.dig_p7 * 16
}

/// Every intermediate up to the divisor fits an `i64`.
pub open spec fn pressure_divisor_fits(c: Calibration, fine: int) -> bool {
    let v = pressure_base(fine);
    let middle = (v * c.dig_p5 * 0x2_0000) as i64;
    &&& fits64(v * v)
    &&& fits64(v * v * c.dig_p6)
    &&& fits64(v * v * c.dig_p6 + middle)
    &&& fits64(pressure_offset(c, fine))
    &&& fits64(v * v * c.dig_p3)
    &&& fits64(v * v * c.dig_p3 / 256 + v * c.dig_p2 * 4096)
    &&& fits64(pressure_slope(c, fine))
    &&& fits64(pressure_slope(c, fine) * c.dig_p1)
}

/// Every intermediate after the divisor fits an `i64`.
pub open spec fn pressure_result_fits(c: Calibration, adc: int, fine: int) -> bool {
    let n = pressure_numerator(c, adc, fine);
    let p = pressure_first(c, adc, fine);
    let high = p / 8192;
    let e1 = c.dig_p9 * high * high / 0x200_0000;
    let e2 = c.dig_p8 * p / 0x8_0000;
    &&& fits64(n)
    &&& fits64(n * 3125)
    &&& fits64(p)
    &&& fits64(c.dig_p9 * high)
    &&& fits64(c.dig_p9 * high * high)
    &&& fits64(c.dig_p8 * p)
    &&& fits64(p + e1)
    &&& fits64(p + e1 + e2)
}

/// Every intermediate of the pressure formula fits an `i64`.
pub open spec fn pressure_fits(c: Calibration, adc: int, fine: int) -> bool {
    &&& pressure_divisor_fits(c, fine)
    &&& pressure_divisor(c, fine) != 0 ==> pressure_result_fits(c, adc, fine)
}

/// The pressure in Pa, in units of 1/256; `None` where the divisor is zero.
pub open spec fn pressure_q24_8(c: Calibration, adc: int, fine: int) -> Option<u32> {
    if pressure_divisor(c, fine) == 0 {
        None
    } else {
        Some(pressure_final(c, pressure_first(c, adc, fine)) as u32)
    }
}

/// `a * b` where it fits.
fn mul64(a: i64, b: i64) -> (r: Option<i64>)
    ensures
        r == if fits64(a * b) {
            Some((a * b) as i64)
        } else {
            None
        },
{
    a.checked_mul(b)
}

/// `a + b` where it fits.
fn add64(a: i64, b: i64) -> (r: Option<i64>)
    ensures
        r == if fits64(a + b) {
            Some((a + b) as i64)
        } else {
            None
        },
{
    a.checked_add(b)
}

/// The offset term and the divisor, where their intermediates fit.
fn pressure_terms(calib: &Calibration, t_fine: i32) -> (r: Option<(i64, i64)>)
    ensures
        r is Some == pressure_divisor_fits(*calib, t_fine as int),
        r matches Some(terms) ==> terms.0 == pressure_offset(*calib, t_fine as int) && terms.1
            == pressure_divisor(*calib, t_fine as int),
{
    let v: i64 = t_fine as i64 - 128000;
    proof {
        let p5 = calib.dig_p5;
        let p2 = calib.dig_p2;
        assert(-0x4000_8000_0000_0000 <= v * p5 <= 0x4000_8000_0000_0000) by (nonlinear_arith)
            requires
                -0x1_0000_0000 <= v <= 0x1_0000_0000,
                -0x8000 <= p5 <= 0x8000,
        ;
        assert(-0x8000_0000_0000 <= v * p2 <= 0x8000_0000_0000) by (nonlinear_arith)
            requires
                -0x1_0000_0000 <= v <= 0x1_0000_0000,
                -0x8000 <= p2 <= 0x8000,
        ;
    }
    let square: i64 = match mul64(v, v) {
        Some(x) => x,
        None => return None,
    };
    let first: i64 = match mul64(square, calib.dig_p6 as i64) {
        Some(x) => x,
        None => return None,
    };
    let linear: i64 = v * calib.dig_p5 as i64;
    proof {
        crate::math::lemma_shl_i64(linear);
    }
    let partial: i64 = match add64(first, linear << 17) {
        Some(x) => x,
        None => return None,
    };
    let offset: i64 = match add64(partial, calib.dig_p4 as i64 * 0x8_0000_0000) {
        Some(x) => x,
        None => return None,
    };
    let cubic: i64 = match mul64(square, calib.dig_p3 as i64) {
        Some(x) => x,
        None => return None,
    };
    proof {
        crate::math::lemma_shr_i64(cubic);
    }
    let sum: i64 = match add64(cubic >> 8, v * calib.dig_p2 as i64 * 4096) {
        Some(x) => x,
        None => return None,
    };
    let slope: i64 = match add64(0x8000_0000_0000, sum) {
        Some(x) => x,
        None => return None,
    };
    let scaled: i64 = match mul64(slope, calib.dig_p1 as i64) {
        Some(x) => x,
        None => return None,
    };
    proof {
        crate::math::lemma_shr_i64(scaled);
    }
    Some((offset, scaled >> 33))
}

/// The pressure from its offset term and divisor, where the intermediates fit.
fn pressure_value(calib: &Calibration, adc_p: i32, offset: i64, divisor: i64, t_fine: i32) -> (r:
    Option<i64>)
    requires
        pressure_divisor_fits(*calib, t_fine as int),
        offset == pressure_offset(*calib, t_fine as int),
        divisor == pressure_divisor(*calib, t_fine as int),
        divisor != 0,
    ensures
        r is Some == pressure_result_fits(*calib, adc_p as int, t_fine as int),
        r matches Some(p) ==> p == pressure_final(
            *calib,
            pressure_first(*calib, adc_p as int, t_fine as int),
        ),
{
    let scaled: i64 = (1048576 - adc_p as i64) * 0x8000_0000;
    let numerator: i64 = match scaled.checked_sub(offset) {
        Some(x) => x,
        None => return None,
    };
    let product: i64 = match mul64(numerator, 3125) {
        Some(x) => x,
        None => return None,
    };
    if divisor == -1 && product == i64::MIN {
        return None;
    }
    let p: i64 = div_i64(product, divisor);
    proof {
        crate::math::lemma_shr_i64(p);
    }
    let high: i64 = p >> 13;
    let part: i64 = match mul64(calib.dig_p9 as i64, high) {
        Some(x) => x,
        None => return None,
    };
    let whole: i64 = match mul64(part, high) {
        Some(x) => x,
        None => return None,
    };
    let weighted: i64 = match mul64(calib.dig_p8 as i64, p) {
        Some(x) => x,
        None => return None,
    };
    proof {
        crate::math::lemma_shr_i64(whole);
        crate::math::lemma_shr_i64(weighted);
    }
    let near: i64 = match add64(p, whole >> 25) {
        Some(x) => x,
        None => return None,
    };
    let sum: i64 = match add64(near, weighted >> 19) {
        Some(x) => x,
        None => return None,
    };
    proof {
        crate::math::lemma_shr_i64(sum);
    }
    Some((sum >> 8) + calib.dig_p7 as i64 * 16)
}

/// The pressure in Pa, in units of 1/256, or `None` where the trim values make the
/// formula divide by zero.
pub fn compensate_pressure(calib: &Calibration, adc_p: i32, t_fine: i32) -> (r: Option<u32>)
    requires
        pressure_fits(*calib, adc_p as int, t_fine as int),
    ensures
        r == pressure_q24_8(*calib, adc_p as int, t_fine as int),
{
    match pressure_terms(calib, t_fine) {
        Some((offset, divisor)) => {
            if divisor == 0 {
                return None;
            }
            match pressure_value(calib, adc_p, offset, divisor, t_fine) {
                Some(p) => Some(p as u32),
                None => None,
            }
        },
        None => None,
    }
}

/// Whether the pressure formula can be computed on these values.
pub fn pressure_in_range(calib: &Calibration, adc_p: i32, t_fine: i32) -> (b: bool)
    ensures
        b == pressure_fits(*calib, adc_p as int, t_fine as int),
{
    match pressure_terms(calib, t_fine) {
        Some((offset, divisor)) => divisor == 0 || pressure_value(
            calib,
            adc_p,
            offset,
            divisor,
            t_fine,
        ).is_some(),
        None => false,
    }
}

// Humidity.

/// The temperature's distance from the formula's reference.
pub open spec fn humidity_base(fine: int) -> int {
    fine - 76800
}

/// The count with its offset removed, each part kept to what an `i32` holds.
pub open spec fn humidity_signal(c: Calibration, adc: int, fine: int) -> int {
    (adc * 0x4000) as i32 - (c.dig_h4 * 0x10_0000) as i32 - c.dig_h5 * humidity_base(fine) + 16384
}

/// The temperature's effect on the gain.
pub open spec fn humidity_curve(c: Calibration, fine: int) -> int {
    let x = humidity_base(fine);
    (x * c.dig_h6 / 1024) * (x * c.dig_h3 / 2048 + 32768)
}

/// The gain.
pub open spec fn humidity_gain(c: Calibration, fine: int) -> int {
    ((humidity_curve(c, fine) / 1024 + 2097152) * c.dig_h2 + 8192) / 16384
}

/// The linear result.
pub open spec fn humidity_linear(c: Calibration, adc: int, fine: int) -> int {
    humidity_signal(c, adc, fine) / 32768 * humidity_gain(c, fine)
}

/// The linear result with its curvature removed.
pub open spec fn humidity_corrected(c: Calibration, adc: int, fine: int) -> int {
    let y = humidity_linear(c, adc, fine);
    let high = y / 32768;
    y - high * high / 128 * c.dig_h1 / 16
}

/// A hundred percent, before the last scaling.
pub const HUMIDITY_FULL: i32 = 419_430_400;

/// Relative humidity in percent, in units of 1/1024, held between 0 and 100.
pub open spec fn humidity_q22_10(c: Calibration, adc: int, fine: int) -> int {
    let v = humidity_corrected(c, adc, fine);
    (if v < 0 {
        0
    } else if v > HUMIDITY_FULL {
        HUMIDITY_FULL as int
    } else {
        v
    }) / 4096
}

/// Every intermediate of the humidity formula fits an `i32`.
pub open spec fn humidity_fits(c: Calibration, adc: int, fine: int) -> bool {
    let x = humidity_base(fine);
    let a = (adc * 0x4000) as i32;
    let b = (c.dig_h4 * 0x10_0000) as i32;
    let inner = humidity_curve(c, fine) / 1024 + 2097152;
    let y = humidity_linear(c, adc, fine);
    let high = y / 32768;
    &&& fits32(x)
    &&& fits32(a - b)
    &&& fits32(c.dig_h5 * x)
    &&& fits32(a - b - c.dig_h5 * x)
    &&& fits32(humidity_signal(c, adc, fine))
    &&& fits32(x * c.dig_h6)
    &&& fits32(x * c.dig_h3)
    &&& fits32(x * c.dig_h3 / 2048 + 32768)
    &&& fits32(humidity_curve(c, fine))
    &&& fits32(inner)
    &&& fits32(inner * c.dig_h2)
    &&& fits32(inner * c.dig_h2 + 8192)
    &&& fits32(y)
    &&& fits32(high * high)
    &&& fits32(high * high / 128 * c.dig_h1)
    &&& fits32(humidity_corrected(c, adc, fine))
}

/// `a * b` where it fits.
fn mul32(a: i32, b: i32) -> (r: Option<i32>)
    ensures
        r == if fits32(a * b) {
            Some((a * b) as i32)
        } else {
            None
        },
{
    a.checked_mul(b)
}

/// `a + b` where it fits.
fn add32(a: i32, b: i32) -> (r: Option<i32>)
    ensures
        r == if fits32(a + b) {
            Some((a + b) as i32)
        } else {
            None
        },
{
    a.checked_add(b)
}

/// `a - b` where it fits.
fn sub32(a: i32, b: i32) -> (r: Option<i32>)
    ensures
        r == if fits32(a - b) {
            Some((a - b) as i32)
        } else {
            None
        },
{
    a.checked_sub(b)
}

/// The humidity before it is held to its range, where the intermediates fit.
fn humidity_value(calib: &Calibration, adc_h: i32, t_fine: i32) -> (r: Option<i32>)
    ensures
        r is Some == humidity_fits(*calib, adc_h as int, t_fine as int),
        r matches Some(v) ==> v == humidity_corrected(*calib, adc_h as int, t_fine as int),
{
    let h4: i32 = calib.dig_h4 as i32;
    let x: i32 = match sub32(t_fine, 76800) {
        Some(v) => v,
        None => return None,
    };
    proof {
        crate::math::lemma_shl_i32(adc_h);
        crate::math::lemma_shl_i32(h4);
    }
    let difference: i32 = match sub32(adc_h << 14, h4 << 20) {
        Some(v) => v,
        None => return None,
    };
    let drift: i32 = match mul32(calib.dig_h5 as i32, x) {
        Some(v) => v,
        None => return None,
    };
    let level: i32 = match sub32(difference, drift) {
        Some(v) => v,
        None => return None,
    };
    let signal: i32 = match add32(level, 16384) {
        Some(v) => v,
        None => return None,
    };
    let sixth: i32 = match mul32(x, calib.dig_h6 as i32) {
        Some(v) => v,
        None => return None,
    };
    let third: i32 = match mul32(x, calib.dig_h3 as i32) {
        Some(v) => v,
        None => return None,
    };
    proof {
        crate::math::lemma_shr_i32(signal);
        crate::math::lemma_shr_i32(sixth);
        crate::math::lemma_shr_i32(third);
    }
    let bent: i32 = match add32(third >> 11, 32768) {
        Some(v) => v,
        None => return None,
    };
    let curve: i32 = match mul32(sixth >> 10, bent) {
        Some(v) => v,
        None => return None,
    };
    proof {
        crate::math::lemma_shr_i32(curve);
    }
    let inner: i32 = match add32(curve >> 10, 2097152) {
        Some(v) => v,
        None => return None,
    };
    let weighted: i32 = match mul32(inner, calib.dig_h2 as i32) {
        Some(v) => v,
        None => return None,
    };
    let rounded: i32 = match add32(weighted, 8192) {
        Some(v) => v,
        None => return None,
    };
    proof {
        crate::math::lemma_shr_i32(rounded);
    }
    let y: i32 = match mul32(signal >> 15, rounded >> 14) {
        Some(v) => v,
        None => return None,
    };
    proof {
        crate::math::lemma_shr_i32(y);
    }
    let high: i32 = y >> 15;
    let square: i32 = match mul32(high, high) {
        Some(v) => v,
        None => return None,
    };
    proof {
        crate::math::lemma_shr_i32(square);
    }
    let weight: i32 = match mul32(square >> 7, calib.dig_h1 as i32) {
        Some(v) => v,
        None => return None,
    };
    proof {
        crate::math::lemma_shr_i32(weight);
    }
    sub32(y, weight >> 4)
}

/// Relative humidity in percent, in units of 1/1024, held between 0 and 100.
pub fn compensate_humidity(calib: &Calibration, adc_h: i32, t_fine: i32) -> (r: u32)
    requires
        humidity_fits(*calib, adc_h as int, t_fine as int),
    ensures
        r == humidity_q22_10(*calib, adc_h as int, t_fine as int),
        r <= 102_400,
{
    let v: i32 = match humidity_value(calib, adc_h, t_fine) {
        Some(v) => v,
        None => 0,
    };
    let held: i32 = if v < 0 {
        0
    } else if v > HUMIDITY_FULL {
        HUMIDITY_FULL
    } else {
        v
    };
    (held / 4096) as u32
}

/// Whether the humidity formula can be computed on these values.
pub fn humidity_in_range(calib: &Calibration, adc_h: i32, t_fine: i32) -> (b: bool)
    ensures
        b == humidity_fits(*calib, adc_h as int, t_fine as int),
{
    humidity_value(calib, adc_h, t_fine).is_some()
}

/// What the part holds in its chip-id register.
pub open spec fn identified(id: u8) -> Option<Variant> {
    if id == CHIP_ID_BME280 {
        Some(Variant::Bme280)
    } else if id == CHIP_ID_BMP280 {
        Some(Variant::Bmp280)
    } else {
        None
    }
}

/// How a register is addressed to be read.
pub open spec fn read_address(transport: Transport, reg: u8) -> u8 {
    match transport {
        Transport::Spi => reg | 0x80,
        Transport::I2c => reg,
    }
}

/// How a register is addressed to be written.
pub open spec fn write_address(transport: Transport, reg: u8) -> u8 {
    match transport {
        Transport::Spi => reg & 0x7F,
        Transport::I2c => reg,
    }
}

/// Which step of the initialisation is outstanding.
#[derive(Clone, Copy, Debug, PartialEq, Eq, Structural)]
pub enum InitStage {
    Idle,
    Id,
    Reset,
    LowTrim,
    HighTrim,
    Humidity,
    Measurement,
    Standby,
}

/// What the initialisation needs of the bus next. Addresses are as they go out.
#[derive(Clone, Copy, Debug, PartialEq, Eq)]
pub enum Request {
    Read { addr: u8, len: usize },
    Write { addr: u8, value: u8 },
    Done(Result<(), BusError>),
}

/// What the bus gave.
#[derive(Debug)]
pub enum Reply {
    /// The initialisation begins.
    Start,
    Data(Vec<u8>),
    Written,
    Failed(BusError),
}

/// A [`Reply`] with its bytes as a sequence.
pub enum ReplyView {
    Start,
    Data(Seq<u8>),
    Written,
    Failed(BusError),
}

impl View for Reply {
    type V = ReplyView;

    open spec fn view(&self) -> ReplyView {
        match *self {
            Reply::Start => ReplyView::Start,
            Reply::Data(bytes) => ReplyView::Data(bytes@),
            Reply::Written => ReplyView::Written,
            Reply::Failed(e) => ReplyView::Failed(e),
        }
    }
}

/// A quantity the part measures.
#[derive(Clone, Copy, Debug, PartialEq, Eq, Structural)]
pub enum Quantity {
    Temperature,
    Pressure,
    Humidity,
}

/// The raw counts of one sample.
#[derive(Clone, Copy, Debug, PartialEq, Eq)]
pub struct Counts {
    pub temperature: i32,
    pub pressure: i32,
    pub humidity: Option<i32>,
}

/// The bytes of a sample.
pub open spec fn sample_len(variant: Variant) -> int {
    match variant {
        Variant::Bme280 => 8,
        Variant::Bmp280 => 6,
    }
}

/// The counts in a sample: pressure, temperature, humidity.
pub open spec fn counts_of(variant: Variant, data: Seq<u8>) -> Counts {
    Counts {
        temperature: count20(data[3], data[4], data[5]) as i32,
        pressure: count20(data[0], data[1], data[2]) as i32,
        humidity: match variant {
            Variant::Bme280 => Some((data[6] * 256 + data[7]) as i32),
            Variant::Bmp280 => None,
        },
    }
}

/// The sensor.
pub struct Bme280 {
    pub transport: Transport,
    pub variant: Option<Variant>,
    pub calib: Option<Calibration>,
    pub stage: InitStage,
    pub found: Variant,
    pub low: Vec<u8>,
    pub trim: Calibration,
}

/// The sensor as a value.
pub struct SensorView {
    pub transport: Transport,
    pub variant: Option<Variant>,
    pub calib: Option<Calibration>,
    pub stage: InitStage,
    pub found: Variant,
    pub low: Seq<u8>,
    pub trim: Calibration,
}

impl View for Bme280 {
    type V = SensorView;

    open spec fn view(&self) -> SensorView {
        SensorView {
            transport: self.transport,
            variant: self.variant,
            calib: self.calib,
            stage: self.stage,
            found: self.found,
            low: self.low@,
            trim: self.trim,
        }
    }
}

/// The initialisation ends here.
pub open spec fn ended(s: SensorView, result: Result<(), BusError>) -> (SensorView, Request) {
    (SensorView { stage: InitStage::Idle, ..s }, Request::Done(result))
}

/// The initialisation goes on with reading `len` bytes from `reg`.
pub open spec fn reads(s: SensorView, stage: InitStage, reg: u8, len: usize) -> (
    SensorView,
    Request,
) {
    (
        SensorView { stage, ..s },
        Request::Read { addr: read_address(s.transport, reg), len },
    )
}

/// The initialisation goes on with writing `value` to `reg`.
pub open spec fn writes(s: SensorView, stage: InitStage, reg: u8, value: u8) -> (
    SensorView,
    Request,
) {
    (
        SensorView { stage, ..s },
        Request::Write { addr: write_address(s.transport, reg), value },
    )
}

/// The initialisation: the chip id, a reset, the trim values, then the settings,
/// humidity's before the one that makes it effective. The sensor is usable only
/// once all of it has succeeded; until then, and after a failure, it is not.
pub open spec fn initialised(s: SensorView, reply: ReplyView) -> (SensorView, Request) {
    match reply {
        ReplyView::Start => reads(
            SensorView { variant: None, calib: None, ..s },
            InitStage::Id,
            REG_ID,
            1,
        ),
        ReplyView::Failed(e) => ended(s, Err(e)),
        ReplyView::Data(bytes) => if s.stage is Id && bytes.len() == 1 {
            match identified(bytes[0]) {
                Some(found) => writes(
                    SensorView { found, ..s },
                    InitStage::Reset,
                    REG_RESET,
                    RESET_COMMAND,
                ),
                None => ended(s, Err(BusError::DeviceNotResponding)),
            }
        } else if s.stage is LowTrim && bytes.len() == 26 {
            match s.found {
                Variant::Bme280 => reads(
                    SensorView { low: bytes, ..s },
                    InitStage::HighTrim,
                    REG_CALIB_26,
                    7,
                ),
                Variant::Bmp280 => writes(
                    SensorView { trim: calibration_of(s.found, bytes, Seq::empty()), ..s },
                    InitStage::Measurement,
                    REG_CTRL_MEAS,
                    MEAS_NORMAL,
                ),
            }
        } else if s.stage is HighTrim && bytes.len() == 7 && s.low.len() == 26 {
            writes(
                SensorView { trim: calibration_of(s.found, s.low, bytes), ..s },
                InitStage::Humidity,
                REG_CTRL_HUM,
                HUM_X1,
            )
        } else {
            ended(s, Err(BusError::InvalidConfig))
        },
        ReplyView::Written => match s.stage {
            InitStage::Reset => reads(s, InitStage::LowTrim, REG_CALIB_00, 26),
            InitStage::Humidity => writes(s, InitStage::Measurement, REG_CTRL_MEAS, MEAS_NORMAL),
            InitStage::Measurement => writes(s, InitStage::Standby, REG_CONFIG, CONFIG_STANDBY),
            InitStage::Standby => ended(
                SensorView { variant: Some(s.found), calib: Some(s.trim), ..s },
                Ok(()),
            ),
            _ => ended(s, Err(BusError::InvalidConfig)),
        },
    }
}

/// Where a sample for a quantity is read and how long it is.
pub open spec fn sampling(s: SensorView, quantity: Quantity) -> Result<(u8, usize), BusError> {
    if s.calib is Some && s.variant is Some && (quantity is Humidity ==> s.variant == Some(
        Variant::Bme280,
    )) {
        Ok((read_address(s.transport, REG_PRESS_MSB), sample_len(s.variant->0) as usize))
    } else {
        Err(BusError::InvalidConfig)
    }
}

/// The temperature of a sample.
pub open spec fn told_temperature(s: SensorView, data: Seq<u8>) -> Result<i32, BusError> {
    match (s.calib, s.variant) {
        (Some(calib), Some(variant)) => Ok(
            centi_degrees(
                fine_temperature(calib, counts_of(variant, data).temperature as int),
            ) as i32,
        ),
        _ => Err(BusError::InvalidConfig),
    }
}

/// The pressure of a sample.
pub open spec fn told_pressure(s: SensorView, data: Seq<u8>) -> Result<u32, BusError> {
    match (s.calib, s.variant) {
        (Some(calib), Some(variant)) => {
            let counts = counts_of(variant, data);
            match pressure_q24_8(
                calib,
                counts.pressure as int,
                fine_temperature(calib, counts.temperature as int),
            ) {
                Some(p) => Ok(p),
                None => Err(BusError::InvalidConfig),
            }
        },
        _ => Err(BusError::InvalidConfig),
    }
}

/// The humidity of a sample.
pub open spec fn told_humidity(s: SensorView, data: Seq<u8>) -> Result<u32, BusError> {
    if s.variant == Some(Variant::Bme280) && s.calib is Some {
        let calib = s.calib->0;
        let counts = counts_of(Variant::Bme280, data);
        Ok(
            humidity_q22_10(
                calib,
                counts.humidity->0 as int,
                fine_temperature(calib, counts.temperature as int),
            ) as u32,
        )
    } else {
        Err(BusError::InvalidConfig)
    }
}

impl Bme280 {
    /// A sensor that has not been initialised.
    pub fn new(transport: Transport) -> (s: Self)
        ensures
            s@.transport == transport,
            s@.variant is None,
            s@.calib is None,
            s@.stage is Idle,
    {
        Bme280 {
            transport,
            variant: None,
            calib: None,
            stage: InitStage::Idle,
            found: Variant::Bmp280,
            low: Vec::new(),
            trim: Calibration::default(),
        }
    }

    /// Which part answered, once the sensor is initialised.
    pub fn variant(&self) -> (v: Option<Variant>)
        ensures
            v == self@.variant,
    {
        self.variant
    }

    /// The address byte that reads `reg`.
    pub fn read_addr(&self, reg: u8) -> (addr: u8)
        ensures
            addr == read_address(self@.transport, reg),
    {
        match self.transport {
            Transport::Spi => reg | 0x80,
            Transport::I2c => reg,
        }
    }

    /// The address byte that writes `reg`.
    pub fn write_addr(&self, reg: u8) -> (addr: u8)
        ensures
            addr == write_address(self@.transport, reg),
    {
        match self.transport {
            Transport::Spi => reg & 0x7F,
            Transport::I2c => reg,
        }
    }

    fn ask(&mut self, stage: InitStage, reg: u8, len: usize) -> (request: Request)
        ensures
            (final(self)@, request) == reads(old(self)@, stage, reg, len),
    {
        self.stage = stage;
        Request::Read { addr: self.read_addr(reg), len }
    }

    fn tell(&mut self, stage: InitStage, reg: u8, value: u8) -> (request: Request)
        ensures
            (final(self)@, request) == writes(old(self)@, stage, reg, value),
    {
        self.stage = stage;
        Request::Write { addr: self.write_addr(reg), value }
    }

    fn end(&mut self, result: Result<(), BusError>) -> (request: Request)
        ensures
            (final(self)@, request) == ended(old(self)@, result),
    {
        self.stage = InitStage::Idle;
        Request::Done(result)
    }

    /// Carries the initialisation on; it begins with [`Reply::Start`] and is over
    /// at [`Request::Done`].
    pub fn init(&mut self, reply: Reply) -> (request: Request)
        ensures
            (final(self)@, request) == initialised(old(self)@, reply@),
    {
        match reply {
            Reply::Start => {
                self.variant = None;
                self.calib = None;
                self.ask(InitStage::Id, REG_ID, 1)
            },
            Reply::Failed(e) => self.end(Err(e)),
            Reply::Data(bytes) => match self.stage {
                InitStage::Id if bytes.len() == 1 => {
                    let found = match bytes[0] {
                        CHIP_ID_BME280 => Variant::Bme280,
                        CHIP_ID_BMP280 => Variant::Bmp280,
                        _ => return self.end(Err(BusError::DeviceNotResponding)),
                    };
                    self.found = found;
                    self.tell(InitStage::Reset, REG_RESET, RESET_COMMAND)
                },
                InitStage::LowTrim if bytes.len() == 26 => match self.found {
                    Variant::Bme280 => {
                        self.low = bytes;
                        self.ask(InitStage::HighTrim, REG_CALIB_26, 7)
                    },
                    Variant::Bmp280 => {
                        let empty: Vec<u8> = Vec::new();
                        self.trim = read_calibration(self.found, &bytes, &empty);
                        assert(empty@ =~= Seq::empty());
                        self.tell(InitStage::Measurement, REG_CTRL_MEAS, MEAS_NORMAL)
                    },
                },
                InitStage::HighTrim if bytes.len() == 7 && self.low.len() == 26 => {
                    self.trim = read_calibration(self.found, &self.low, &bytes);
                    self.tell(InitStage::Humidity, REG_CTRL_HUM, HUM_X1)
                },
                _ => self.end(Err(BusError::InvalidConfig)),
            },
            Reply::Written => match self.stage {
                InitStage::Reset => self.ask(InitStage::LowTrim, REG_CALIB_00, 26),
                InitStage::Humidity => self.tell(
                    InitStage::Measurement,
                    REG_CTRL_MEAS,
                    MEAS_NORMAL,
                ),
                InitStage::Measurement => self.tell(
                    InitStage::Standby,
                    REG_CONFIG,
                    CONFIG_STANDBY,
                ),
                InitStage::Standby => {
                    self.variant = Some(self.found);
                    self.calib = Some(self.trim);
                    self.end(Ok(()))
                },
                _ => self.end(Err(BusError::InvalidConfig)),
            },
        }
    }

    /// What to read for a quantity: the address and how many bytes. Refused before
    /// initialisation, and for humidity on a part without a sensor for it.
    pub fn sample(&self, quantity: Quantity) -> (r: Result<(u8, usize), BusError>)
        ensures
            r == sampling(self@, quantity),
    {
        if quantity == Quantity::Humidity && !matches!(self.variant, Some(Variant::Bme280)) {
            return Err(BusError::InvalidConfig);
        }
        if self.calib.is_none() {
            return Err(BusError::InvalidConfig);
        }
        match self.variant {
            Some(Variant::Bme280) => Ok((self.read_addr(REG_PRESS_MSB), 8)),
            Some(Variant::Bmp280) => Ok((self.read_addr(REG_PRESS_MSB), 6)),
            None => Err(BusError::InvalidConfig),
        }
    }

    /// The temperature of a sample, in hundredths of a degree Celsius.
    pub fn read_temperature(&self, data: &[u8]) -> (r: Result<i32, BusError>)
        requires
            sample_usable(self@, data@),
        ensures
            r == told_temperature(self@, data@),
    {
        let calib = match self.calib {
            Some(calib) => calib,
            None => return Err(BusError::InvalidConfig),
        };
        let variant = match self.variant {
            Some(variant) => variant,
            None => return Err(BusError::InvalidConfig),
        };
        let counts = read_raw(variant, data);
        let (_, centi) = compensate_temperature(&calib, counts.temperature);
        Ok(centi)
    }

    /// The pressure of a sample, in 1/256 Pa.
    pub fn read_pressure(&self, data: &[u8]) -> (r: Result<u32, BusError>)
        requires
            sample_usable(self@, data@),
            match (self@.calib, self@.variant) {
                (Some(calib), Some(variant)) => {
                    let counts = counts_of(variant, data@);
                    pressure_fits(
                        calib,
                        counts.pressure as int,
                        fine_temperature(calib, counts.temperature as int),
                    )
                },
                _ => true,
            },
        ensures
            r == told_pressure(self@, data@),
    {
        let calib = match self.calib {
            Some(calib) => calib,
            None => return Err(BusError::InvalidConfig),
        };
        let variant = match self.variant {
            Some(variant) => variant,
            None => return Err(BusError::InvalidConfig),
        };
        let counts = read_raw(variant, data);
        let (t_fine, _) = compensate_temperature(&calib, counts.temperature);
        match compensate_pressure(&calib, counts.pressure, t_fine) {
            Some(p) => Ok(p),
            None => Err(BusError::InvalidConfig),
        }
    }

    /// The relative humidity of a sample, in 1/1024 percent.
    pub fn read_humidity(&self, data: &[u8]) -> (r: Result<u32, BusError>)
        requires
            sample_usable(self@, data@),
            match (self@.calib, self@.variant) {
                (Some(calib), Some(variant)) => {
                    let counts = counts_of(variant, data@);
                    counts.humidity is Some ==> humidity_fits(
                        calib,
                        counts.humidity->0 as int,
                        fine_temperature(calib, counts.temperature as int),
                    )
                },
                _ => true,
            },
        ensures
            r == told_humidity(self@, data@),
    {
        if !matches!(self.variant, Some(Variant::Bme280)) {
            return Err(BusError::InvalidConfig);
        }
        let calib = match self.calib {
            Some(calib) => calib,
            None => return Err(BusError::InvalidConfig),
        };
        let counts = read_raw(Variant::Bme280, data);
        let adc_h: i32 = match counts.humidity {
            Some(adc_h) => adc_h,
            None => return Err(BusError::InvalidConfig),
        };
        let (t_fine, _) = compensate_temperature(&calib, counts.temperature);
        Ok(compensate_humidity(&calib, adc_h, t_fine))
    }
}

/// The sample has the part's length, and its temperature can be computed.
pub open spec fn sample_usable(s: SensorView, data: Seq<u8>) -> bool {
    match (s.calib, s.variant) {
        (Some(calib), Some(variant)) => data.len() == sample_len(variant) && temperature_fits(
            calib,
            counts_of(variant, data).temperature as int,
        ),
        _ => true,
    }
}

/// The counts in a sample.
pub fn read_raw(variant: Variant, data: &[u8]) -> (c: Counts)
    requires
        data@.len() == sample_len(variant),
    ensures
        c == counts_of(variant, data@),
{
    Counts {
        temperature: raw20(data[3], data[4], data[5]),
        pressure: raw20(data[0], data[1], data[2]),
        humidity: match variant {
            Variant::Bme280 => Some(data[6] as i32 * 256 + data[7] as i32),
            Variant::Bmp280 => None,
        },
    }
}

fn le_word(low: u8, high: u8) -> (w: u16)
    ensures
        w == (low + 0x100 * high) as u16,
{
    low as u16 + 0x100 * (high as u16)
}

/// The trim values from the first block and, for a part with a humidity sensor,
/// the second.
pub fn read_calibration(variant: Variant, low: &[u8], high: &[u8]) -> (c: Calibration)
    requires
        low@.len() == 26,
        variant == Variant::Bme280 ==> high@.len() == 7,
    ensures
        c == calibration_of(variant, low@, high@),
{
    let mut c = Calibration {
        dig_t1: le_word(low[0], low[1]),
        dig_t2: bytes_to_signed(low[2], low[3]),
        dig_t3: bytes_to_signed(low[4], low[5]),
        dig_p1: le_word(low[6], low[7]),
        dig_p2: bytes_to_signed(low[8], low[9]),
        dig_p3: bytes_to_signed(low[10], low[11]),
        dig_p4: bytes_to_signed(low[12], low[13]),
        dig_p5: bytes_to_signed(low[14], low[15]),
        dig_p6: bytes_to_signed(low[16], low[17]),
        dig_p7: bytes_to_signed(low[18], low[19]),
        dig_p8: bytes_to_signed(low[20], low[21]),
        dig_p9: bytes_to_signed(low[22], low[23]),
        dig_h1: low[25],
        dig_h2: 0,
        dig_h3: 0,
        dig_h4: 0,
        dig_h5: 0,
        dig_h6: 0,
    };
    if variant == Variant::Bme280 {
        c.dig_h2 = bytes_to_signed(high[0], high[1]);
        c.dig_h3 = high[2];
        c.dig_h4 = byte_to_signed(high[3]) * 16 + (high[4] % 16) as i16;
        c.dig_h5 = byte_to_signed(high[5]) * 16 + (high[4] / 16) as i16;
        c.dig_h6 = byte_to_signed(high[6]) as i8;
    }
    c
}

/// A sensor that is not fully initialised gives no reading: from the start of an
/// initialisation until its last step has succeeded, every quantity is refused.
pub proof fn law_no_reading_before_initialisation(s: SensorView, reply: ReplyView)
    requires
        s.variant is None == s.calib is None,
    ensures
        ({
            let (s1, request) = initialised(s, reply);
            &&& s1.variant is None == s1.calib is None
            &&& reply is Start ==> s1.variant is None
            &&& s.variant is None && s1.variant is Some ==> request == Request::Done(Ok(()))
                && s.stage is Standby && reply is Written
            &&& s.variant is None && (request matches Request::Done(result) && result is Err)
                ==> s1.variant is None
        }),
{
}

/// Over SPI a read sets the address byte's top bit and a write clears it; over I2C
/// the address is the register.
pub proof fn law_spi_direction_is_the_top_bit(reg: u8)
    ensures
        read_address(Transport::Spi, reg) & 0x80 == 0x80,
        write_address(Transport::Spi, reg) & 0x80 == 0,
        read_address(Transport::Spi, reg) & 0x7F == write_address(Transport::Spi, reg),
        read_address(Transport::I2c, reg) == reg,
        write_address(Transport::I2c, reg) == reg,
        write_address(Transport::Spi, reg) == reg % 128,
{
    assert(reg & 0x7F == reg % 128 && (reg | 0x80) & 0x80 == 0x80 && (reg & 0x7F) & 0x80 == 0 && (reg | 0x80) & 0x7F == reg
        & 0x7F) by (bit_vector);
}

} // verus!
