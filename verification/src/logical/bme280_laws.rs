//! What the BME280's compensation comes to: the datasheet's formulas, which are written
//! with fractions, and how far the whole numbers may be off.

use vstd::prelude::*;

use super::bme280::{Calibration, Quantity, ReplyView, Request, SensorView, Variant};
use crate::bus::BusError;

verus! {

/// A temperature is five 256ths of the fine temperature in hundredths of a degree, to the
/// nearest, above zero and below.
pub proof fn law_a_temperature_is_to_the_nearest_hundredth(fine: int)
    ensures
        -128 <= 5 * fine - 256 * super::bme280::centi_degrees(fine) <= 128,
        5 * fine < -128 ==> super::bme280::centi_degrees(fine) < 0,
        5 * fine >= 128 ==> super::bme280::centi_degrees(fine) > 0,
{
}

proof fn lemma_product(x: int, y: int, a: int, b: int)
    by (nonlinear_arith)
    requires
        -a <= x <= a,
        -b <= y <= b,
        a >= 0,
        b >= 0,
    ensures
        -(a * b) <= x * y <= a * b,
{
}

proof fn lemma_times_8(a: int, r: int, t: int)
    by (nonlinear_arith)
    ensures
        (8 * a + r) * t == 8 * (a * t) + r * t,
{
}

proof fn lemma_square_16(b: int, s: int, t: int)
    by (nonlinear_arith)
    ensures
        (16 * b + s) * (16 * b + s) * t == 256 * (b * b * t) + 32 * (b * s * t) + s * s * t,
{
}

proof fn lemma_split(q: int, u: int, t: int)
    by (nonlinear_arith)
    ensures
        (4096 * q + u) * t == 4096 * (q * t) + u * t,
{
}

/// The fine temperature is the datasheet's: where `a` is the count less sixteen times the
/// first trim value, `a * t2 / 2^14 + a^2 * t3 / 2^34`, within a thirtieth of a degree.
pub proof fn law_the_fine_temperature_is_the_datasheets(c: Calibration, adc: int)
    requires
        0 <= adc < 0x10_0000,
    ensures
        ({
            let a = adc - 16 * c.dig_t1;
            let exact = 0x10_0000 * (a * c.dig_t2) + a * a * c.dig_t3;
            let fine = super::bme280::fine_temperature(c, adc);
            -160 * 0x4_0000_0000 <= 0x4_0000_0000 * fine - exact <= 160 * 0x4_0000_0000
        }),
{
    let a = adc - 16 * c.dig_t1;
    let t2 = c.dig_t2 as int;
    let t3 = c.dig_t3 as int;
    let linear = super::bme280::temp_linear(c, adc);
    let r = a - 8 * linear;
    assert(0 <= r < 8);
    lemma_times_8(linear, r, t2);
    lemma_product(r, t2, 8, 0x8000);
    let v1 = linear * t2 / 2048;
    assert(-2048 <= 2048 * v1 - linear * t2 <= 0);
    assert(-0x4_8000 <= 16384 * v1 - a * t2 <= 0x4_8000);
    let b = super::bme280::temp_offset(c, adc);
    let s = a - 16 * b;
    assert(0 <= s < 16);
    let q = b * b / 4096;
    let u = b * b - 4096 * q;
    assert(0 <= u < 4096);
    let v2 = q * t3 / 16384;
    assert(-16384 <= 16384 * v2 - q * t3 <= 0);
    lemma_square_16(b, s, t3);
    lemma_split(q, u, t3);
    assert(a * a * t3 == 256 * (b * b * t3) + 32 * (b * s * t3) + s * s * t3);
    assert(b * b * t3 == 4096 * (q * t3) + u * t3);
    lemma_product(u, t3, 4096, 0x8000);
    lemma_product(b, s, 0x1_0000, 16);
    lemma_product(b * s, t3, 0x10_0000, 0x8000);
    lemma_product(s, s, 16, 16);
    lemma_product(s * s, t3, 256, 0x8000);
    assert(super::bme280::fine_temperature(c, adc) == v1 + v2);
}

/// The pressure's first approximation solves the datasheet's equation: with `v` the fine
/// temperature's distance from 128000, the sensitivity and the offset are its polynomials
/// in `v`, each rounded down once, and the approximation is the quotient to the unit.
pub proof fn law_the_pressure_solves_the_datasheets_equation(c: Calibration, adc: int, fine: int)
    requires
        super::bme280::pressure_divisor(c, fine) != 0,
        super::bme280::fits64((fine - 128000) * c.dig_p5 * 0x2_0000),
    ensures
        ({
            let v = fine - 128000;
            let slope = super::bme280::pressure_slope(c, fine);
            let d = super::bme280::pressure_divisor(c, fine);
            let p = super::bme280::pressure_first(c, adc, fine);
            let exact = 0x80_0000_0000_0000 + v * v * c.dig_p3 + 0x10_0000 * (v * c.dig_p2);
            let above = (0x10_0000 - adc) * 0x8000_0000 - v * v * c.dig_p6 - 0x2_0000 * (v
                * c.dig_p5) - 0x8_0000_0000 * c.dig_p4;
            let left = 3125 * above - p * d;
            &&& 0 <= exact - 256 * slope < 256
            &&& 0 <= slope * c.dig_p1 - 0x2_0000_0000 * d < 0x2_0000_0000
            &&& d > 0 ==> -d < left < d
            &&& d < 0 ==> d < left < -d
        }),
{
    let v = fine - 128000;
    let n = super::bme280::pressure_numerator(c, adc, fine);
    let d = super::bme280::pressure_divisor(c, fine);
    let p = super::bme280::pressure_first(c, adc, fine);
    let m = n * 3125;
    assert(v * c.dig_p2 * 4096 == 4096 * (v * c.dig_p2));
    assert(v * c.dig_p5 * 0x2_0000 == 0x2_0000 * (v * c.dig_p5));
    assert(p == crate::math::div_toward_zero(m, d));
    lemma_quotient(m, d);
}

proof fn lemma_quotient(m: int, d: int)
    requires
        d != 0,
    ensures
        d > 0 ==> -d < m - crate::math::div_toward_zero(m, d) * d < d,
        d < 0 ==> d < m - crate::math::div_toward_zero(m, d) * d < -d,
{
    let (x, y) = (if m < 0 { -m } else { m }, if d < 0 { -d } else { d });
    let q = x / y;
    assert(0 <= x - q * y < y) by (nonlinear_arith)
        requires
            q == x / y,
            y > 0,
    ;
    let p = crate::math::div_toward_zero(m, d);
    assert(p == q || p == -q);
    assert((-q) * d == -(q * d)) by (nonlinear_arith);
    assert(q * (-d) == -(q * d)) by (nonlinear_arith);
}

/// The pressure that is told is the approximation with the datasheet's corrections: a
/// 2^19th of `p8 * p`, a 2^25th of `p9` by the square of `p`'s upper part, and `p7`.
pub proof fn law_the_pressure_is_corrected(c: Calibration, p: int)
    ensures
        ({
            let high = p / 8192;
            let told = super::bme280::pressure_final(c, p) - 16 * c.dig_p7;
            let exact = 0x200_0000 * p + c.dig_p9 * high * high + 64 * (c.dig_p8 * p);
            &&& 0 <= p - 8192 * high < 8192
            &&& 0 <= exact - 0x200_0000 * (256 * told) < 0x200_0000 * 258
        }),
{
}

/// A pressure is refused only where the formula would divide by zero.
pub proof fn law_a_pressure_is_told_unless_it_divides_by_zero(
    c: Calibration,
    adc: int,
    fine: int,
)
    ensures
        (super::bme280::pressure_q24_8(c, adc, fine) is None) == (super::bme280::pressure_divisor(
            c,
            fine,
        ) == 0),
        super::bme280::pressure_q24_8(c, adc, fine) matches Some(p) ==> p
            == super::bme280::pressure_final(
            c,
            super::bme280::pressure_first(c, adc, fine),
        ) as u32,
{
}

/// The steps that lead from a count to a humidity.
pub struct HumiditySteps {
    pub slow: int,
    pub fast: int,
    pub inner: int,
    pub gain: int,
    pub half: int,
    pub high: int,
    pub square: int,
    pub bend: int,
}

/// The humidity before it is held to its limits is the datasheet's: with `x` the fine
/// temperature's distance from 76800, a signal linear in the count, times a gain that the
/// temperature bends, less a share of its own square. Each step is rounded down once.
pub proof fn law_the_humidity_is_the_datasheets(c: Calibration, adc: int, fine: int) -> (w:
    HumiditySteps)
    requires
        0 <= adc <= 0xFFFF,
        -2048 <= c.dig_h4 < 2048,
    ensures
        ({
            let x = fine - 76800;
            let signal = 0x4000 * (adc + 1) - 0x10_0000 * c.dig_h4 - c.dig_h5 * x;
            let y = w.half * w.gain;
            &&& 0 <= x * c.dig_h6 - 1024 * w.slow < 1024
            &&& 0 <= x * c.dig_h3 - 2048 * w.fast < 2048
            &&& 0 <= w.slow * (w.fast + 0x8000) - 1024 * (w.inner - 0x20_0000) < 1024
            &&& 0 <= w.inner * c.dig_h2 + 8192 - 16384 * w.gain < 16384
            &&& 0 <= signal - 32768 * w.half < 32768
            &&& 0 <= y - 32768 * w.high < 32768
            &&& 0 <= w.high * w.high - 128 * w.square < 128
            &&& 0 <= w.square * c.dig_h1 - 16 * w.bend < 16
            &&& super::bme280::humidity_corrected(c, adc, fine) == y - w.bend
        }),
{
    let x = fine - 76800;
    let slow = x * c.dig_h6 / 1024;
    let fast = x * c.dig_h3 / 2048;
    let curve = slow * (fast + 32768);
    let inner = curve / 1024 + 2097152;
    let gain = (inner * c.dig_h2 + 8192) / 16384;
    let half = super::bme280::humidity_signal(c, adc, fine) / 32768;
    let y = half * gain;
    let high = y / 32768;
    let square = high * high / 128;
    let bend = square * c.dig_h1 / 16;
    HumiditySteps { slow, fast, inner, gain, half, high, square, bend }
}

/// A humidity is told to the 1024th of a percent, rounded down, and held between none and
/// a hundred percent.
pub proof fn law_a_humidity_is_held_between_its_limits(c: Calibration, adc: int, fine: int)
    ensures
        ({
            let exact = super::bme280::humidity_corrected(c, adc, fine);
            let told = super::bme280::humidity_q22_10(c, adc, fine);
            &&& 0 <= told <= 100 * 1024
            &&& exact <= 0 ==> told == 0
            &&& exact >= 4096 * (100 * 1024) ==> told == 100 * 1024
            &&& 0 <= exact <= 4096 * (100 * 1024) ==> 0 <= exact - 4096 * told < 4096
        }),
{
}

/// The bytes of a signed word, low one first, are those of its value.
pub open spec fn encodes(low: u8, high: u8, value: i16) -> bool {
    (value as int) % 0x1_0000 == low + 256 * high
}

/// The trim values are what the part holds: each one encodes to the very bytes that it was
/// read from. Twelve-bit ones share a byte, whose lower half is the first one's.
pub proof fn law_the_trim_values_are_the_parts(low: Seq<u8>, high: Seq<u8>)
    requires
        low.len() == 26,
        high.len() == 7,
    ensures
        ({
            let c = super::bme280::calibration_of(Variant::Bme280, low, high);
            &&& c.dig_t1 == low[0] + 256 * low[1]
            &&& encodes(low[2], low[3], c.dig_t2)
            &&& encodes(low[4], low[5], c.dig_t3)
            &&& c.dig_p1 == low[6] + 256 * low[7]
            &&& encodes(low[8], low[9], c.dig_p2)
            &&& encodes(low[10], low[11], c.dig_p3)
            &&& encodes(low[12], low[13], c.dig_p4)
            &&& encodes(low[14], low[15], c.dig_p5)
            &&& encodes(low[16], low[17], c.dig_p6)
            &&& encodes(low[18], low[19], c.dig_p7)
            &&& encodes(low[20], low[21], c.dig_p8)
            &&& encodes(low[22], low[23], c.dig_p9)
            &&& c.dig_h1 == low[25]
            &&& encodes(high[0], high[1], c.dig_h2)
            &&& c.dig_h3 == high[2]
            &&& -2048 <= c.dig_h4 < 2048
            &&& (c.dig_h4 as int) % 4096 == 16 * high[3] + high[4] % 16
            &&& -2048 <= c.dig_h5 < 2048
            &&& (c.dig_h5 as int) % 4096 == 16 * high[5] + high[4] / 16
            &&& (c.dig_h6 as int) % 256 == high[6]
        }),
        ({
            let c = super::bme280::calibration_of(Variant::Bme280, low, high);
            super::bme280::calibration_of(Variant::Bmp280, low, high) == (Calibration {
                dig_h2: 0,
                dig_h3: 0,
                dig_h4: 0,
                dig_h5: 0,
                dig_h6: 0,
                ..c
            })
        }),
{
}

/// The counts of a sample are its bytes: pressure first, then temperature, each twenty
/// bits from the top of three bytes, then humidity.
pub proof fn law_the_counts_are_the_samples(data: Seq<u8>)
    requires
        data.len() == 8,
    ensures
        ({
            let c = super::bme280::counts_of(Variant::Bme280, data);
            &&& 16 * c.pressure + data[2] % 16 == 0x1_0000 * data[0] + 256 * data[1] + data[2]
            &&& 16 * c.temperature + data[5] % 16 == 0x1_0000 * data[3] + 256 * data[4] + data[5]
            &&& c.humidity == Some((256 * data[6] + data[7]) as i32)
            &&& super::bme280::counts_of(Variant::Bmp280, data.take(6)).pressure == c.pressure
            &&& super::bme280::counts_of(Variant::Bmp280, data.take(6)).temperature
                == c.temperature
            &&& super::bme280::counts_of(Variant::Bmp280, data.take(6)).humidity is None
        }),
{
}

/// A sensor after some replies.
pub open spec fn carried_on(s: SensorView, replies: Seq<ReplyView>) -> SensorView
    decreases replies.len(),
{
    if replies.len() == 0 {
        s
    } else {
        super::bme280::initialised(carried_on(s, replies.drop_last()), replies.last()).0
    }
}

/// What it asks for then.
pub open spec fn asks(s: SensorView, replies: Seq<ReplyView>) -> Request {
    super::bme280::initialised(carried_on(s, replies.drop_last()), replies.last()).1
}

proof fn lemma_carried_on(s: SensorView, replies: Seq<ReplyView>, reply: ReplyView)
    ensures
        carried_on(s, replies.push(reply)) == super::bme280::initialised(
            carried_on(s, replies),
            reply,
        ).0,
        asks(s, replies.push(reply)) == super::bme280::initialised(
            carried_on(s, replies),
            reply,
        ).1,
{
    assert(replies.push(reply).drop_last() =~= replies);
}

/// The initialisation of a BME280 on I2C, register by register: its id, a reset, both
/// blocks of trim values, the humidity setting before the one that makes it effective, and
/// the standby time. Then, and with these trim values, it is usable.
pub proof fn law_a_bme280_is_initialised_in_order(s: SensorView, low: Seq<u8>, high: Seq<u8>)
    requires
        s.transport is I2c,
        low.len() == 26,
        high.len() == 7,
    ensures
        ({
            let r1 = Seq::<ReplyView>::empty().push(ReplyView::Start);
            let r2 = r1.push(ReplyView::Data(seq![0x60u8]));
            let r3 = r2.push(ReplyView::Written);
            let r4 = r3.push(ReplyView::Data(low));
            let r5 = r4.push(ReplyView::Data(high));
            let r6 = r5.push(ReplyView::Written);
            let r7 = r6.push(ReplyView::Written);
            let r8 = r7.push(ReplyView::Written);
            let end = carried_on(s, r8);
            &&& asks(s, r1) == (Request::Read { addr: 0xD0, len: 1 })
            &&& asks(s, r2) == (Request::Write { addr: 0xE0, value: 0xB6 })
            &&& asks(s, r3) == (Request::Read { addr: 0x88, len: 26 })
            &&& asks(s, r4) == (Request::Read { addr: 0xE1, len: 7 })
            &&& asks(s, r5) == (Request::Write { addr: 0xF2, value: 0x01 })
            &&& asks(s, r6) == (Request::Write { addr: 0xF4, value: 0x27 })
            &&& asks(s, r7) == (Request::Write { addr: 0xF5, value: 0xA0 })
            &&& asks(s, r8) == Request::Done(Ok::<(), BusError>(()))
            &&& end.variant == Some(Variant::Bme280)
            &&& end.calib == Some(super::bme280::calibration_of(Variant::Bme280, low, high))
        }),
{
    let r1 = Seq::<ReplyView>::empty().push(ReplyView::Start);
    let r2 = r1.push(ReplyView::Data(seq![0x60u8]));
    let r3 = r2.push(ReplyView::Written);
    let r4 = r3.push(ReplyView::Data(low));
    let r5 = r4.push(ReplyView::Data(high));
    lemma_trimmed(s, low, high);
    lemma_settled(s, r5);
}

proof fn lemma_trimmed(s: SensorView, low: Seq<u8>, high: Seq<u8>)
    requires
        s.transport is I2c,
        low.len() == 26,
        high.len() == 7,
    ensures
        ({
            let r1 = Seq::<ReplyView>::empty().push(ReplyView::Start);
            let r2 = r1.push(ReplyView::Data(seq![0x60u8]));
            let r3 = r2.push(ReplyView::Written);
            let r4 = r3.push(ReplyView::Data(low));
            let r5 = r4.push(ReplyView::Data(high));
            let at = carried_on(s, r5);
            &&& asks(s, r1) == (Request::Read { addr: 0xD0, len: 1 })
            &&& asks(s, r2) == (Request::Write { addr: 0xE0, value: 0xB6 })
            &&& asks(s, r3) == (Request::Read { addr: 0x88, len: 26 })
            &&& asks(s, r4) == (Request::Read { addr: 0xE1, len: 7 })
            &&& asks(s, r5) == (Request::Write { addr: 0xF2, value: 0x01 })
            &&& at.stage is Humidity
            &&& at.transport is I2c
            &&& at.found is Bme280
            &&& at.trim == super::bme280::calibration_of(Variant::Bme280, low, high)
        }),
{
    let r1 = Seq::<ReplyView>::empty().push(ReplyView::Start);
    let r2 = r1.push(ReplyView::Data(seq![0x60u8]));
    let r3 = r2.push(ReplyView::Written);
    let r4 = r3.push(ReplyView::Data(low));
    lemma_carried_on(s, Seq::empty(), ReplyView::Start);
    lemma_carried_on(s, r1, ReplyView::Data(seq![0x60u8]));
    lemma_carried_on(s, r2, ReplyView::Written);
    let at = carried_on(s, r3);
    assert(at.stage is LowTrim && at.found is Bme280 && at.transport is I2c);
    lemma_carried_on(s, r3, ReplyView::Data(low));
    lemma_carried_on(s, r4, ReplyView::Data(high));
    lemma_blocks(at, low, high);
}

proof fn lemma_blocks(at: SensorView, low: Seq<u8>, high: Seq<u8>)
    requires
        at.stage is LowTrim,
        at.found is Bme280,
        at.transport is I2c,
        low.len() == 26,
        high.len() == 7,
    ensures
        ({
            let (one, first) = super::bme280::initialised(at, ReplyView::Data(low));
            let (two, second) = super::bme280::initialised(one, ReplyView::Data(high));
            &&& first == (Request::Read { addr: 0xE1, len: 7 })
            &&& second == (Request::Write { addr: 0xF2, value: 0x01 })
            &&& two.stage is Humidity
            &&& two.transport is I2c
            &&& two.found is Bme280
            &&& two.trim == super::bme280::calibration_of(Variant::Bme280, low, high)
        }),
{
    assert(at.found == Variant::Bme280);
}

proof fn lemma_settled(s: SensorView, r5: Seq<ReplyView>)
    requires
        carried_on(s, r5).stage is Humidity,
        carried_on(s, r5).transport is I2c,
    ensures
        ({
            let r6 = r5.push(ReplyView::Written);
            let r7 = r6.push(ReplyView::Written);
            let r8 = r7.push(ReplyView::Written);
            let end = carried_on(s, r8);
            &&& asks(s, r6) == (Request::Write { addr: 0xF4, value: 0x27 })
            &&& asks(s, r7) == (Request::Write { addr: 0xF5, value: 0xA0 })
            &&& asks(s, r8) == Request::Done(Ok::<(), BusError>(()))
            &&& end.variant == Some(carried_on(s, r5).found)
            &&& end.calib == Some(carried_on(s, r5).trim)
        }),
{
    let r6 = r5.push(ReplyView::Written);
    let r7 = r6.push(ReplyView::Written);
    lemma_carried_on(s, r5, ReplyView::Written);
    lemma_carried_on(s, r6, ReplyView::Written);
    lemma_carried_on(s, r7, ReplyView::Written);
}

/// A BMP280, which has no humidity, is initialised without what belongs to it.
pub proof fn law_a_bmp280_is_initialised_without_humidity(s: SensorView, low: Seq<u8>)
    requires
        s.transport is I2c,
        low.len() == 26,
    ensures
        ({
            let r1 = Seq::<ReplyView>::empty().push(ReplyView::Start);
            let r2 = r1.push(ReplyView::Data(seq![0x58u8]));
            let r3 = r2.push(ReplyView::Written);
            let r4 = r3.push(ReplyView::Data(low));
            let r5 = r4.push(ReplyView::Written);
            let r6 = r5.push(ReplyView::Written);
            let end = carried_on(s, r6);
            &&& asks(s, r2) == (Request::Write { addr: 0xE0, value: 0xB6 })
            &&& asks(s, r3) == (Request::Read { addr: 0x88, len: 26 })
            &&& asks(s, r4) == (Request::Write { addr: 0xF4, value: 0x27 })
            &&& asks(s, r5) == (Request::Write { addr: 0xF5, value: 0xA0 })
            &&& asks(s, r6) == Request::Done(Ok::<(), BusError>(()))
            &&& end.variant == Some(Variant::Bmp280)
            &&& end.calib == Some(
                super::bme280::calibration_of(Variant::Bmp280, low, Seq::empty()),
            )
        }),
{
    let r1 = Seq::<ReplyView>::empty().push(ReplyView::Start);
    let r2 = r1.push(ReplyView::Data(seq![0x58u8]));
    let r3 = r2.push(ReplyView::Written);
    let r4 = r3.push(ReplyView::Data(low));
    let r5 = r4.push(ReplyView::Written);
    lemma_carried_on(s, Seq::empty(), ReplyView::Start);
    lemma_carried_on(s, r1, ReplyView::Data(seq![0x58u8]));
    lemma_carried_on(s, r2, ReplyView::Written);
    lemma_carried_on(s, r3, ReplyView::Data(low));
    lemma_carried_on(s, r4, ReplyView::Written);
    lemma_carried_on(s, r5, ReplyView::Written);
}

/// Any other part is refused as not there, and a failure of the bus is handed on as it is.
pub proof fn law_another_part_is_refused(s: SensorView, id: u8, e: BusError)
    ensures
        ({
            let start = super::bme280::initialised(s, ReplyView::Start).0;
            let told = super::bme280::initialised(start, ReplyView::Data(seq![id])).1;
            (told == Request::Done(Err::<(), BusError>(BusError::DeviceNotResponding))) == (id
                != 0x60 && id != 0x58)
        }),
        super::bme280::initialised(s, ReplyView::Failed(e)).1 == Request::Done(
            Err::<(), BusError>(e),
        ),
{
}

/// A sample is read from one register on, eight bytes of a part with humidity and six of one
/// without; there is none before the initialisation, and no humidity of a part without it.
pub proof fn law_a_sample_is_read_from_the_pressure_on(s: SensorView, quantity: Quantity)
    requires
        s.transport is I2c,
    ensures
        super::bme280::sampling(s, quantity) == if s.calib is None || s.variant is None || (
        quantity is Humidity && s.variant == Some(Variant::Bmp280)) {
            Err::<(u8, usize), BusError>(BusError::InvalidConfig)
        } else {
            Ok::<(u8, usize), BusError>(
                (
                    0xF7,
                    if s.variant == Some(Variant::Bme280) {
                        8
                    } else {
                        6
                    },
                ),
            )
        },
{
}

/// What an initialised sensor tells of a sample: its temperature to the nearest hundredth of a
/// degree, its pressure unless the trim values make none of it, and its humidity, all by the
/// sample's own temperature. Before the initialisation it tells nothing.
pub proof fn law_a_sample_is_told_in_its_units(s: SensorView, data: Seq<u8>)
    requires
        super::bme280::sample_usable(s, data),
    ensures
        s.calib is None || s.variant is None ==> super::bme280::told_temperature(s, data)
            == Err::<i32, BusError>(BusError::InvalidConfig) && super::bme280::told_pressure(
            s,
            data,
        ) == Err::<u32, BusError>(BusError::InvalidConfig) && super::bme280::told_humidity(s, data)
            == Err::<u32, BusError>(BusError::InvalidConfig),
        s.variant == Some(Variant::Bmp280) ==> super::bme280::told_humidity(s, data) == Err::<
            u32,
            BusError,
        >(BusError::InvalidConfig),
        s.calib is Some && s.variant is Some ==> {
            let c = s.calib->0;
            let t = (65536 * data[3] + 256 * data[4] + data[5]) / 16;
            let p = (65536 * data[0] + 256 * data[1] + data[2]) / 16;
            let fine = super::bme280::fine_temperature(c, t);
            &&& super::bme280::told_temperature(s, data) matches Ok(told) && -128 <= 5 * fine - 256
                * told <= 128
            &&& super::bme280::told_pressure(s, data) == if super::bme280::pressure_divisor(c, fine)
                == 0 {
                Err::<u32, BusError>(BusError::InvalidConfig)
            } else {
                Ok::<u32, BusError>(
                    super::bme280::pressure_final(
                        c,
                        super::bme280::pressure_first(c, p, fine),
                    ) as u32,
                )
            }
            &&& s.variant == Some(Variant::Bme280) ==> super::bme280::told_humidity(s, data)
                == Ok::<u32, BusError>(
                super::bme280::humidity_q22_10(c, 256 * data[6] + data[7], fine) as u32,
            )
        },
{
}

} // verus!
