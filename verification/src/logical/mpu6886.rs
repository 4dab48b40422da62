//! InvenSense MPU6886, a six-axis IMU. Readings are integers throughout.

use vstd::prelude::*;

use super::RegOp;
use crate::math::{bytes_to_signed, div_i32};

verus! {

/// I2C address with AD0 low.
pub const ADDR: u8 = 0x68;

pub const REG_WHO_AM_I: u8 = 0x75;
/// What the identity register holds.
pub const WHO_AM_I: u8 = 0x19;

pub const REG_SMPLRT_DIV: u8 = 0x19;
pub const REG_CONFIG: u8 = 0x1A;
pub const REG_GYRO_CONFIG: u8 = 0x1B;
pub const REG_ACCEL_CONFIG: u8 = 0x1C;
pub const REG_ACCEL_CONFIG2: u8 = 0x1D;
pub const REG_FIFO_EN: u8 = 0x23;
pub const REG_INT_ENABLE: u8 = 0x38;
pub const REG_ACCEL_XOUT_H: u8 = 0x3B;
pub const REG_TEMP_OUT_H: u8 = 0x41;
pub const REG_GYRO_XOUT_H: u8 = 0x43;
pub const REG_USER_CTRL: u8 = 0x6A;
pub const REG_PWR_MGMT_1: u8 = 0x6B;

/// Soft reset.
pub const PWR_DEVICE_RESET: u8 = 1 << 7;
/// The PLL as clock.
pub const PWR_CLK_PLL: u8 = 0x01;
/// Full scale of 8 g, in bits 4:3.
pub const ACCEL_FS_8G: u8 = 2 << 3;
/// Full scale of 2000 degrees per second, in bits 4:3.
pub const GYRO_FS_2000DPS: u8 = 3 << 3;

/// A three-axis reading, in raw counts.
#[derive(Clone, Copy, Debug, PartialEq, Eq, Structural)]
pub struct Axes {
    pub x: i16,
    pub y: i16,
    pub z: i16,
}

impl Default for Axes {
    fn default() -> (a: Self)
        ensures
            a == (Axes { x: 0, y: 0, z: 0 }),
    {
        Axes { x: 0, y: 0, z: 0 }
    }
}

/// The nearest value an `i16` can hold.
pub open spec fn saturated(v: int) -> i16 {
    if v > i16::MAX {
        i16::MAX
    } else if v < i16::MIN {
        i16::MIN
    } else {
        v as i16
    }
}

/// `raw * num / den`, towards zero and saturated.
pub open spec fn scaled(raw: i16, num: int, den: int) -> i16 {
    saturated(crate::math::div_toward_zero(raw * num, den))
}

/// `raw * num / den`, towards zero and saturated.
pub fn scale(raw: i16, num: i32, den: i32) -> (r: i16)
    requires
        i32::MIN <= raw * num <= i32::MAX,
        den != 0,
        !(raw * num == i32::MIN && den == -1),
    ensures
        r == scaled(raw, num as int, den as int),
{
    let v: i32 = div_i32(raw as i32 * num, den);
    if v > i16::MAX as i32 {
        i16::MAX
    } else if v < i16::MIN as i32 {
        i16::MIN
    } else {
        v as i16
    }
}

/// Counts as milli-g at 8 g full scale.
pub open spec fn in_milli_g(a: Axes) -> Axes {
    Axes { x: scaled(a.x, 125, 512), y: scaled(a.y, 125, 512), z: scaled(a.z, 125, 512) }
}

/// Counts as milli-degrees per second at 2000 degrees per second full scale.
pub open spec fn in_milli_dps(a: Axes) -> Axes {
    Axes { x: scaled(a.x, 125, 2), y: scaled(a.y, 125, 2), z: scaled(a.z, 125, 2) }
}

impl Axes {
    /// Acceleration in milli-g at 8 g full scale: `raw * 8000 / 32768`.
    pub fn to_milli_g(self) -> (a: Self)
        ensures
            a == in_milli_g(self),
    {
        Axes { x: scale(self.x, 125, 512), y: scale(self.y, 125, 512), z: scale(self.z, 125, 512) }
    }

    /// Angular rate in milli-degrees per second at 2000 degrees per second full
    /// scale, by `raw * 125 / 2`, saturated.
    pub fn to_milli_dps(self) -> (a: Self)
        ensures
            a == in_milli_dps(self),
    {
        Axes { x: scale(self.x, 125, 2), y: scale(self.y, 125, 2), z: scale(self.z, 125, 2) }
    }
}

/// The writes that configure the part for 8 g and 2000 degrees per second,
/// polled, without FIFO.
pub open spec fn configuration() -> Seq<RegOp> {
    seq![
        RegOp::Write { reg: REG_ACCEL_CONFIG, value: ACCEL_FS_8G },
        RegOp::Write { reg: REG_GYRO_CONFIG, value: GYRO_FS_2000DPS },
        RegOp::Write { reg: REG_CONFIG, value: 0x01 },
        RegOp::Write { reg: REG_SMPLRT_DIV, value: 0x05 },
        RegOp::Write { reg: REG_INT_ENABLE, value: 0x00 },
        RegOp::Write { reg: REG_ACCEL_CONFIG2, value: 0x00 },
        RegOp::Write { reg: REG_USER_CTRL, value: 0x00 },
        RegOp::Write { reg: REG_FIFO_EN, value: 0x00 },
    ]
}

/// The writes that leave sleep and reset the part: a reset issued asleep does not
/// take.
pub open spec fn resetting() -> Seq<RegOp> {
    seq![
        RegOp::Write { reg: REG_PWR_MGMT_1, value: 0x00 },
        RegOp::Write { reg: REG_PWR_MGMT_1, value: PWR_DEVICE_RESET },
    ]
}

/// The write that selects the PLL.
pub open spec fn waking() -> Seq<RegOp> {
    seq![RegOp::Write { reg: REG_PWR_MGMT_1, value: PWR_CLK_PLL }]
}

/// The three big-endian words of a burst.
pub open spec fn axes_of(b: Seq<u8>) -> Axes {
    Axes {
        x: crate::math::signed16(b[1], b[0]) as i16,
        y: crate::math::signed16(b[3], b[2]) as i16,
        z: crate::math::signed16(b[5], b[4]) as i16,
    }
}

/// The die's temperature in milli-degrees, from its big-endian word.
pub open spec fn milli_celsius(b: Seq<u8>) -> int {
    crate::math::div_toward_zero(crate::math::signed16(b[1], b[0]) * 10_000, 3268) + 25_000
}

/// What brings the part up.
pub open spec fn bringing_up() -> Seq<RegOp> {
    resetting() + seq![RegOp::DelayMs(10)] + waking() + seq![RegOp::DelayMs(10)] + configuration()
}

/// An MPU6886.
#[derive(Clone, Copy, Debug)]
pub struct Mpu6886 {}

impl Mpu6886 {
    pub fn new() -> (imu: Self)
        ensures
            imu == (Mpu6886 {  }),
    {
        Mpu6886 {  }
    }

    /// Whether an MPU6886 is answering, by its identity register.
    pub fn is_present(&self, who_am_i: u8) -> (b: bool)
        ensures
            b == (who_am_i == WHO_AM_I),
    {
        who_am_i == WHO_AM_I
    }

    /// Leaves sleep, then resets. The part needs 10 ms afterwards.
    pub fn reset(&self) -> (ops: Vec<RegOp>)
        ensures
            ops@ == resetting(),
    {
        let ops: Vec<RegOp> = vec![
            RegOp::Write { reg: REG_PWR_MGMT_1, value: 0x00 },
            RegOp::Write { reg: REG_PWR_MGMT_1, value: PWR_DEVICE_RESET },
        ];
        assert(ops@ =~= resetting());
        ops
    }

    /// Selects the PLL. The part needs 10 ms afterwards.
    pub fn wake(&self) -> (ops: Vec<RegOp>)
        ensures
            ops@ == waking(),
    {
        let ops: Vec<RegOp> = vec![RegOp::Write { reg: REG_PWR_MGMT_1, value: PWR_CLK_PLL }];
        assert(ops@ =~= waking());
        ops
    }

    /// Configures the full scales that the conversions assume.
    pub fn configure(&self) -> (ops: Vec<RegOp>)
        ensures
            ops@ == configuration(),
    {
        let ops: Vec<RegOp> = vec![
            RegOp::Write { reg: REG_ACCEL_CONFIG, value: ACCEL_FS_8G },
            RegOp::Write { reg: REG_GYRO_CONFIG, value: GYRO_FS_2000DPS },
            RegOp::Write { reg: REG_CONFIG, value: 0x01 },
            RegOp::Write { reg: REG_SMPLRT_DIV, value: 0x05 },
            RegOp::Write { reg: REG_INT_ENABLE, value: 0x00 },
            RegOp::Write { reg: REG_ACCEL_CONFIG2, value: 0x00 },
            RegOp::Write { reg: REG_USER_CTRL, value: 0x00 },
            RegOp::Write { reg: REG_FIFO_EN, value: 0x00 },
        ];
        assert(ops@ =~= configuration());
        ops
    }

    /// Reset, wait, wake, wait, configure.
    pub fn bring_up(&self) -> (ops: Vec<RegOp>)
        ensures
            ops@ == bringing_up(),
    {
        let mut ops: Vec<RegOp> = self.reset();
        ops.push(RegOp::DelayMs(10));
        let mut wake: Vec<RegOp> = self.wake();
        ops.append(&mut wake);
        ops.push(RegOp::DelayMs(10));
        let mut configure: Vec<RegOp> = self.configure();
        ops.append(&mut configure);
        assert(ops@ =~= bringing_up());
        ops
    }

    fn read_axes(&self, b: &[u8; 6]) -> (a: Axes)
        ensures
            a == axes_of(b@),
    {
        Axes {
            x: bytes_to_signed(b[1], b[0]),
            y: bytes_to_signed(b[3], b[2]),
            z: bytes_to_signed(b[5], b[4]),
        }
    }

    /// The acceleration, by a burst from [`REG_ACCEL_XOUT_H`].
    pub fn accel(&self, burst: &[u8; 6]) -> (a: Axes)
        ensures
            a == axes_of(burst@),
    {
        self.read_axes(burst)
    }

    /// The angular rate, by a burst from [`REG_GYRO_XOUT_H`].
    pub fn gyro(&self, burst: &[u8; 6]) -> (a: Axes)
        ensures
            a == axes_of(burst@),
    {
        self.read_axes(burst)
    }

    /// The die's temperature in milli-degrees Celsius, by the two bytes of the
    /// temperature register: `raw / 326.8 + 25` degrees.
    pub fn temperature_milli_c(&self, b: &[u8; 2]) -> (t: i32)
        ensures
            t == milli_celsius(b@),
    {
        let raw: i32 = bytes_to_signed(b[1], b[0]) as i32;
        raw * 10_000 / 3268 + 25_000
    }
}

/// `told` is `exact / 32768`, less than one off and never beyond it.
pub open spec fn near_zero_side(told: int, exact: int) -> bool {
    if exact >= 0 {
        0 <= exact - 32768 * told < 32768
    } else {
        0 <= 32768 * told - exact < 32768
    }
}

/// An acceleration is the counts' share of 8 g: 8000 milli-g are 32768 counts, on each
/// axis by itself.
pub proof fn law_an_acceleration_is_to_scale(a: Axes)
    ensures
        near_zero_side(in_milli_g(a).x as int, 8000 * a.x),
        near_zero_side(in_milli_g(a).y as int, 8000 * a.y),
        near_zero_side(in_milli_g(a).z as int, 8000 * a.z),
{
}

/// `told` is half of `twice`, less than one off and never beyond it, or the end of the
/// scale where that lies beyond the end.
pub open spec fn half_or_the_end(told: i16, twice: int) -> bool {
    if twice >= 2 * 32768 {
        told == 32767
    } else if twice <= -2 * 32769 {
        told == -32768
    } else if twice >= 0 {
        0 <= twice - 2 * told < 2
    } else {
        0 <= 2 * told - twice < 2
    }
}

/// A count is 62.5 milli-degrees per second on each axis by itself. What an axis cannot
/// hold is told as its end, with the right sign.
pub proof fn law_a_rate_is_to_scale(a: Axes)
    ensures
        half_or_the_end(in_milli_dps(a).x, 125 * a.x),
        half_or_the_end(in_milli_dps(a).y, 125 * a.y),
        half_or_the_end(in_milli_dps(a).z, 125 * a.z),
{
}

/// A burst's words come high byte first, x, y and z in this order.
pub proof fn law_a_burst_is_big_endian(b: Seq<u8>)
    requires
        b.len() == 6,
    ensures
        (axes_of(b).x as int) % 0x1_0000 == 256 * b[0] + b[1],
        (axes_of(b).y as int) % 0x1_0000 == 256 * b[2] + b[3],
        (axes_of(b).z as int) % 0x1_0000 == 256 * b[4] + b[5],
{
}

/// The die is at 25 degrees where its word is zero, and 326.8 counts are a degree, above
/// and below.
pub proof fn law_the_die_is_measured_from_25_degrees(b: Seq<u8>, raw: i16)
    requires
        b.len() == 2,
        (raw as int) % 0x1_0000 == 256 * b[0] + b[1],
    ensures
        ({
            let above = milli_celsius(b) - 25_000;
            &&& raw >= 0 ==> 0 <= 10_000 * raw - 3268 * above < 3268
            &&& raw < 0 ==> 0 <= 3268 * above - 10_000 * raw < 3268
        }),
{
    assert(crate::math::signed16(b[1], b[0]) == raw);
}

/// The part: what its registers hold, whether it sleeps, and whether it is still busy
/// with a reset or a change of clock.
pub struct Part {
    pub words: Map<u8, u8>,
    pub asleep: bool,
    pub busy: bool,
    pub resets: nat,
}

/// The part after one access. A write while it is busy is lost; so is a reset while it
/// sleeps. A reset clears the registers and ends asleep.
pub open spec fn part_after(p: Part, op: RegOp) -> Part {
    match op {
        RegOp::DelayMs(ms) => Part { busy: p.busy && ms < 10, ..p },
        RegOp::Update { .. } => p,
        RegOp::Write { reg, value } => if p.busy {
            p
        } else if reg != 0x6B {
            Part { words: p.words.insert(reg, value), ..p }
        } else if value == 0x80 {
            if p.asleep {
                p
            } else {
                Part { words: Map::empty(), asleep: true, busy: true, resets: p.resets + 1 }
            }
        } else {
            Part { asleep: value / 64 % 2 == 1, busy: value % 8 == 1, ..p }
        },
    }
}

/// The part after a list of accesses.
pub open spec fn part_after_all(p: Part, ops: Seq<RegOp>) -> Part
    decreases ops.len(),
{
    if ops.len() == 0 {
        p
    } else {
        part_after(part_after_all(p, ops.drop_last()), ops.last())
    }
}

proof fn lemma_part_after(p: Part, ops: Seq<RegOp>, k: int)
    requires
        0 < k <= ops.len(),
    ensures
        part_after_all(p, ops.take(k)) == part_after(part_after_all(p, ops.take(k - 1)), ops[k
            - 1]),
{
    assert(ops.take(k).drop_last() =~= ops.take(k - 1));
}

/// However the part was left, unless it is busy, bringing it up resets it once, and
/// leaves it awake with both full scales that the conversions assume, without FIFO and
/// without interrupts.
pub proof fn law_a_part_comes_up_as_configured(p: Part)
    requires
        !p.busy,
    ensures
        ({
            let up = part_after_all(p, bringing_up());
            &&& up.resets == p.resets + 1
            &&& !up.asleep
            &&& !up.busy
            &&& up.words == map![
                0x1Cu8 => 0x10u8,
                0x1Bu8 => 0x18u8,
                0x1Au8 => 0x01u8,
                0x19u8 => 0x05u8,
                0x38u8 => 0x00u8,
                0x1Du8 => 0x00u8,
                0x6Au8 => 0x00u8,
                0x23u8 => 0x00u8,
            ]
        }),
{
    let ops = bringing_up();
    assert(PWR_DEVICE_RESET == 0x80 && ACCEL_FS_8G == 0x10 && GYRO_FS_2000DPS == 0x18) by {
        lemma_shifts();
    }
    assert(part_after_all(p, ops.take(0)) == p);
    lemma_part_after(p, ops, 1);
    lemma_part_after(p, ops, 2);
    lemma_part_after(p, ops, 3);
    lemma_part_after(p, ops, 4);
    lemma_part_after(p, ops, 5);
    lemma_part_after(p, ops, 6);
    lemma_part_after(p, ops, 7);
    lemma_part_after(p, ops, 8);
    lemma_part_after(p, ops, 9);
    lemma_part_after(p, ops, 10);
    lemma_part_after(p, ops, 11);
    lemma_part_after(p, ops, 12);
    lemma_part_after(p, ops, 13);
    assert(ops.take(13) =~= ops);
    let up = part_after_all(p, ops);
    assert(up.words =~= map![
        0x1Cu8 => 0x10u8,
        0x1Bu8 => 0x18u8,
        0x1Au8 => 0x01u8,
        0x19u8 => 0x05u8,
        0x38u8 => 0x00u8,
        0x1Du8 => 0x00u8,
        0x6Au8 => 0x00u8,
        0x23u8 => 0x00u8,
    ]);
}

proof fn lemma_shifts()
    by (bit_vector)
    ensures
        1u8 << 7 == 0x80,
        2u8 << 3 == 0x10,
        3u8 << 3 == 0x18,
{
}

} // verus!
