//! ADC1: eight channels of analog input on GPIO 32 to 39, as raw counts.

use vstd::prelude::*;

use super::RegOp;

verus! {

pub const SENS_BASE: u32 = 0x3FF4_8800;

pub const SAR_READ_CTRL: u32 = SENS_BASE + 0x00;
pub const SAR_ATTEN1: u32 = SENS_BASE + 0x34;
pub const SAR_MEAS_START1: u32 = SENS_BASE + 0x54;
pub const SAR_MEAS_WAIT2: u32 = SENS_BASE + 0x0C;
pub const SAR_MEAS_CTRL: u32 = SENS_BASE + 0x10;
pub const SAR_TOUCH_CTRL1: u32 = SENS_BASE + 0x58;

/// Take the hall sensor, which shares the input, from the coprocessor.
pub const XPD_HALL_FORCE: u32 = 1 << 26;
pub const HALL_PHASE_FORCE: u32 = 1 << 27;

pub const RTC_HALL_SENS: u32 = 0x3FF4_8400 + 0x78;
pub const XPD_HALL: u32 = 1 << 31;

pub const FORCE_XPD_AMP_SHIFT: u32 = 16;
pub const FORCE_XPD_AMP_OFF: u32 = 2;
pub const FORCE_XPD_AMP_MASK: u32 = 0x3;

/// The amplifier's state machine.
pub const AMP_FSM_MASK: u32 = 0xFFF0;

pub const FORCE_XPD_SAR_SHIFT: u32 = 18;
pub const FORCE_XPD_SAR_ON: u32 = 3;
pub const FORCE_XPD_SAR_MASK: u32 = 0x3;

pub const SAMPLE_BIT_SHIFT: u32 = 16;
/// Twelve bits.
pub const SAMPLE_BIT_12: u32 = 3;
pub const SAMPLE_BIT_MASK: u32 = 0x3;

/// The digital controller drives the converter.
pub const SAR1_DIG_FORCE: u32 = 1 << 27;
/// Undoes the result's inversion.
pub const SAR1_DATA_INV: u32 = 1 << 28;

pub const EN_PAD_FORCE: u32 = 1 << 31;
pub const EN_PAD_SHIFT: u32 = 19;
pub const EN_PAD_MASK: u32 = 0xFFF;
pub const MEAS_START_FORCE: u32 = 1 << 18;
pub const MEAS_START_SAR: u32 = 1 << 17;
pub const MEAS_DONE_SAR: u32 = 1 << 16;
pub const MEAS_DATA_MASK: u32 = 0xFFFF;

/// The count at full scale.
pub const FULL_SCALE: u16 = 4095;

/// Input attenuation: a wider range for less accuracy.
#[derive(Clone, Copy, Debug, PartialEq, Eq, Structural)]
pub enum Attenuation {
    Db0,
    Db2_5,
    Db6,
    Db11,
}

impl Attenuation {
    /// The attenuation's two-bit code.
    pub open spec fn spec_code(self) -> u32 {
        match self {
            Attenuation::Db0 => 0,
            Attenuation::Db2_5 => 1,
            Attenuation::Db6 => 2,
            Attenuation::Db11 => 3,
        }
    }

    /// The attenuation's two-bit code.
    pub fn code(self) -> (c: u32)
        ensures
            c == self.spec_code(),
            c <= 3,
    {
        match self {
            Attenuation::Db0 => 0,
            Attenuation::Db2_5 => 1,
            Attenuation::Db6 => 2,
            Attenuation::Db11 => 3,
        }
    }
}

/// A channel, named by the GPIO it reads. Channels are not in pin order.
#[derive(Clone, Copy, Debug, PartialEq, Eq, Structural)]
pub enum Channel {
    Gpio36,
    Gpio37,
    Gpio38,
    Gpio39,
    Gpio32,
    Gpio33,
    Gpio34,
    Gpio35,
}

/// The GPIO a channel reads.
pub open spec fn channel_gpio(ch: Channel) -> u8 {
    match ch {
        Channel::Gpio36 => 36,
        Channel::Gpio37 => 37,
        Channel::Gpio38 => 38,
        Channel::Gpio39 => 39,
        Channel::Gpio32 => 32,
        Channel::Gpio33 => 33,
        Channel::Gpio34 => 34,
        Channel::Gpio35 => 35,
    }
}

/// The channel's number.
pub open spec fn channel_index(ch: Channel) -> u32 {
    match ch {
        Channel::Gpio36 => 0,
        Channel::Gpio37 => 1,
        Channel::Gpio38 => 2,
        Channel::Gpio39 => 3,
        Channel::Gpio32 => 4,
        Channel::Gpio33 => 5,
        Channel::Gpio34 => 6,
        Channel::Gpio35 => 7,
    }
}

impl Channel {
    /// The GPIO this channel reads.
    pub fn gpio(self) -> (gpio: u8)
        ensures
            gpio == channel_gpio(self),
    {
        match self {
            Channel::Gpio36 => 36,
            Channel::Gpio37 => 37,
            Channel::Gpio38 => 38,
            Channel::Gpio39 => 39,
            Channel::Gpio32 => 32,
            Channel::Gpio33 => 33,
            Channel::Gpio34 => 34,
            Channel::Gpio35 => 35,
        }
    }

    /// The channel that reads `gpio`, if there is one.
    pub fn from_gpio(gpio: u8) -> (ch: Option<Self>)
        ensures
            ch is Some <==> 32 <= gpio <= 39,
            ch matches Some(c) ==> channel_gpio(c) == gpio,
    {
        match gpio {
            36 => Some(Channel::Gpio36),
            37 => Some(Channel::Gpio37),
            38 => Some(Channel::Gpio38),
            39 => Some(Channel::Gpio39),
            32 => Some(Channel::Gpio32),
            33 => Some(Channel::Gpio33),
            34 => Some(Channel::Gpio34),
            35 => Some(Channel::Gpio35),
            _ => None,
        }
    }

    /// The channel's number.
    pub fn index(self) -> (i: u32)
        ensures
            i == channel_index(self),
            i < 8,
    {
        match self {
            Channel::Gpio36 => 0,
            Channel::Gpio37 => 1,
            Channel::Gpio38 => 2,
            Channel::Gpio39 => 3,
            Channel::Gpio32 => 4,
            Channel::Gpio33 => 5,
            Channel::Gpio34 => 6,
            Channel::Gpio35 => 7,
        }
    }
}

/// No two channels read one GPIO, and none has another's number.
pub proof fn law_channels_are_distinct(a: Channel, b: Channel)
    requires
        a != b,
    ensures
        channel_gpio(a) != channel_gpio(b),
        channel_index(a) != channel_index(b),
{
}

/// Why a reading or a pad change failed.
#[derive(Clone, Copy, Debug, PartialEq, Eq, Structural)]
pub enum AdcError {
    /// The conversion was never reported done.
    Timeout,
    /// GPIO 34 to 39 have no pull resistors.
    NoPullOnThisPad,
}

/// What a pad's own resistor does.
#[derive(Clone, Copy, Debug, PartialEq, Eq, Structural)]
pub enum Pull {
    Off,
    Up,
    Down,
}

pub const RTCIO_BASE: u32 = 0x3FF4_8400;

/// The first touch pad's register; the others follow.
pub const TOUCH_PAD0: u32 = RTCIO_BASE + 0x94;

/// Hands the pad to the RTC domain.
pub const PAD_MUX_SEL: u32 = 1 << 19;
/// The pad's RTC function, of which only zero is not reserved.
pub const PAD_FUN_SEL_MASK: u32 = 0x3 << 17;
/// The pad's digital input buffer.
pub const PAD_FUN_IE: u32 = 1 << 13;
/// The touch sensor's power and start.
pub const PAD_TOUCH_XPD: u32 = 1 << 20;
pub const PAD_TOUCH_START: u32 = 1 << 22;
pub const PAD_RUE: u32 = 1 << 27;
pub const PAD_RDE: u32 = 1 << 28;

pub const RTC_GPIO_OUT: u32 = RTCIO_BASE + 0x00;
pub const RTC_GPIO_ENABLE: u32 = RTCIO_BASE + 0x0C;
pub const RTC_GPIO_IN: u32 = RTCIO_BASE + 0x24;
pub const RTC_GPIO_SHIFT: u32 = 14;

/// The RTC GPIO of a channel's pin, for the two that can be driven.
pub fn rtc_gpio_of(ch: Channel) -> (n: Option<u32>)
    ensures
        n == match ch {
            Channel::Gpio33 => Some(8u32),
            Channel::Gpio32 => Some(9u32),
            _ => None,
        },
{
    match ch {
        Channel::Gpio33 => Some(8),
        Channel::Gpio32 => Some(9),
        _ => None,
    }
}

/// The touch pad of a channel's pin, for the two that are touch pads.
pub open spec fn pad_number(ch: Channel) -> Option<u32> {
    match ch {
        Channel::Gpio33 => Some(8),
        Channel::Gpio32 => Some(9),
        _ => None,
    }
}

/// The touch pad of a channel's pin, for the two that are touch pads.
pub fn touch_pad_of(ch: Channel) -> (n: Option<u32>)
    ensures
        n == pad_number(ch),
{
    match ch {
        Channel::Gpio33 => Some(8),
        Channel::Gpio32 => Some(9),
        _ => None,
    }
}

/// What [`Adc1::pad_debug`] looks at; `bit` is the pad's position in the three RTC
/// GPIO registers.
#[derive(Clone, Copy, Debug, PartialEq, Eq, Structural)]
pub struct PadDebug {
    pub pad: u32,
    pub enable: u32,
    pub out: u32,
    pub input: u32,
    pub bit: u32,
}

/// The converter, taken as a whole: its channels share one set of registers.
#[derive(Clone, Copy, Debug, PartialEq, Eq, Structural)]
pub struct Adc1 {}

/// The accesses that put the converter under software control at twelve bits:
/// front end on, amplifier off and idle, hall sensor taken and switched off, the
/// result not inverted, pad and start by software.
pub open spec fn taking() -> Seq<RegOp> {
    seq![
        RegOp::Update {
            addr: SAR_MEAS_WAIT2,
            clear: (FORCE_XPD_SAR_MASK << FORCE_XPD_SAR_SHIFT) | (FORCE_XPD_AMP_MASK
                << FORCE_XPD_AMP_SHIFT),
            set: (FORCE_XPD_SAR_ON << FORCE_XPD_SAR_SHIFT) | (FORCE_XPD_AMP_OFF
                << FORCE_XPD_AMP_SHIFT),
        },
        RegOp::Update { addr: SAR_MEAS_CTRL, clear: AMP_FSM_MASK, set: 0 },
        RegOp::Update { addr: SAR_TOUCH_CTRL1, clear: 0, set: XPD_HALL_FORCE | HALL_PHASE_FORCE },
        RegOp::Update { addr: RTC_HALL_SENS, clear: XPD_HALL, set: 0 },
        RegOp::Update {
            addr: SAR_READ_CTRL,
            clear: (SAMPLE_BIT_MASK << SAMPLE_BIT_SHIFT) | SAR1_DIG_FORCE,
            set: (SAMPLE_BIT_12 << SAMPLE_BIT_SHIFT) | SAR1_DATA_INV,
        },
        RegOp::Update { addr: SAR_MEAS_START1, clear: 0, set: EN_PAD_FORCE | MEAS_START_FORCE },
    ]
}

/// The accesses that select a pad and raise the start strobe: the strobe is low in
/// the first write, so that the second is an edge.
pub open spec fn conversion(start: u32, index: u32) -> Seq<RegOp> {
    let clear = (EN_PAD_MASK << EN_PAD_SHIFT) | MEAS_START_SAR;
    let pad = (1u32 << index) << EN_PAD_SHIFT;
    seq![
        RegOp::Load { addr: start },
        RegOp::Store { addr: start, clear, set: pad },
        RegOp::Store { addr: start, clear, set: pad | MEAS_START_SAR },
    ]
}

/// The access that sets a channel's two bits of attenuation.
pub open spec fn attenuating(reg: u32, index: u32, atten: Attenuation) -> RegOp {
    RegOp::Update {
        addr: reg,
        clear: 0x3u32 << (index * 2) as u32,
        set: atten.spec_code() << (index * 2) as u32,
    }
}

/// Selects a pad of a converter and starts it.
pub(crate) fn convert(start: u32, index: u32) -> (ops: Vec<RegOp>)
    requires
        index < 12,
    ensures
        ops@ == conversion(start, index),
{
    let clear: u32 = (EN_PAD_MASK << EN_PAD_SHIFT) | MEAS_START_SAR;
    let pad: u32 = (1u32 << index) << EN_PAD_SHIFT;
    let ops: Vec<RegOp> = vec![
        RegOp::Load { addr: start },
        RegOp::Store { addr: start, clear, set: pad },
        RegOp::Store { addr: start, clear, set: pad | MEAS_START_SAR },
    ];
    assert(ops@ =~= conversion(start, index));
    ops
}

/// Sets a channel's attenuation.
pub(crate) fn attenuate(reg: u32, index: u32, atten: Attenuation) -> (op: RegOp)
    requires
        index < 16,
    ensures
        op == attenuating(reg, index, atten),
{
    let shift: u32 = index * 2;
    RegOp::Update { addr: reg, clear: 0x3 << shift, set: atten.code() << shift }
}

/// The accesses that start a conversion of a channel.
pub open spec fn measuring(ch: Channel) -> Seq<RegOp> {
    conversion(SAR_MEAS_START1, channel_index(ch))
}

/// The access that sets a channel's attenuation.
pub open spec fn ranging(ch: Channel, atten: Attenuation) -> RegOp {
    attenuating(SAR_ATTEN1, channel_index(ch), atten)
}

/// The access that sets a pad's pull, where it has any.
pub open spec fn pulling(ch: Channel, pull: Pull) -> Result<RegOp, AdcError> {
    match pad_number(ch) {
        None => Err(AdcError::NoPullOnThisPad),
        Some(pad) => Ok(
            RegOp::Update {
                addr: (TOUCH_PAD0 + pad * 4) as u32,
                clear: PAD_FUN_SEL_MASK | PAD_FUN_IE | (PAD_TOUCH_XPD | PAD_TOUCH_START) | (PAD_RUE
                    | PAD_RDE),
                set: PAD_MUX_SEL | match pull {
                    Pull::Off => 0u32,
                    Pull::Up => PAD_RUE,
                    Pull::Down => PAD_RDE,
                },
            },
        ),
    }
}

/// The count in a start register, once the conversion is done.
pub open spec fn reading(word: u32) -> Option<u16> {
    if word & MEAS_DONE_SAR != 0 {
        Some((word & MEAS_DATA_MASK) as u16)
    } else {
        None
    }
}

/// The count in a start register, once the conversion is done.
pub fn result(word: u32) -> (r: Option<u16>)
    ensures
        r == reading(word),
{
    if word & MEAS_DONE_SAR != 0 {
        Some((word & MEAS_DATA_MASK) as u16)
    } else {
        None
    }
}

/// The sum of some samples.
pub open spec fn total(samples: Seq<u16>) -> int
    decreases samples.len(),
{
    if samples.len() == 0 {
        0
    } else {
        total(samples.drop_last()) + samples.last()
    }
}

proof fn lemma_total_bound(samples: Seq<u16>)
    ensures
        0 <= total(samples) <= 0xFFFF * samples.len(),
    decreases samples.len(),
{
    if samples.len() > 0 {
        lemma_total_bound(samples.drop_last());
    }
}

/// The mean of some samples, rounded down.
pub open spec fn mean_of(samples: Seq<u16>) -> int {
    total(samples) / samples.len() as int
}

/// The mean of some samples, rounded down.
pub fn average(samples: &[u16]) -> (mean: u16)
    requires
        0 < samples@.len() <= 0xFFFF,
    ensures
        mean == mean_of(samples@),
{
    let n: usize = samples.len();
    let mut sum: u32 = 0;
    for i in 0..n
        invariant
            n == samples@.len(),
            n <= 0xFFFF,
            sum == total(samples@.take(i as int)),
    {
        assert(samples@.take(i + 1).drop_last() =~= samples@.take(i as int));
        proof {
            lemma_total_bound(samples@.take(i + 1));
        }
        sum = sum + samples[i] as u32;
    }
    assert(samples@.take(n as int) =~= samples@);
    proof {
        lemma_total_bound(samples@);
        let t = total(samples@);
        let k = n as int;
        assert(t / k <= 0xFFFF) by (nonlinear_arith)
            requires
                0 <= t <= 0xFFFF * k,
                k > 0,
        ;
    }
    (sum / n as u32) as u16
}

impl Adc1 {
    /// Takes the converter.
    pub fn new() -> (r: (Self, Vec<RegOp>))
        ensures
            r.1@ == taking(),
    {
        let ops: Vec<RegOp> = vec![
            RegOp::Update {
                addr: SAR_MEAS_WAIT2,
                clear: (FORCE_XPD_SAR_MASK << FORCE_XPD_SAR_SHIFT) | (FORCE_XPD_AMP_MASK
                    << FORCE_XPD_AMP_SHIFT),
                set: (FORCE_XPD_SAR_ON << FORCE_XPD_SAR_SHIFT) | (FORCE_XPD_AMP_OFF
                    << FORCE_XPD_AMP_SHIFT),
            },
            RegOp::Update { addr: SAR_MEAS_CTRL, clear: AMP_FSM_MASK, set: 0 },
            RegOp::Update {
                addr: SAR_TOUCH_CTRL1,
                clear: 0,
                set: XPD_HALL_FORCE | HALL_PHASE_FORCE,
            },
            RegOp::Update { addr: RTC_HALL_SENS, clear: XPD_HALL, set: 0 },
            RegOp::Update {
                addr: SAR_READ_CTRL,
                clear: (SAMPLE_BIT_MASK << SAMPLE_BIT_SHIFT) | SAR1_DIG_FORCE,
                set: (SAMPLE_BIT_12 << SAMPLE_BIT_SHIFT) | SAR1_DATA_INV,
            },
            RegOp::Update {
                addr: SAR_MEAS_START1,
                clear: 0,
                set: EN_PAD_FORCE | MEAS_START_FORCE,
            },
        ];
        assert(ops@ =~= taking());
        (Adc1 {  }, ops)
    }

    /// Sets a channel's input attenuation.
    pub fn set_attenuation(&self, ch: Channel, atten: Attenuation) -> (op: RegOp)
        ensures
            op == ranging(ch, atten),
    {
        attenuate(SAR_ATTEN1, ch.index(), atten)
    }

    /// Hands the pad to the RTC domain, free of the digital buffer and the touch
    /// sensor, and sets its pull.
    pub fn set_pad_pull(&self, ch: Channel, pull: Pull) -> (r: Result<RegOp, AdcError>)
        ensures
            r == pulling(ch, pull),
    {
        let pad: u32 = match touch_pad_of(ch) {
            Some(pad) => pad,
            None => return Err(AdcError::NoPullOnThisPad),
        };
        let resistor: u32 = match pull {
            Pull::Off => 0,
            Pull::Up => PAD_RUE,
            Pull::Down => PAD_RDE,
        };
        Ok(
            RegOp::Update {
                addr: TOUCH_PAD0 + pad * 4,
                clear: PAD_FUN_SEL_MASK | PAD_FUN_IE | (PAD_TOUCH_XPD | PAD_TOUCH_START) | (
                PAD_RUE | PAD_RDE),
                set: PAD_MUX_SEL | resistor,
            },
        )
    }

    /// Where a channel's pad register is; for a channel without one, the first pad's.
    pub fn pad_addr(&self, ch: Channel) -> (addr: u32)
        ensures
            addr == TOUCH_PAD0 + 4 * (match pad_number(ch) {
                Some(pad) => pad,
                None => 0,
            }),
    {
        match touch_pad_of(ch) {
            Some(pad) => TOUCH_PAD0 + pad * 4,
            None => TOUCH_PAD0,
        }
    }

    /// Puts together what the pad's register and the three RTC GPIO registers hold.
    pub fn pad_debug(&self, ch: Channel, pad: u32, enable: u32, out: u32, input: u32) -> (d:
        PadDebug)
        ensures
            d == (PadDebug {
                pad,
                enable,
                out,
                input,
                bit: match pad_number(ch) {
                    Some(n) => 1u32 << (RTC_GPIO_SHIFT + n) as u32,
                    None => 0,
                },
            }),
    {
        let bit: u32 = match rtc_gpio_of(ch) {
            Some(n) => 1u32 << (RTC_GPIO_SHIFT + n),
            None => 0,
        };
        PadDebug { pad, enable, out, input, bit }
    }

    /// Starts a conversion of a channel; [`result`] tells when it is done.
    pub fn read(&self, ch: Channel) -> (ops: Vec<RegOp>)
        ensures
            ops@ == measuring(ch),
    {
        convert(SAR_MEAS_START1, ch.index())
    }

    /// How many conversions an average of `n` takes: at least one.
    pub fn read_averaged(&self, n: u16) -> (count: u16)
        ensures
            count == if n == 0 {
                1
            } else {
                n
            },
    {
        if n == 0 {
            1
        } else {
            n
        }
    }
}

pub(crate) proof fn lemma_conversion(held: u32, index: u32)
    by (bit_vector)
    requires
        index < 12,
    ensures
        ({
            let clear = (0xFFFu32 << 19u32) | (1u32 << 17);
            let pad = (1u32 << index) << 19u32;
            let first = (held & !clear) | pad;
            let second = (held & !clear) | (pad | (1u32 << 17));
            &&& first & (1u32 << 17) == 0
            &&& second & (1u32 << 17) != 0
            &&& first & (0xFFFu32 << 19u32) == pad
            &&& second & (0xFFFu32 << 19u32) == pad
            &&& first & (1u32 << 18) == held & (1u32 << 18)
            &&& second & (1u32 << 18) == held & (1u32 << 18)
            &&& first & (1u32 << 31) == held & (1u32 << 31)
            &&& second & (1u32 << 31) == held & (1u32 << 31)
            &&& (first >> 19) & 0xFFF == 1u32 << index
            &&& (second >> 19) & 0xFFF == 1u32 << index
            &&& (first >> 17) & 1 == 0
            &&& (second >> 17) & 1 == 1
            &&& first & 0x8005_FFFF == held & 0x8005_FFFF
            &&& second & 0x8005_FFFF == held & 0x8005_FFFF
        }),
        ({
            let w = (held & !((0x3u32 << 18u32) | (0x3u32 << 16u32))) | ((3u32 << 18u32) | (2u32
                << 16u32));
            (w >> 16) & 0xF == 14 && w & !0xF_0000u32 == held & !0xF_0000u32
        }),
        (held & !0xFFF0u32) | 0 == held & 0xFFFF_000F,
        (held & !0u32) | ((1u32 << 26) | (1u32 << 27)) == held | 0x0C00_0000,
        (held & !(1u32 << 31)) | 0 == held & 0x7FFF_FFFF,
        ({
            let w = (held & !((0x3u32 << 16u32) | (1u32 << 27))) | ((3u32 << 16u32) | (1u32 << 28));
            w & 0x1803_0000 == 0x1003_0000 && w & !0x1803_0000u32 == held & !0x1803_0000u32
        }),
        ({
            let w = (held & !((0x3u32 << 16u32) | (1u32 << 28) | (1u32 << 27))) | ((3u32 << 16u32)
                | (1u32 << 29));
            w & 0x3803_0000 == 0x2003_0000 && w & !0x3803_0000u32 == held & !0x3803_0000u32
        }),
        (held & !0u32) | ((1u32 << 31) | (1u32 << 18)) == held | 0x8004_0000,
        (held & !0u32) | (1u32 << 2) == held | 4,
        forall|code: u32| #![trigger code << ((index * 2) as u32)]
            code <= 3 ==> {
                let at = (index * 2) as u32;
                let w = (held & !(0x3u32 << at)) | (code << at);
                (w >> at) & 3 == code && w & !(0x3u32 << at) == held & !(0x3u32 << at)
            },
        (held & (1u32 << 16) != 0) == (held / 0x1_0000 % 2 == 1),
        held & 0xFFFF == held % 0x1_0000,
        ({
            let off = (0x3u32 << 17) | (1u32 << 13) | ((1u32 << 20) | (1u32 << 22)) | ((1u32 << 27)
                | (1u32 << 28));
            let none = (held & !off) | ((1u32 << 19) | 0);
            let up = (held & !off) | ((1u32 << 19) | (1u32 << 27));
            let down = (held & !off) | ((1u32 << 19) | (1u32 << 28));
            &&& none & 0x185E_2000 == 0x0008_0000
            &&& up & 0x185E_2000 == 0x0808_0000
            &&& down & 0x185E_2000 == 0x1008_0000
            &&& none & !0x185E_2000u32 == held & !0x185E_2000u32
            &&& up & !0x185E_2000u32 == held & !0x185E_2000u32
            &&& down & !0x185E_2000u32 == held & !0x185E_2000u32
        }),
{
}

/// A conversion's second write raises the start strobe that its first left low;
/// both select exactly the channel's pad and leave the two force bits as they were.
pub proof fn law_start_strobe_is_an_edge(held: u32, index: u32)
    requires
        index < 12,
    ensures
        ({
            let clear = (EN_PAD_MASK << EN_PAD_SHIFT) | MEAS_START_SAR;
            let pad = (1u32 << index) << EN_PAD_SHIFT;
            let first = super::updated(held, clear, pad);
            let second = super::updated(held, clear, pad | MEAS_START_SAR);
            &&& first & MEAS_START_SAR == 0
            &&& second & MEAS_START_SAR != 0
            &&& first & (EN_PAD_MASK << EN_PAD_SHIFT) == pad
            &&& second & (EN_PAD_MASK << EN_PAD_SHIFT) == pad
            &&& first & MEAS_START_FORCE == held & MEAS_START_FORCE
            &&& second & MEAS_START_FORCE == held & MEAS_START_FORCE
            &&& first & EN_PAD_FORCE == held & EN_PAD_FORCE
            &&& second & EN_PAD_FORCE == held & EN_PAD_FORCE
        }),
{
    lemma_conversion(held, index);
}

/// The converter is taken whole: its front end forced on and the amplifier off and idle, the
/// hall sensor taken and off, twelve bits that are not inverted, and neither the digital
/// controller nor the coprocessor to start it. What else is in these registers stays.
pub proof fn law_the_converter_is_taken(r: super::Registers)
    ensures
        ({
            let end = super::after_all(r, taking());
            &&& (end.words[0x3FF4_880C] >> 16) & 0xF == 14
            &&& end.words[0x3FF4_880C] & !0xF_0000u32 == r.words[0x3FF4_880C] & !0xF_0000u32
            &&& end.words[0x3FF4_8810] == r.words[0x3FF4_8810] & 0xFFFF_000F
            &&& end.words[0x3FF4_8858] == r.words[0x3FF4_8858] | 0x0C00_0000
            &&& end.words[0x3FF4_8478] == r.words[0x3FF4_8478] & 0x7FFF_FFFF
            &&& end.words[0x3FF4_8800] & 0x1803_0000 == 0x1003_0000
            &&& end.words[0x3FF4_8800] & !0x1803_0000u32 == r.words[0x3FF4_8800] & !0x1803_0000u32
            &&& end.words[0x3FF4_8854] == r.words[0x3FF4_8854] | 0x8004_0000
        }),
{
    let ops = taking();
    assert(super::after_all(r, ops.take(0)) == r);
    super::lemma_after_take(r, ops, 1);
    super::lemma_after_take(r, ops, 2);
    super::lemma_after_take(r, ops, 3);
    super::lemma_after_take(r, ops, 4);
    super::lemma_after_take(r, ops, 5);
    super::lemma_after_take(r, ops, 6);
    assert(ops.take(6) =~= ops);
    lemma_conversion(r.words[0x3FF4_880C], 0);
    lemma_conversion(r.words[0x3FF4_8810], 0);
    lemma_conversion(r.words[0x3FF4_8858], 0);
    lemma_conversion(r.words[0x3FF4_8478], 0);
    lemma_conversion(r.words[0x3FF4_8800], 0);
    lemma_conversion(r.words[0x3FF4_8854], 0);
}

/// A conversion selects its own pad and no other, and starts with an edge: the strobe is low
/// with the pad selected, then high. The register's other bits stay.
pub proof fn law_a_conversion_selects_one_pad(r: super::Registers, start: u32, index: u32)
    requires
        index < 12,
    ensures
        ({
            let ops = conversion(start, index);
            let low = super::after_all(r, ops.take(2)).words[start];
            let high = super::after_all(r, ops).words[start];
            &&& ops.len() == 3
            &&& (low >> 19) & 0xFFF == 1u32 << index
            &&& (high >> 19) & 0xFFF == 1u32 << index
            &&& (low >> 17) & 1 == 0
            &&& (high >> 17) & 1 == 1
            &&& high & 0x8005_FFFF == r.words[start] & 0x8005_FFFF
        }),
{
    let ops = conversion(start, index);
    assert(super::after_all(r, ops.take(0)) == r);
    super::lemma_after_take(r, ops, 1);
    super::lemma_after_take(r, ops, 2);
    super::lemma_after_take(r, ops, 3);
    assert(ops.take(3) =~= ops);
    lemma_conversion(r.words[start], index);
}

/// The four attenuations are coded in order, in two bits for each channel, and one channel's
/// bits are set without another's.
pub proof fn law_an_attenuation_is_its_channels(
    r: super::Registers,
    reg: u32,
    index: u32,
    atten: Attenuation,
)
    requires
        index < 12,
    ensures
        ({
            let at = (2 * index) as u32;
            let w = super::after(r, attenuating(reg, index, atten)).words[reg];
            &&& (w >> at) & 3 == match atten {
                Attenuation::Db0 => 0u32,
                Attenuation::Db2_5 => 1,
                Attenuation::Db6 => 2,
                Attenuation::Db11 => 3,
            }
            &&& w & !(3u32 << at) == r.words[reg] & !(3u32 << at)
        }),
{
    lemma_conversion(r.words[reg], index);
    assert(atten.spec_code() << ((index * 2) as u32) == atten.spec_code() << ((index * 2) as u32));
}

/// The channels are numbered from GPIO 36 up to 39, and then from 32 up to 35; each is
/// converted and ranged in the first converter's registers.
pub proof fn law_the_channels_are_the_chips(ch: Channel, atten: Attenuation)
    ensures
        channel_index(ch) == if channel_gpio(ch) >= 36 {
            channel_gpio(ch) - 36
        } else {
            channel_gpio(ch) - 28
        },
        32 <= channel_gpio(ch) <= 39,
        measuring(ch) == conversion(0x3FF4_8854, channel_index(ch)),
        ranging(ch, atten) == attenuating(0x3FF4_8834, channel_index(ch), atten),
{
}

/// A count is told once bit 16 says that it is there, and it is what lies below.
pub proof fn law_a_count_is_told_when_done(word: u32)
    ensures
        reading(word) == if word / 0x1_0000 % 2 == 1 {
            Some((word % 0x1_0000) as u16)
        } else {
            None
        },
{
    lemma_conversion(word, 0);
}

/// The two pads that have a resistor are pulled one way, the other or neither, handed to the
/// RTC and free of all else that shares them; the others are refused.
pub proof fn law_a_pad_is_pulled_one_way(r: super::Registers, ch: Channel, pull: Pull)
    ensures
        match pulling(ch, pull) {
            Ok(op) => {
                let addr = if ch is Gpio32 {
                    0x3FF4_84B8u32
                } else {
                    0x3FF4_84B4
                };
                let w = super::after(r, op).words[addr];
                &&& ch is Gpio32 || ch is Gpio33
                &&& w & 0x185E_2000 == match pull {
                    Pull::Off => 0x0008_0000u32,
                    Pull::Up => 0x0808_0000,
                    Pull::Down => 0x1008_0000,
                }
                &&& w & !0x185E_2000u32 == r.words[addr] & !0x185E_2000u32
            },
            Err(e) => !(ch is Gpio32 || ch is Gpio33) && e is NoPullOnThisPad,
        },
{
    lemma_conversion(r.words[0x3FF4_84B8], 0);
    lemma_conversion(r.words[0x3FF4_84B4], 0);
}

/// A mean lies between the samples, and is the sample where they are all alike.
pub proof fn law_a_mean_lies_between(samples: Seq<u16>, low: int, high: int)
    requires
        samples.len() > 0,
        forall|i: int| 0 <= i < samples.len() ==> low <= #[trigger] samples[i] <= high,
    ensures
        low <= mean_of(samples) <= high,
{
    lemma_total_between(samples, low, high);
    let t = total(samples);
    let n = samples.len() as int;
    assert(low <= t / n <= high) by (nonlinear_arith)
        requires
            low * n <= t <= high * n,
            n > 0,
    ;
}

proof fn lemma_total_between(samples: Seq<u16>, low: int, high: int)
    requires
        forall|i: int| 0 <= i < samples.len() ==> low <= #[trigger] samples[i] <= high,
    ensures
        low * samples.len() <= total(samples) <= high * samples.len(),
    decreases samples.len(),
{
    if samples.len() > 0 {
        lemma_total_between(samples.drop_last(), low, high);
        let n = samples.len() as int;
        assert(low * n == low * (n - 1) + low && high * n == high * (n - 1) + high)
            by (nonlinear_arith);
    } else {
        assert(low * 0 == 0 && high * 0 == 0);
    }
}

} // verus!
