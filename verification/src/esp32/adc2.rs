//! ADC2: ten channels of analog input whose converter the radio borrows. While the
//! radio is up every conversion is refused.

use vstd::prelude::*;

use super::adc::{attenuate, convert, Attenuation, SENS_BASE};
use super::RegOp;

verus! {

pub const SYSCON_BASE: u32 = 0x3FF6_6000;

pub const SAR_MEAS_WAIT2: u32 = SENS_BASE + 0x0C;
pub const SAR_MEAS_CTRL: u32 = SENS_BASE + 0x10;
pub const SAR_ATTEN2: u32 = SENS_BASE + 0x38;
pub const SAR_READ_CTRL2: u32 = SENS_BASE + 0x90;
pub const SAR_MEAS_START2: u32 = SENS_BASE + 0x94;
pub const SYSCON_SARADC_CTRL: u32 = SYSCON_BASE + 0x10;

pub const FORCE_XPD_SAR_SHIFT: u32 = 18;
pub const FORCE_XPD_SAR_ON: u32 = 3;
pub const FORCE_XPD_SAR_MASK: u32 = 0x3;
pub const FORCE_XPD_AMP_SHIFT: u32 = 16;
pub const FORCE_XPD_AMP_OFF: u32 = 2;
pub const FORCE_XPD_AMP_MASK: u32 = 0x3;
pub const AMP_FSM_MASK: u32 = 0xFFF0;

pub const SAR2_SAMPLE_BIT_SHIFT: u32 = 16;
/// Twelve bits.
pub const SAR2_SAMPLE_BIT_12: u32 = 3;
pub const SAR2_SAMPLE_BIT_MASK: u32 = 0x3;
/// Hands the converter to the radio's power detector.
pub const SAR2_PWDET_FORCE: u32 = 1 << 27;
/// The digital controller drives the converter.
pub const SAR2_DIG_FORCE: u32 = 1 << 28;
/// Undoes the result's inversion.
pub const SAR2_DATA_INV: u32 = 1 << 29;

/// Routes the converter through the controller.
pub const SARADC_SAR2_MUX: u32 = 1 << 2;

pub const EN_PAD_FORCE: u32 = 1 << 31;
pub const EN_PAD_SHIFT: u32 = 19;
pub const EN_PAD_MASK: u32 = 0xFFF;
pub const MEAS_START_FORCE: u32 = 1 << 18;
pub const MEAS_START_SAR: u32 = 1 << 17;
pub const MEAS_DONE_SAR: u32 = 1 << 16;
pub const MEAS_DATA_MASK: u32 = 0xFFFF;

/// A channel, named by the GPIO it reads. Channels are not in pin order.
#[derive(Clone, Copy, Debug, PartialEq, Eq, Structural)]
pub enum Channel {
    Gpio4,
    Gpio0,
    Gpio2,
    Gpio15,
    Gpio13,
    Gpio12,
    Gpio14,
    Gpio27,
    /// Also the first DAC's.
    Gpio25,
    /// Also the second DAC's.
    Gpio26,
}

/// The GPIO a channel reads.
pub open spec fn channel_gpio(ch: Channel) -> u8 {
    match ch {
        Channel::Gpio4 => 4,
        Channel::Gpio0 => 0,
        Channel::Gpio2 => 2,
        Channel::Gpio15 => 15,
        Channel::Gpio13 => 13,
        Channel::Gpio12 => 12,
        Channel::Gpio14 => 14,
        Channel::Gpio27 => 27,
        Channel::Gpio25 => 25,
        Channel::Gpio26 => 26,
    }
}

/// The channel's number.
pub open spec fn channel_index(ch: Channel) -> u32 {
    match ch {
        Channel::Gpio4 => 0,
        Channel::Gpio0 => 1,
        Channel::Gpio2 => 2,
        Channel::Gpio15 => 3,
        Channel::Gpio13 => 4,
        Channel::Gpio12 => 5,
        Channel::Gpio14 => 6,
        Channel::Gpio27 => 7,
        Channel::Gpio25 => 8,
        Channel::Gpio26 => 9,
    }
}

impl Channel {
    /// The GPIO this channel reads.
    pub fn gpio(self) -> (gpio: u8)
        ensures
            gpio == channel_gpio(self),
    {
        match self {
            Channel::Gpio4 => 4,
            Channel::Gpio0 => 0,
            Channel::Gpio2 => 2,
            Channel::Gpio15 => 15,
            Channel::Gpio13 => 13,
            Channel::Gpio12 => 12,
            Channel::Gpio14 => 14,
            Channel::Gpio27 => 27,
            Channel::Gpio25 => 25,
            Channel::Gpio26 => 26,
        }
    }

    /// The channel that reads `gpio`, if there is one.
    pub fn from_gpio(gpio: u8) -> (ch: Option<Self>)
        ensures
            match ch {
                Some(c) => channel_gpio(c) == gpio,
                None => forall|c: Channel| #[trigger] channel_gpio(c) != gpio,
            },
    {
        match gpio {
            4 => Some(Channel::Gpio4),
            0 => Some(Channel::Gpio0),
            2 => Some(Channel::Gpio2),
            15 => Some(Channel::Gpio15),
            13 => Some(Channel::Gpio13),
            12 => Some(Channel::Gpio12),
            14 => Some(Channel::Gpio14),
            27 => Some(Channel::Gpio27),
            25 => Some(Channel::Gpio25),
            26 => Some(Channel::Gpio26),
            _ => None,
        }
    }

    /// The channel's number.
    pub fn index(self) -> (i: u32)
        ensures
            i == channel_index(self),
            i < 10,
    {
        match self {
            Channel::Gpio4 => 0,
            Channel::Gpio0 => 1,
            Channel::Gpio2 => 2,
            Channel::Gpio15 => 3,
            Channel::Gpio13 => 4,
            Channel::Gpio12 => 5,
            Channel::Gpio14 => 6,
            Channel::Gpio27 => 7,
            Channel::Gpio25 => 8,
            Channel::Gpio26 => 9,
        }
    }
}

/// No two channels read one GPIO, none has another's number, and none reads a pin
/// of the first converter.
pub proof fn law_channels_are_distinct(a: Channel, b: Channel, first: super::adc::Channel)
    requires
        a != b,
    ensures
        channel_gpio(a) != channel_gpio(b),
        channel_index(a) != channel_index(b),
        channel_gpio(a) != super::adc::channel_gpio(first),
{
}

/// Why a reading failed.
#[derive(Clone, Copy, Debug, PartialEq, Eq, Structural)]
pub enum Adc2Error {
    /// The conversion was never reported done.
    Timeout,
    /// The radio is up and owns the converter.
    RadioBusy,
}

/// Refuses a conversion while the radio is up.
pub fn guard(radio_up: bool) -> (r: Result<(), Adc2Error>)
    ensures
        r == if radio_up {
            Err::<(), Adc2Error>(Adc2Error::RadioBusy)
        } else {
            Ok::<(), Adc2Error>(())
        },
{
    if radio_up {
        Err(Adc2Error::RadioBusy)
    } else {
        Ok(())
    }
}

/// The converter, taken as a whole.
#[derive(Clone, Copy, Debug, PartialEq, Eq, Structural)]
pub struct Adc2 {}

/// The accesses that put the converter under software control at twelve bits, away
/// from the digital controller and the power detector.
pub open spec fn taking() -> Seq<RegOp> {
    seq![
        RegOp::Update {
            addr: SAR_MEAS_WAIT2,
            clear: (FORCE_XPD_SAR_MASK << FORCE_XPD_SAR_SHIFT) | (FORCE_XPD_AMP_MASK
                << FORCE_XPD_AMP_SHIFT),
            set: (FORCE_XPD_SAR_ON << FORCE_XPD_SAR_SHIFT) | (FORCE_XPD_AMP_OFF
                << FORCE_XPD_AMP_SHIFT),
        },
        RegOp::Update { addr: SAR_MEAS_CTRL, clear: AMP_FSM_MASK, set: 0 },
        RegOp::Update {
            addr: SAR_READ_CTRL2,
            clear: (SAR2_SAMPLE_BIT_MASK << SAR2_SAMPLE_BIT_SHIFT) | SAR2_DIG_FORCE
                | SAR2_PWDET_FORCE,
            set: (SAR2_SAMPLE_BIT_12 << SAR2_SAMPLE_BIT_SHIFT) | SAR2_DATA_INV,
        },
        RegOp::Update { addr: SYSCON_SARADC_CTRL, clear: 0, set: SARADC_SAR2_MUX },
        RegOp::Update { addr: SAR_MEAS_START2, clear: 0, set: EN_PAD_FORCE | MEAS_START_FORCE },
    ]
}

/// The accesses that start a conversion of a channel.
pub open spec fn measuring(ch: Channel) -> Seq<RegOp> {
    super::adc::conversion(SAR_MEAS_START2, channel_index(ch))
}

/// The access that sets a channel's attenuation.
pub open spec fn ranging(ch: Channel, atten: Attenuation) -> RegOp {
    super::adc::attenuating(SAR_ATTEN2, channel_index(ch), atten)
}

impl Adc2 {
    /// Takes the converter. This alone asks nothing of the radio.
    pub fn new() -> (r: (Self, Vec<RegOp>))
        ensures
            r.1@ == taking(),
    {
        let ops: Vec<RegOp> = vec![
            RegOp::Update {
                addr: SAR_MEAS_WAIT2,
                clear: (FORCE_XPD_SAR_MASK << FORCE_XPD_SAR_SHIFT) | (FORCE_XPD_AMP_MASK
                    << FORCE_XPD_AMP_SHIFT),
                set: (FORCE_XPD_SAR_ON << FORCE_XPD_SAR_SHIFT) | (FORCE_XPD_AMP_OFF
                    << FORCE_XPD_AMP_SHIFT),
            },
            RegOp::Update { addr: SAR_MEAS_CTRL, clear: AMP_FSM_MASK, set: 0 },
            RegOp::Update {
                addr: SAR_READ_CTRL2,
                clear: (SAR2_SAMPLE_BIT_MASK << SAR2_SAMPLE_BIT_SHIFT) | SAR2_DIG_FORCE
                    | SAR2_PWDET_FORCE,
                set: (SAR2_SAMPLE_BIT_12 << SAR2_SAMPLE_BIT_SHIFT) | SAR2_DATA_INV,
            },
            RegOp::Update { addr: SYSCON_SARADC_CTRL, clear: 0, set: SARADC_SAR2_MUX },
            RegOp::Update {
                addr: SAR_MEAS_START2,
                clear: 0,
                set: EN_PAD_FORCE | MEAS_START_FORCE,
            },
        ];
        assert(ops@ =~= taking());
        (Adc2 {  }, ops)
    }

    /// Sets a channel's input attenuation.
    pub fn set_attenuation(&self, ch: Channel, atten: Attenuation) -> (op: RegOp)
        ensures
            op == ranging(ch, atten),
    {
        attenuate(SAR_ATTEN2, ch.index(), atten)
    }

    /// Starts a conversion of a channel, unless the radio is up;
    /// [`super::adc::result`] tells when it is done.
    pub fn read(&self, ch: Channel, radio_up: bool) -> (r: Result<Vec<RegOp>, Adc2Error>)
        ensures
            match r {
                Err(e) => radio_up && e is RadioBusy,
                Ok(ops) => !radio_up && ops@ == measuring(ch),
            },
    {
        match guard(radio_up) {
            Ok(()) => Ok(convert(SAR_MEAS_START2, ch.index())),
            Err(e) => Err(e),
        }
    }

    /// How many conversions an average of `n` takes: at least one.
    pub fn read_averaged(&self, n: u16) -> (count: u16)
        ensures
            count == if n == 0 {
                1
            } else {
                n
            },
    {
        if n == 0 {
            1
        } else {
            n
        }
    }
}

/// The converter is taken from the radio's power detector and from the digital controller, with
/// its front end forced on, the amplifier off and idle, and twelve bits that are not inverted.
pub proof fn law_the_converter_is_taken(r: super::Registers)
    ensures
        ({
            let end = super::after_all(r, taking());
            &&& (end.words[0x3FF4_880C] >> 16) & 0xF == 14
            &&& end.words[0x3FF4_880C] & !0xF_0000u32 == r.words[0x3FF4_880C] & !0xF_0000u32
            &&& end.words[0x3FF4_8810] == r.words[0x3FF4_8810] & 0xFFFF_000F
            &&& end.words[0x3FF4_8890] & 0x3803_0000 == 0x2003_0000
            &&& end.words[0x3FF4_8890] & !0x3803_0000u32 == r.words[0x3FF4_8890] & !0x3803_0000u32
            &&& end.words[0x3FF6_6010] == r.words[0x3FF6_6010] | 4
            &&& end.words[0x3FF4_8894] == r.words[0x3FF4_8894] | 0x8004_0000
        }),
{
    let ops = taking();
    assert(super::after_all(r, ops.take(0)) == r);
    super::lemma_after_take(r, ops, 1);
    super::lemma_after_take(r, ops, 2);
    super::lemma_after_take(r, ops, 3);
    super::lemma_after_take(r, ops, 4);
    super::lemma_after_take(r, ops, 5);
    assert(ops.take(5) =~= ops);
    super::adc::lemma_conversion(r.words[0x3FF4_880C], 0);
    super::adc::lemma_conversion(r.words[0x3FF4_8810], 0);
    super::adc::lemma_conversion(r.words[0x3FF4_8890], 0);
    super::adc::lemma_conversion(r.words[0x3FF6_6010], 0);
    super::adc::lemma_conversion(r.words[0x3FF4_8894], 0);
}

/// The channels are numbered in the chip's order of pins, and are converted and ranged in the
/// second converter's registers.
pub proof fn law_the_channels_are_the_chips(ch: Channel, atten: Attenuation)
    ensures
        seq![4u8, 0, 2, 15, 13, 12, 14, 27, 25, 26][channel_index(ch) as int] == channel_gpio(ch),
        channel_index(ch) < 10,
        measuring(ch) == super::adc::conversion(0x3FF4_8894, channel_index(ch)),
        ranging(ch, atten) == super::adc::attenuating(0x3FF4_8838, channel_index(ch), atten),
{
}

} // verus!
