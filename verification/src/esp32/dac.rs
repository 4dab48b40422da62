//! The two analog outputs, on GPIO 25 and 26.

use vstd::prelude::*;

use super::RegOp;

verus! {

pub const RTCIO_BASE: u32 = 0x3FF4_8400;
pub const SENS_BASE: u32 = 0x3FF4_8800;

/// The first channel's pad; the second's follows.
pub const PAD_DAC1: u32 = RTCIO_BASE + 0x84;

pub const RTC_GPIO_ENABLE: u32 = RTCIO_BASE + 0x0C;
pub const RTC_GPIO_SHIFT: u32 = 14;

pub const SAR_DAC_CTRL1: u32 = SENS_BASE + 0x98;
pub const SW_TONE_EN: u32 = 1 << 16;

/// Ties a channel to the cosine generator, as both are after a reset.
pub const SAR_DAC_CTRL2: u32 = SENS_BASE + 0x9C;
pub const DAC_CW_EN1_SHIFT: u32 = 24;

pub const PDAC_DAC_SHIFT: u32 = 19;
pub const PDAC_DAC_MASK: u32 = 0xFF;
pub const PDAC_XPD_DAC: u32 = 1 << 18;
pub const PDAC_MUX_SEL: u32 = 1 << 17;
pub const PDAC_FUN_SEL_MASK: u32 = 0x3 << 15;
pub const PDAC_FUN_IE: u32 = 1 << 11;
pub const PDAC_DAC_XPD_FORCE: u32 = 1 << 10;
pub const PDAC_RUE: u32 = 1 << 27;
pub const PDAC_RDE: u32 = 1 << 28;

/// A channel, named by the GPIO it drives.
#[derive(Clone, Copy, Debug, PartialEq, Eq, Structural)]
pub enum Channel {
    Gpio25,
    Gpio26,
}

/// The channel's number.
pub open spec fn channel_index(ch: Channel) -> u32 {
    match ch {
        Channel::Gpio25 => 0,
        Channel::Gpio26 => 1,
    }
}

/// The GPIO a channel drives.
pub open spec fn channel_gpio(ch: Channel) -> u8 {
    match ch {
        Channel::Gpio25 => 25,
        Channel::Gpio26 => 26,
    }
}

/// The channel that drives a GPIO.
pub open spec fn channel_on(gpio: u8) -> Option<Channel> {
    match gpio {
        25 => Some(Channel::Gpio25),
        26 => Some(Channel::Gpio26),
        _ => None,
    }
}

/// A channel's pad register.
pub open spec fn pad_of(ch: Channel) -> u32 {
    (PAD_DAC1 + 4 * channel_index(ch)) as u32
}

/// What ties a channel to the cosine generator.
pub open spec fn tone_of(ch: Channel) -> u32 {
    1u32 << (DAC_CW_EN1_SHIFT + channel_index(ch)) as u32
}

/// What lets the RTC's GPIO drive a channel's pad.
pub open spec fn driver_of(ch: Channel) -> u32 {
    1u32 << (RTC_GPIO_SHIFT + 6 + channel_index(ch)) as u32
}

impl Channel {
    /// The GPIO this channel drives.
    pub fn gpio(self) -> (gpio: u8)
        ensures
            gpio == channel_gpio(self),
    {
        match self {
            Channel::Gpio25 => 25,
            Channel::Gpio26 => 26,
        }
    }

    /// The channel that drives `gpio`, if there is one.
    pub fn from_gpio(gpio: u8) -> (ch: Option<Self>)
        ensures
            ch == channel_on(gpio),
    {
        match gpio {
            25 => Some(Channel::Gpio25),
            26 => Some(Channel::Gpio26),
            _ => None,
        }
    }

    /// The channel's number.
    pub fn index(self) -> (i: u32)
        ensures
            i == channel_index(self),
            i < 2,
    {
        match self {
            Channel::Gpio25 => 0,
            Channel::Gpio26 => 1,
        }
    }

    /// This channel's pad register.
    pub fn pad_reg(self) -> (addr: u32)
        ensures
            addr == pad_of(self),
    {
        PAD_DAC1 + self.index() * 4
    }

    /// What ties this channel to the cosine generator.
    pub fn cw_en(self) -> (bit: u32)
        ensures
            bit == tone_of(self),
    {
        1 << (DAC_CW_EN1_SHIFT + self.index())
    }

    /// What lets the RTC's GPIO drive this channel's pad.
    pub fn rtc_output_bit(self) -> (bit: u32)
        ensures
            bit == driver_of(self),
    {
        1 << (RTC_GPIO_SHIFT + 6 + self.index())
    }
}

/// Both outputs, which share the tone's registers.
#[derive(Clone, Copy, Debug, PartialEq, Eq, Structural)]
pub struct Dac {}

/// What is taken off a pad for the DAC alone to drive it.
pub open spec fn pad_off() -> u32 {
    PDAC_FUN_SEL_MASK | PDAC_FUN_IE | (PDAC_RUE | PDAC_RDE)
}

/// What is put on it: the analog side, and power under software.
pub open spec fn pad_on() -> u32 {
    PDAC_MUX_SEL | (PDAC_DAC_XPD_FORCE | PDAC_XPD_DAC)
}

/// The accesses that drive a channel.
pub open spec fn driving(ch: Channel, value: u8) -> Seq<RegOp> {
    seq![
        RegOp::Update { addr: pad_of(ch), clear: pad_off(), set: pad_on() },
        RegOp::Update { addr: RTC_GPIO_ENABLE, clear: driver_of(ch), set: 0 },
        RegOp::Update { addr: SAR_DAC_CTRL2, clear: tone_of(ch), set: 0 },
        RegOp::Update {
            addr: pad_of(ch),
            clear: PDAC_DAC_MASK << PDAC_DAC_SHIFT,
            set: (value as u32) << PDAC_DAC_SHIFT,
        },
    ]
}

/// The access that takes a channel's power.
pub open spec fn darkening(ch: Channel) -> RegOp {
    RegOp::Update { addr: pad_of(ch), clear: PDAC_DAC_XPD_FORCE | PDAC_XPD_DAC, set: 0 }
}

impl Dac {
    /// Takes the outputs and switches the tone off.
    pub fn new() -> (r: (Self, RegOp))
        ensures
            r.1 == (RegOp::Update { addr: SAR_DAC_CTRL1, clear: SW_TONE_EN, set: 0 }),
    {
        (Dac {  }, RegOp::Update { addr: SAR_DAC_CTRL1, clear: SW_TONE_EN, set: 0 })
    }

    /// Drives a channel, from nothing to the supply.
    pub fn output(&self, ch: Channel, value: u8) -> (ops: Vec<RegOp>)
        ensures
            ops@ == driving(ch, value),
    {
        let ops: Vec<RegOp> = vec![
            RegOp::Update {
                addr: ch.pad_reg(),
                clear: PDAC_FUN_SEL_MASK | PDAC_FUN_IE | (PDAC_RUE | PDAC_RDE),
                set: PDAC_MUX_SEL | (PDAC_DAC_XPD_FORCE | PDAC_XPD_DAC),
            },
            RegOp::Update { addr: RTC_GPIO_ENABLE, clear: ch.rtc_output_bit(), set: 0 },
            RegOp::Update { addr: SAR_DAC_CTRL2, clear: ch.cw_en(), set: 0 },
            RegOp::Update {
                addr: ch.pad_reg(),
                clear: PDAC_DAC_MASK << PDAC_DAC_SHIFT,
                set: (value as u32) << PDAC_DAC_SHIFT,
            },
        ];
        assert(ops@ =~= driving(ch, value));
        ops
    }

    /// Takes a channel's power.
    pub fn power_down(&self, ch: Channel) -> (op: RegOp)
        ensures
            op == darkening(ch),
    {
        RegOp::Update { addr: ch.pad_reg(), clear: PDAC_DAC_XPD_FORCE | PDAC_XPD_DAC, set: 0 }
    }
}

proof fn lemma_pad(before: u32, value: u8)
    by (bit_vector)
    ensures
        ({
            let off = (0x3u32 << 15) | (1u32 << 11) | ((1u32 << 27) | (1u32 << 28));
            let on = (1u32 << 17) | ((1u32 << 10) | (1u32 << 18));
            let first = (before & !off) | on;
            let pad = (first & !(0xFFu32 << 19)) | ((value as u32) << 19);
            &&& (pad >> 19) & 0xFF == value as u32
            &&& pad & on == on
            &&& pad & off == 0
            &&& pad & !(off | on | (0xFFu32 << 19)) == before & !(off | on | (0xFFu32 << 19))
            &&& pad & 0x1806_8C00 == 0x0006_0400
            &&& pad & !0x1FFF_8C00u32 == before & !0x1FFF_8C00u32
        }),
        (before & !(1u32 << 20u32)) | 0 == before & !0x0010_0000u32,
        (before & !(1u32 << 21u32)) | 0 == before & !0x0020_0000u32,
        (before & !(1u32 << 24u32)) | 0 == before & !0x0100_0000u32,
        (before & !(1u32 << 25u32)) | 0 == before & !0x0200_0000u32,
        (before & !((1u32 << 10) | (1u32 << 18))) | 0 == before & !0x0004_0400u32,
{
}

/// Whatever a pad held before, driving it leaves the value in its field, the DAC as
/// its only driver, and every other bit as it was.
pub proof fn law_a_driven_pad_holds_the_value(before: u32, value: u8)
    ensures
        ({
            let field = PDAC_DAC_MASK << PDAC_DAC_SHIFT;
            let first = super::updated(before, pad_off(), pad_on());
            let pad = super::updated(first, field, (value as u32) << PDAC_DAC_SHIFT);
            &&& (pad >> PDAC_DAC_SHIFT) & PDAC_DAC_MASK == value as u32
            &&& pad & pad_on() == pad_on()
            &&& pad & pad_off() == 0
            &&& pad & !(pad_off() | pad_on() | field) == before & !(pad_off() | pad_on() | field)
        }),
{
    lemma_pad(before, value);
}

/// Each channel drives its own GPIO, and no other GPIO has one.
pub proof fn law_each_channel_has_its_gpio(gpio: u8, ch: Channel)
    ensures
        channel_on(channel_gpio(ch)) == Some(ch),
        channel_on(gpio) is Some == (gpio == 25 || gpio == 26),
        channel_gpio(ch) == 25 + channel_index(ch),
        pad_of(Channel::Gpio25) == 0x3FF4_8484,
        pad_of(Channel::Gpio26) == 0x3FF4_8488,
{
}

/// Driving a channel leaves the value on its pad, the DAC powered and alone on it: the
/// digital driver and the cosine generator are taken off this channel and stay as they
/// were on the other, whose pad is untouched.
pub proof fn law_a_channel_is_driven_alone(r: super::Registers, ch: Channel, value: u8)
    ensures
        ({
            let end = super::after_all(r, driving(ch, value));
            let (pad, other, driver, tone) = match ch {
                Channel::Gpio25 => (
                    0x3FF4_8484u32,
                    0x3FF4_8488u32,
                    0x0010_0000u32,
                    0x0100_0000u32,
                ),
                Channel::Gpio26 => (
                    0x3FF4_8488u32,
                    0x3FF4_8484u32,
                    0x0020_0000u32,
                    0x0200_0000u32,
                ),
            };
            &&& (end.words[pad] >> 19) & 0xFF == value as u32
            &&& end.words[pad] & 0x1806_8C00 == 0x0006_0400
            &&& end.words[pad] & !0x1FFF_8C00u32 == r.words[pad] & !0x1FFF_8C00u32
            &&& end.words[other] == r.words[other]
            &&& end.words[0x3FF4_840C] == r.words[0x3FF4_840C] & !driver
            &&& end.words[0x3FF4_889C] == r.words[0x3FF4_889C] & !tone
        }),
{
    let ops = driving(ch, value);
    assert(super::after_all(r, ops.take(0)) == r);
    super::lemma_after_take(r, ops, 1);
    super::lemma_after_take(r, ops, 2);
    super::lemma_after_take(r, ops, 3);
    super::lemma_after_take(r, ops, 4);
    assert(ops.take(4) =~= ops);
    lemma_pad(r.words[pad_of(ch)], value);
    lemma_pad(r.words[0x3FF4_840C], value);
    lemma_pad(r.words[0x3FF4_889C], value);
}

/// Taking a channel's power takes nothing else.
pub proof fn law_a_dark_channel_keeps_its_value(r: super::Registers, ch: Channel)
    ensures
        super::after(r, darkening(ch)).words == r.words.insert(
            pad_of(ch),
            r.words[pad_of(ch)] & !0x0004_0400u32,
        ),
{
    lemma_pad(r.words[pad_of(ch)], 0);
}

} // verus!
