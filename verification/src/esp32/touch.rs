//! The touch pads: one measurement at a time, started by software. A finger makes the
//! count smaller.

use vstd::prelude::*;

use super::{judge, Poll, RegOp};

verus! {

pub const RTCIO_BASE: u32 = 0x3FF4_8400;
pub const SENS_BASE: u32 = 0x3FF4_8800;

pub const SAR_TOUCH_CTRL1: u32 = SENS_BASE + 0x58;
pub const MEAS_DELAY_MASK: u32 = 0xFFFF;
pub const XPD_WAIT_SHIFT: u32 = 16;
pub const XPD_WAIT_MASK: u32 = 0xFF << XPD_WAIT_SHIFT;

pub const SAR_TOUCH_CTRL2: u32 = SENS_BASE + 0x84;
pub const MEAS_DONE: u32 = 1 << 10;
pub const START_FSM_EN: u32 = 1 << 11;
/// Its rising edge starts a measurement.
pub const START_EN: u32 = 1 << 12;
/// Software starts, not a timer.
pub const START_FORCE: u32 = 1 << 13;

pub const SAR_TOUCH_ENABLE: u32 = SENS_BASE + 0x8C;
/// The first of five registers with two counts each.
pub const SAR_TOUCH_OUT1: u32 = SENS_BASE + 0x70;

pub const RTC_IO_TOUCH_CFG: u32 = RTCIO_BASE + 0x90;
pub const DRANGE_SHIFT: u32 = 25;
pub const DREFL_SHIFT: u32 = 27;
pub const DREFH_SHIFT: u32 = 29;
pub const DREF_FIELD_MASK: u32 = (0x3 << DREFH_SHIFT) | (0x3 << DREFL_SHIFT) | (0x3
    << DRANGE_SHIFT);

pub const RTC_IO_TOUCH_PAD0: u32 = RTCIO_BASE + 0x94;
pub const PAD_FUN_IE: u32 = 1 << 13;
pub const PAD_FUN_SEL_MASK: u32 = 0x3 << 17;
pub const PAD_MUX_SEL: u32 = 1 << 19;
pub const PAD_TIE_OPT: u32 = 1 << 21;
pub const PAD_DAC_SHIFT: u32 = 23;
pub const PAD_DAC_MASK: u32 = 0x7 << PAD_DAC_SHIFT;
pub const PAD_RUE: u32 = 1 << 27;
pub const PAD_RDE: u32 = 1 << 28;

pub const MEAS_DELAY_DEFAULT: u32 = 0x7FFF;
pub const XPD_WAIT_DEFAULT: u32 = 0xFF;
pub const DREFH_2V7: u32 = 3;
pub const DREFL_0V5: u32 = 0;
pub const DRANGE_ATTEN_1V: u32 = 1;
pub const SLOPE_DEFAULT: u32 = 7;

/// How many looks a measurement is given.
pub const MEAS_POLL_SPINS: u32 = 1_000_000;

/// A pad.
#[derive(Clone, Copy, Debug, PartialEq, Eq, Structural)]
pub enum Channel {
    T0,
    T1,
    T2,
    T3,
    T4,
    T5,
    T6,
    T7,
    T8,
    T9,
}

/// A pad's number.
pub open spec fn number(ch: Channel) -> u32 {
    match ch {
        Channel::T0 => 0,
        Channel::T1 => 1,
        Channel::T2 => 2,
        Channel::T3 => 3,
        Channel::T4 => 4,
        Channel::T5 => 5,
        Channel::T6 => 6,
        Channel::T7 => 7,
        Channel::T8 => 8,
        Channel::T9 => 9,
    }
}

/// A pad's number with the last two exchanged, as the hardware has it everywhere but
/// for the slope.
pub open spec fn exchanged(ch: Channel) -> u32 {
    match ch {
        Channel::T8 => 9,
        Channel::T9 => 8,
        _ => number(ch),
    }
}

/// The GPIO a pad shares.
pub open spec fn gpio_of(ch: Channel) -> u8 {
    match ch {
        Channel::T0 => 4,
        Channel::T1 => 0,
        Channel::T2 => 2,
        Channel::T3 => 15,
        Channel::T4 => 13,
        Channel::T5 => 12,
        Channel::T6 => 14,
        Channel::T7 => 27,
        Channel::T8 => 33,
        Channel::T9 => 32,
    }
}

/// The register of a pad's count, and where in it the count begins: even numbers in
/// the upper half.
pub open spec fn count_place(ch: Channel) -> (u32, u32) {
    let s = exchanged(ch);
    (
        (SAR_TOUCH_OUT1 + 4 * (s / 2)) as u32,
        if s % 2 == 0 {
            16
        } else {
            0
        },
    )
}

impl Channel {
    /// The GPIO this pad shares.
    pub fn gpio(self) -> (gpio: u8)
        ensures
            gpio == gpio_of(self),
    {
        match self {
            Channel::T0 => 4,
            Channel::T1 => 0,
            Channel::T2 => 2,
            Channel::T3 => 15,
            Channel::T4 => 13,
            Channel::T5 => 12,
            Channel::T6 => 14,
            Channel::T7 => 27,
            Channel::T8 => 33,
            Channel::T9 => 32,
        }
    }

    /// The pad that shares `gpio`, if there is one.
    pub fn from_gpio(gpio: u8) -> (ch: Option<Self>)
        ensures
            match ch {
                Some(c) => gpio_of(c) == gpio,
                None => forall|c: Channel| #[trigger] gpio_of(c) != gpio,
            },
    {
        match gpio {
            4 => Some(Channel::T0),
            0 => Some(Channel::T1),
            2 => Some(Channel::T2),
            15 => Some(Channel::T3),
            13 => Some(Channel::T4),
            12 => Some(Channel::T5),
            14 => Some(Channel::T6),
            27 => Some(Channel::T7),
            33 => Some(Channel::T8),
            32 => Some(Channel::T9),
            _ => None,
        }
    }

    /// The pad's number.
    pub fn num(self) -> (n: u32)
        ensures
            n == number(self),
            n < 10,
    {
        match self {
            Channel::T0 => 0,
            Channel::T1 => 1,
            Channel::T2 => 2,
            Channel::T3 => 3,
            Channel::T4 => 4,
            Channel::T5 => 5,
            Channel::T6 => 6,
            Channel::T7 => 7,
            Channel::T8 => 8,
            Channel::T9 => 9,
        }
    }

    /// The pad's number with the last two exchanged.
    pub fn swapped(self) -> (n: u32)
        ensures
            n == exchanged(self),
            n < 10,
    {
        match self {
            Channel::T8 => 9,
            Channel::T9 => 8,
            other => other.num(),
        }
    }

    /// The register of this pad's count, and where in it the count begins.
    pub fn out_reg_and_shift(self) -> (place: (u32, u32))
        ensures
            place == count_place(self),
            place.1 <= 16,
    {
        let s: u32 = self.swapped();
        let reg: u32 = SAR_TOUCH_OUT1 + (s / 2) * 4;
        let shift: u32 = if s % 2 == 0 {
            16
        } else {
            0
        };
        (reg, shift)
    }
}

/// No two pads share a GPIO, a number or a count.
pub proof fn law_pads_are_distinct(a: Channel, b: Channel)
    requires
        a != b,
    ensures
        gpio_of(a) != gpio_of(b),
        number(a) != number(b),
        exchanged(a) != exchanged(b),
        count_place(a) != count_place(b),
{
}

/// Why a measurement failed.
#[derive(Clone, Copy, Debug, PartialEq, Eq, Structural)]
pub enum TouchError {
    Timeout,
}

/// The sensor, whose registers the pads share.
#[derive(Clone, Copy, Debug, PartialEq, Eq, Structural)]
pub struct Touch {}

/// The accesses that bring the sensor up: the window, the reference voltages, software
/// in charge, no pad.
pub open spec fn bringing_up() -> Seq<RegOp> {
    seq![
        RegOp::Update {
            addr: SAR_TOUCH_CTRL1,
            clear: MEAS_DELAY_MASK | XPD_WAIT_MASK,
            set: MEAS_DELAY_DEFAULT | (XPD_WAIT_DEFAULT << XPD_WAIT_SHIFT),
        },
        RegOp::Update {
            addr: RTC_IO_TOUCH_CFG,
            clear: DREF_FIELD_MASK,
            set: (DREFH_2V7 << DREFH_SHIFT) | (DREFL_0V5 << DREFL_SHIFT) | (DRANGE_ATTEN_1V
                << DRANGE_SHIFT),
        },
        RegOp::Update {
            addr: SAR_TOUCH_CTRL2,
            clear: START_FSM_EN | START_FORCE | START_EN,
            set: START_FSM_EN | START_FORCE,
        },
        RegOp::Write { addr: SAR_TOUCH_ENABLE, value: 0 },
    ]
}

/// A pad's bit in the mask of those that are measured.
pub open spec fn worken(ch: Channel) -> u32 {
    1u32 << exchanged(ch)
}

/// The accesses that start a measurement of a pad: it is the sensor's, with its slope;
/// it alone is let in; and the start goes from low to high.
pub open spec fn measuring(ch: Channel) -> Seq<RegOp> {
    seq![
        RegOp::Update {
            addr: (RTC_IO_TOUCH_PAD0 + 4 * number(ch)) as u32,
            clear: PAD_FUN_IE | PAD_FUN_SEL_MASK | PAD_MUX_SEL | PAD_RUE | PAD_RDE | PAD_DAC_MASK,
            set: SLOPE_DEFAULT << PAD_DAC_SHIFT,
        },
        RegOp::Update {
            addr: (RTC_IO_TOUCH_PAD0 + 4 * exchanged(ch)) as u32,
            clear: PAD_TIE_OPT,
            set: 0,
        },
        RegOp::Update { addr: SAR_TOUCH_ENABLE, clear: worken(ch), set: worken(ch) },
        RegOp::Update { addr: SAR_TOUCH_CTRL2, clear: START_EN, set: 0 },
        RegOp::Update { addr: SAR_TOUCH_CTRL2, clear: START_EN, set: START_EN },
    ]
}

/// A pad's count, in its half of the register.
pub open spec fn counted(ch: Channel, word: u32) -> u32 {
    if count_place(ch).1 == 16 {
        word / 0x1_0000
    } else {
        word % 0x1_0000
    }
}

/// The access that lets a pad go.
pub open spec fn releasing(ch: Channel) -> RegOp {
    RegOp::Update { addr: SAR_TOUCH_ENABLE, clear: worken(ch), set: 0 }
}

impl Touch {
    /// Brings the sensor up.
    pub fn new() -> (r: (Self, Vec<RegOp>))
        ensures
            r.1@ == bringing_up(),
    {
        let ops: Vec<RegOp> = vec![
            RegOp::Update {
                addr: SAR_TOUCH_CTRL1,
                clear: MEAS_DELAY_MASK | XPD_WAIT_MASK,
                set: MEAS_DELAY_DEFAULT | (XPD_WAIT_DEFAULT << XPD_WAIT_SHIFT),
            },
            RegOp::Update {
                addr: RTC_IO_TOUCH_CFG,
                clear: DREF_FIELD_MASK,
                set: (DREFH_2V7 << DREFH_SHIFT) | (DREFL_0V5 << DREFL_SHIFT) | (DRANGE_ATTEN_1V
                    << DRANGE_SHIFT),
            },
            RegOp::Update {
                addr: SAR_TOUCH_CTRL2,
                clear: START_FSM_EN | START_FORCE | START_EN,
                set: START_FSM_EN | START_FORCE,
            },
            RegOp::Write { addr: SAR_TOUCH_ENABLE, value: 0 },
        ];
        assert(ops@ =~= bringing_up());
        (Touch {  }, ops)
    }

    /// Starts a measurement of a pad; [`Touch::done`] tells when it is over.
    pub fn read(&self, ch: Channel) -> (ops: Vec<RegOp>)
        ensures
            ops@ == measuring(ch),
    {
        let mask: u32 = 1u32 << ch.swapped();
        let ops: Vec<RegOp> = vec![
            RegOp::Update {
                addr: RTC_IO_TOUCH_PAD0 + ch.num() * 4,
                clear: PAD_FUN_IE | PAD_FUN_SEL_MASK | PAD_MUX_SEL | PAD_RUE | PAD_RDE
                    | PAD_DAC_MASK,
                set: SLOPE_DEFAULT << PAD_DAC_SHIFT,
            },
            RegOp::Update {
                addr: RTC_IO_TOUCH_PAD0 + ch.swapped() * 4,
                clear: PAD_TIE_OPT,
                set: 0,
            },
            RegOp::Update { addr: SAR_TOUCH_ENABLE, clear: mask, set: mask },
            RegOp::Update { addr: SAR_TOUCH_CTRL2, clear: START_EN, set: 0 },
            RegOp::Update { addr: SAR_TOUCH_CTRL2, clear: START_EN, set: START_EN },
        ];
        assert(ops@ =~= measuring(ch));
        ops
    }

    /// Whether a measurement is over, by the control register after `spins` looks in
    /// vain. Over or given up, [`Touch::release`] follows.
    pub fn done(&self, ctrl2: u32, spins: u32) -> (p: Poll)
        ensures
            p == super::verdict(ctrl2 & MEAS_DONE != 0, spins, (MEAS_POLL_SPINS - 1) as u32),
    {
        judge(ctrl2 & MEAS_DONE != 0, spins, MEAS_POLL_SPINS - 1)
    }

    /// A pad's count, by what the register of [`Channel::out_reg_and_shift`] holds.
    pub fn count(&self, ch: Channel, word: u32) -> (count: u16)
        ensures
            count == counted(ch, word),
    {
        let (_, shift): (u32, u32) = ch.out_reg_and_shift();
        proof {
            lemma_halves(word);
        }
        ((word >> shift) & 0xFFFF) as u16
    }

    /// Lets a pad go.
    pub fn release(&self, ch: Channel) -> (op: RegOp)
        ensures
            op == releasing(ch),
    {
        RegOp::Update { addr: SAR_TOUCH_ENABLE, clear: 1u32 << ch.swapped(), set: 0 }
    }
}

proof fn lemma_halves(word: u32)
    by (bit_vector)
    ensures
        (word >> 16u32) & 0xFFFF == word / 0x1_0000,
        (word >> 0u32) & 0xFFFF == word % 0x1_0000,
        ({
            let w = (word & !(0xFFFFu32 | (0xFFu32 << 16u32))) | (0x7FFFu32 | (0xFFu32 << 16u32));
            w & 0xFF_FFFF == 0xFF_7FFF && w & 0xFF00_0000 == word & 0xFF00_0000
        }),
        ({
            let mask = (0x3u32 << 29u32) | (0x3u32 << 27u32) | (0x3u32 << 25u32);
            let w = (word & !mask) | ((3u32 << 29u32) | (0u32 << 27u32) | (1u32 << 25u32));
            w & 0x7E00_0000 == 0x6200_0000 && w & !0x7E00_0000u32 == word & !0x7E00_0000u32
        }),
        ({
            let w = (word & !((1u32 << 11) | (1u32 << 13) | (1u32 << 12))) | ((1u32 << 11) | (1u32
                << 13));
            w & 0x3800 == 0x2800 && w & !0x3800u32 == word & !0x3800u32
        }),
        ({
            let off = (1u32 << 13) | (0x3u32 << 17) | (1u32 << 19) | (1u32 << 27) | (1u32 << 28)
                | (0x7u32 << 23u32);
            let w = (word & !off) | (7u32 << 23u32);
            let both = (w & !(1u32 << 21)) | 0;
            &&& w & 0x1B8E_2000 == 0x0380_0000
            &&& w & !0x1B8E_2000u32 == word & !0x1B8E_2000u32
            &&& both & 0x1BAE_2000 == 0x0380_0000
            &&& both & !0x1BAE_2000u32 == word & !0x1BAE_2000u32
        }),
        (word & !(1u32 << 21)) | 0 == word & !0x20_0000u32,
        ({
            let low = (word & !(1u32 << 12)) | 0;
            let high = (low & !(1u32 << 12)) | (1u32 << 12);
            low == word & !0x1000u32 && high == word | 0x1000
        }),
        forall|m: u32| #![trigger word & !m] (word & !m) | m == word | m,
        forall|m: u32| #![trigger word & !m] (word & !m) | 0 == word & !m,
{
}

/// The sensor comes up with its window, its reference voltages, software to start it and no
/// pad let in.
pub proof fn law_the_sensor_comes_up_with_no_pad(r: super::Registers)
    ensures
        ({
            let end = super::after_all(r, bringing_up());
            &&& end.words[0x3FF4_8858] & 0xFF_FFFF == 0xFF_7FFF
            &&& end.words[0x3FF4_8858] & 0xFF00_0000 == r.words[0x3FF4_8858] & 0xFF00_0000
            &&& end.words[0x3FF4_8490] & 0x7E00_0000 == 0x6200_0000
            &&& end.words[0x3FF4_8490] & !0x7E00_0000u32 == r.words[0x3FF4_8490] & !0x7E00_0000u32
            &&& end.words[0x3FF4_8884] & 0x3800 == 0x2800
            &&& end.words[0x3FF4_8884] & !0x3800u32 == r.words[0x3FF4_8884] & !0x3800u32
            &&& end.words[0x3FF4_888C] == 0
        }),
{
    let ops = bringing_up();
    assert(super::after_all(r, ops.take(0)) == r);
    super::lemma_after_take(r, ops, 1);
    super::lemma_after_take(r, ops, 2);
    super::lemma_after_take(r, ops, 3);
    super::lemma_after_take(r, ops, 4);
    assert(ops.take(4) =~= ops);
    lemma_halves(r.words[0x3FF4_8858]);
    lemma_halves(r.words[0x3FF4_8490]);
    lemma_halves(r.words[0x3FF4_8884]);
}

/// The pads are on the chip's pins, their counts two to a register with the even one above, and
/// the last two pads are exchanged everywhere but for the slope.
pub proof fn law_the_pads_are_the_chips(ch: Channel, word: u32)
    ensures
        number(ch) < 10,
        seq![4u8, 0, 2, 15, 13, 12, 14, 27, 33, 32][number(ch) as int] == gpio_of(ch),
        exchanged(ch) == if ch is T8 {
            9
        } else if ch is T9 {
            8
        } else {
            number(ch)
        },
        count_place(ch).0 == 0x3FF4_8870 + 4 * (exchanged(ch) / 2),
        counted(ch, word) == if exchanged(ch) % 2 == 0 {
            word / 0x1_0000
        } else {
            word % 0x1_0000
        },
{
}

/// A measurement is of the pad that was asked for: its pad is the sensor's, with the steepest
/// slope and free of all else, it is let in, and the start goes from low to high. Letting it go
/// takes it out again and no other.
pub proof fn law_a_measurement_is_of_its_pad(r: super::Registers, ch: Channel)
    ensures
        ({
            let ops = measuring(ch);
            let end = super::after_all(r, ops);
            let pad = (0x3FF4_8494 + 4 * number(ch)) as u32;
            let tied = (0x3FF4_8494 + 4 * exchanged(ch)) as u32;
            let bit = 1u32 << exchanged(ch);
            &&& ops.len() == 5
            &&& pad != tied ==> end.words[pad] & 0x1B8E_2000 == 0x0380_0000 && end.words[pad]
                & !0x1B8E_2000u32 == r.words[pad] & !0x1B8E_2000u32 && end.words[tied]
                == r.words[tied] & !0x20_0000u32
            &&& pad == tied ==> end.words[pad] & 0x1BAE_2000 == 0x0380_0000 && end.words[pad]
                & !0x1BAE_2000u32 == r.words[pad] & !0x1BAE_2000u32
            &&& end.words[0x3FF4_888C] == r.words[0x3FF4_888C] | bit
            &&& super::after_all(r, ops.take(4)).words[0x3FF4_8884] == r.words[0x3FF4_8884]
                & !0x1000u32
            &&& end.words[0x3FF4_8884] == r.words[0x3FF4_8884] | 0x1000
            &&& super::after(end, releasing(ch)).words[0x3FF4_888C] == end.words[0x3FF4_888C]
                & !bit
        }),
{
    let ops = measuring(ch);
    assert(super::after_all(r, ops.take(0)) == r);
    super::lemma_after_take(r, ops, 1);
    super::lemma_after_take(r, ops, 2);
    super::lemma_after_take(r, ops, 3);
    super::lemma_after_take(r, ops, 4);
    super::lemma_after_take(r, ops, 5);
    assert(ops.take(5) =~= ops);
    lemma_halves(r.words[(0x3FF4_8494 + 4 * number(ch)) as u32]);
    lemma_halves(r.words[(0x3FF4_8494 + 4 * exchanged(ch)) as u32]);
    lemma_halves(r.words[0x3FF4_888C]);
    lemma_halves(super::after_all(r, ops).words[0x3FF4_888C]);
    lemma_halves(r.words[0x3FF4_8884]);
}

} // verus!
