//! The general-purpose pins: which register and bit stands for each.

use vstd::prelude::*;

use super::RegOp;
use crate::bus::BusError;

verus! {

pub const GPIO_BASE: u32 = 0x3FF4_4000;

pub const GPIO_OUT: u32 = 0x04;
pub const GPIO_OUT_W1TS: u32 = 0x08;
pub const GPIO_OUT_W1TC: u32 = 0x0C;
pub const GPIO_OUT1: u32 = 0x10;
pub const GPIO_OUT1_W1TS: u32 = 0x14;
pub const GPIO_OUT1_W1TC: u32 = 0x18;
pub const GPIO_SDIO_SELECT: u32 = 0x1C;
pub const GPIO_ENABLE: u32 = 0x20;
pub const GPIO_ENABLE_W1TS: u32 = 0x24;
pub const GPIO_ENABLE_W1TC: u32 = 0x28;
pub const GPIO_ENABLE1: u32 = 0x2C;
pub const GPIO_ENABLE1_W1TS: u32 = 0x30;
pub const GPIO_ENABLE1_W1TC: u32 = 0x34;
pub const GPIO_IN: u32 = 0x3C;
pub const GPIO_IN1: u32 = 0x40;
pub const GPIO_STATUS: u32 = 0x44;
pub const GPIO_STATUS_W1TS: u32 = 0x48;
pub const GPIO_STATUS_W1TC: u32 = 0x4C;
pub const GPIO_STATUS1_W1TC: u32 = 0x58;

pub const MAX_PIN: u8 = 39;

/// What a pin is for.
#[derive(Clone, Copy, Debug, PartialEq, Eq, Structural)]
pub enum PinMode {
    Input,
    Output,
    InputPullUp,
    InputPullDown,
    OutputOpenDrain,
}

#[derive(Clone, Copy, Debug, PartialEq, Eq, Structural)]
pub enum PinLevel {
    Low,
    High,
}

/// Whether a pin is in the second set of registers, and its bit there.
pub open spec fn place_of(pin: u8) -> Option<(bool, u32)> {
    if pin > MAX_PIN {
        None
    } else if pin < 32 {
        Some((false, 1u32 << pin))
    } else {
        Some((true, 1u32 << (pin - 32) as u8))
    }
}

/// Whether a pin is in the second set of registers, and its bit there; `None` for a
/// pin that there is not.
pub fn pin_bit(pin: u8) -> (place: Option<(bool, u32)>)
    ensures
        place == place_of(pin),
{
    if pin > MAX_PIN {
        return None;
    }
    if pin < 32 {
        Some((false, 1u32 << pin))
    } else {
        Some((true, 1u32 << (pin - 32)))
    }
}

proof fn lemma_bits_differ(a: u8, b: u8)
    by (bit_vector)
    requires
        a < 32,
        b < 32,
        a != b,
    ensures
        (1u32 << a) & (1u32 << b) == 0,
        (1u32 << a) != 0,
        (1u32 << a) != (1u32 << b),
        forall|w: u32| #![trigger w & (1u32 << a)] (w & (1u32 << a) != 0) == ((w >> a) % 2 == 1),
        forall|w: u32| #![trigger w | (1u32 << a)] (w | (1u32 << a)) >> a & 1 == 1,
        forall|w: u32| #![trigger w | (1u32 << a)]
            (w | (1u32 << a)) & (1u32 << b) == w & (1u32 << b),
        forall|w: u32| #![trigger w & !(1u32 << a)] (w & !(1u32 << a)) & (1u32 << a) == 0,
        forall|w: u32| #![trigger w & !(1u32 << a)]
            (w & !(1u32 << a)) & (1u32 << b) == w & (1u32 << b),
        forall|w: u32| #![trigger w | (1u32 << a)] (w | (1u32 << a)) & (1u32 << a) != 0,
{
}

/// No two pins share a place, so that what is written for one never touches another.
pub proof fn law_pins_do_not_share(a: u8, b: u8)
    requires
        a <= MAX_PIN,
        b <= MAX_PIN,
        a != b,
    ensures
        match (place_of(a), place_of(b)) {
            (Some((second_a, bit_a)), Some((second_b, bit_b))) => second_a == second_b ==> bit_a
                & bit_b == 0,
            _ => false,
        },
        place_of(a) != place_of(b),
{
    if a < 32 && b < 32 {
        lemma_bits_differ(a, b);
    }
    if a >= 32 && b >= 32 {
        lemma_bits_differ((a - 32) as u8, (b - 32) as u8);
    }
}

/// The pins' registers.
#[derive(Clone, Copy, Debug, PartialEq, Eq, Structural)]
pub struct Esp32Gpio {
    pub base: u32,
}

/// A pin's bit written to one of a pair of registers.
pub open spec fn writing(base: u32, pin: u8, low: u32, high: u32) -> Result<RegOp, BusError> {
    match place_of(pin) {
        None => Err(BusError::InvalidConfig),
        Some((second, bit)) => Ok(
            RegOp::Write {
                addr: (base + if second {
                    high
                } else {
                    low
                }) as u32,
                value: bit,
            },
        ),
    }
}

/// The access that gives a pin its direction.
pub open spec fn directing(base: u32, pin: u8, mode: PinMode) -> Result<RegOp, BusError> {
    match mode {
        PinMode::Output => writing(base, pin, GPIO_ENABLE_W1TS, GPIO_ENABLE1_W1TS),
        PinMode::Input => writing(base, pin, GPIO_ENABLE_W1TC, GPIO_ENABLE1_W1TC),
        _ => Err(BusError::InvalidConfig),
    }
}

/// The access that drives a pin.
pub open spec fn driving(base: u32, pin: u8, level: PinLevel) -> Result<RegOp, BusError> {
    match level {
        PinLevel::High => writing(base, pin, GPIO_OUT_W1TS, GPIO_OUT1_W1TS),
        PinLevel::Low => writing(base, pin, GPIO_OUT_W1TC, GPIO_OUT1_W1TC),
    }
}

/// The access that acknowledges a pin's interrupt.
pub open spec fn acknowledging(base: u32, pin: u8) -> Result<RegOp, BusError> {
    writing(base, pin, GPIO_STATUS_W1TC, GPIO_STATUS1_W1TC)
}

/// Where a pin's level is read.
pub open spec fn sensed_at(base: u32, pin: u8) -> Result<u32, BusError> {
    match place_of(pin) {
        None => Err(BusError::InvalidConfig),
        Some((second, bit)) => Ok(
            (base + if second {
                GPIO_IN1
            } else {
                GPIO_IN
            }) as u32,
        ),
    }
}

/// A pin's level, by what is read there.
pub open spec fn sensed(pin: u8, word: u32) -> Result<PinLevel, BusError> {
    match place_of(pin) {
        None => Err(BusError::InvalidConfig),
        Some((second, bit)) => Ok(
            if word & bit != 0 {
                PinLevel::High
            } else {
                PinLevel::Low
            },
        ),
    }
}

impl Esp32Gpio {
    /// The registers lie within the address space.
    pub open spec fn wf(&self) -> bool {
        self.base + 0x58 <= u32::MAX
    }

    /// The registers at an address.
    pub fn new(base_addr: u32) -> (g: Self)
        ensures
            g.base == base_addr,
    {
        Esp32Gpio { base: base_addr }
    }

    /// The chip's pins.
    pub fn instance() -> (g: Self)
        ensures
            g.base == GPIO_BASE,
            g.wf(),
    {
        Esp32Gpio { base: GPIO_BASE }
    }

    fn write_bit(&self, pin: u8, low: u32, high: u32) -> (r: Result<RegOp, BusError>)
        requires
            self.wf(),
            low <= 0x58,
            high <= 0x58,
        ensures
            r == writing(self.base, pin, low, high),
    {
        match pin_bit(pin) {
            None => Err(BusError::InvalidConfig),
            Some((second, bit)) => {
                let off: u32 = if second {
                    high
                } else {
                    low
                };
                Ok(RegOp::Write { addr: self.base + off, value: bit })
            },
        }
    }

    /// Gives a pin its direction, once its pad is the GPIO's, readable and without a
    /// pull. What would take a pull or an open drain is refused, not ignored.
    pub fn set_mode(&self, pin: u8, mode: PinMode) -> (r: Result<RegOp, BusError>)
        requires
            self.wf(),
        ensures
            r == directing(self.base, pin, mode),
    {
        match mode {
            PinMode::Output => self.write_bit(pin, GPIO_ENABLE_W1TS, GPIO_ENABLE1_W1TS),
            PinMode::Input => self.write_bit(pin, GPIO_ENABLE_W1TC, GPIO_ENABLE1_W1TC),
            _ => Err(BusError::InvalidConfig),
        }
    }

    /// Drives a pin.
    pub fn write(&self, pin: u8, level: PinLevel) -> (r: Result<RegOp, BusError>)
        requires
            self.wf(),
        ensures
            r == driving(self.base, pin, level),
    {
        match level {
            PinLevel::High => self.write_bit(pin, GPIO_OUT_W1TS, GPIO_OUT1_W1TS),
            PinLevel::Low => self.write_bit(pin, GPIO_OUT_W1TC, GPIO_OUT1_W1TC),
        }
    }

    /// Where a pin's level is read.
    pub fn input_reg(&self, pin: u8) -> (r: Result<u32, BusError>)
        requires
            self.wf(),
        ensures
            r == sensed_at(self.base, pin),
    {
        match pin_bit(pin) {
            None => Err(BusError::InvalidConfig),
            Some((second, _)) => Ok(
                self.base + if second {
                    GPIO_IN1
                } else {
                    GPIO_IN
                },
            ),
        }
    }

    /// A pin's level, by what its register holds.
    pub fn read(&self, pin: u8, word: u32) -> (r: Result<PinLevel, BusError>)
        ensures
            r == sensed(pin, word),
    {
        match pin_bit(pin) {
            None => Err(BusError::InvalidConfig),
            Some((_, bit)) => Ok(
                if word & bit != 0 {
                    PinLevel::High
                } else {
                    PinLevel::Low
                },
            ),
        }
    }

    /// Acknowledges a pin's interrupt.
    pub fn clear_interrupt(&self, pin: u8) -> (r: Result<RegOp, BusError>)
        requires
            self.wf(),
        ensures
            r == acknowledging(self.base, pin),
    {
        self.write_bit(pin, GPIO_STATUS_W1TC, GPIO_STATUS1_W1TC)
    }
}

/// What the pins put out and which of them are outputs, each set's word by itself, and the
/// interrupts that wait.
pub struct Pads {
    pub out: (u32, u32),
    pub enabled: (u32, u32),
    pub waiting: (u32, u32),
}

/// The pads after a write at an offset: a register of ones to set or to clear leaves every
/// bit alone that is not written as one.
pub open spec fn pads_after(p: Pads, offset: int, value: u32) -> Pads {
    if offset == 0x08 {
        Pads { out: (p.out.0 | value, p.out.1), ..p }
    } else if offset == 0x0C {
        Pads { out: (p.out.0 & !value, p.out.1), ..p }
    } else if offset == 0x14 {
        Pads { out: (p.out.0, p.out.1 | value), ..p }
    } else if offset == 0x18 {
        Pads { out: (p.out.0, p.out.1 & !value), ..p }
    } else if offset == 0x24 {
        Pads { enabled: (p.enabled.0 | value, p.enabled.1), ..p }
    } else if offset == 0x28 {
        Pads { enabled: (p.enabled.0 & !value, p.enabled.1), ..p }
    } else if offset == 0x30 {
        Pads { enabled: (p.enabled.0, p.enabled.1 | value), ..p }
    } else if offset == 0x34 {
        Pads { enabled: (p.enabled.0, p.enabled.1 & !value), ..p }
    } else if offset == 0x4C {
        Pads { waiting: (p.waiting.0 & !value, p.waiting.1), ..p }
    } else if offset == 0x58 {
        Pads { waiting: (p.waiting.0, p.waiting.1 & !value), ..p }
    } else {
        p
    }
}

/// Whether a pin's bit is set in a pair of words.
pub open spec fn holds(words: (u32, u32), pin: u8) -> bool {
    if pin < 32 {
        words.0 & (1u32 << pin) != 0
    } else {
        words.1 & (1u32 << (pin - 32) as u8) != 0
    }
}

proof fn lemma_pad_bits(words: (u32, u32), a: u8, b: u8)
    requires
        a <= 39,
        b <= 39,
        a != b,
    ensures
        a < 32 ==> {
            let bit = 1u32 << a;
            &&& holds((words.0 | bit, words.1), a)
            &&& !holds((words.0 & !bit, words.1), a)
            &&& holds((words.0 | bit, words.1), b) == holds(words, b)
            &&& holds((words.0 & !bit, words.1), b) == holds(words, b)
        },
        a >= 32 ==> {
            let bit = 1u32 << (a - 32) as u8;
            &&& holds((words.0, words.1 | bit), a)
            &&& !holds((words.0, words.1 & !bit), a)
            &&& holds((words.0, words.1 | bit), b) == holds(words, b)
            &&& holds((words.0, words.1 & !bit), b) == holds(words, b)
        },
{
    if a < 32 && b < 32 {
        lemma_bits_differ(a, b);
    } else if a >= 32 && b >= 32 {
        lemma_bits_differ((a - 32) as u8, (b - 32) as u8);
    } else if a < 32 {
        lemma_bits_differ(a, if a == 0 { 1 } else { 0 });
    } else {
        lemma_bits_differ((a - 32) as u8, if a == 32 { 1 } else { 0 });
    }
}

/// A pin puts out the level that it was given, and every other pin the one that it had;
/// nothing else changes. There is no pin above 39.
pub proof fn law_a_pin_is_driven_alone(base: u32, p: Pads, pin: u8, other: u8, level: PinLevel)
    requires
        base + 0x58 <= u32::MAX,
        other <= 39,
        pin != other,
    ensures
        match driving(base, pin, level) {
            Ok(RegOp::Write { addr, value }) => {
                let now = pads_after(p, addr - base, value);
                &&& pin <= 39
                &&& holds(now.out, pin) == (level is High)
                &&& holds(now.out, other) == holds(p.out, other)
                &&& now == (Pads { out: now.out, ..p })
            },
            Ok(_) => false,
            Err(e) => pin > 39 && e is InvalidConfig,
        },
{
    if pin <= 39 {
        lemma_pad_bits(p.out, pin, other);
    }
}

/// A pin becomes what was asked of it, an output or none, and every other pin stays what
/// it was. What there is no register for is refused.
pub proof fn law_a_pin_is_directed_alone(base: u32, p: Pads, pin: u8, other: u8, mode: PinMode)
    requires
        base + 0x58 <= u32::MAX,
        other <= 39,
        pin != other,
    ensures
        match directing(base, pin, mode) {
            Ok(RegOp::Write { addr, value }) => {
                let now = pads_after(p, addr - base, value);
                &&& pin <= 39
                &&& mode is Output || mode is Input
                &&& holds(now.enabled, pin) == (mode is Output)
                &&& holds(now.enabled, other) == holds(p.enabled, other)
                &&& now == (Pads { enabled: now.enabled, ..p })
            },
            Ok(_) => false,
            Err(e) => (pin > 39 || !(mode is Output || mode is Input)) && e is InvalidConfig,
        },
{
    if pin <= 39 {
        lemma_pad_bits(p.enabled, pin, other);
    }
}

/// Acknowledging a pin's interrupt leaves those of the others waiting.
pub proof fn law_an_interrupt_is_acknowledged_alone(base: u32, p: Pads, pin: u8, other: u8)
    requires
        base + 0x58 <= u32::MAX,
        other <= 39,
        pin != other,
    ensures
        match acknowledging(base, pin) {
            Ok(RegOp::Write { addr, value }) => {
                let now = pads_after(p, addr - base, value);
                &&& pin <= 39
                &&& !holds(now.waiting, pin)
                &&& holds(now.waiting, other) == holds(p.waiting, other)
                &&& now == (Pads { waiting: now.waiting, ..p })
            },
            Ok(_) => false,
            Err(e) => pin > 39 && e is InvalidConfig,
        },
{
    if pin <= 39 {
        lemma_pad_bits(p.waiting, pin, other);
    }
}

/// A pin's level is its bit of the input word of its set.
pub proof fn law_a_pin_is_read_from_its_bit(base: u32, pin: u8, words: (u32, u32))
    requires
        base + 0x58 <= u32::MAX,
    ensures
        match sensed_at(base, pin) {
            Ok(addr) => {
                let word = if addr - base == 0x3C {
                    words.0
                } else {
                    words.1
                };
                &&& pin <= 39
                &&& addr - base == if pin < 32 {
                    0x3Cint
                } else {
                    0x40
                }
                &&& sensed(pin, word) == Ok::<PinLevel, BusError>(
                    if holds(words, pin) {
                        PinLevel::High
                    } else {
                        PinLevel::Low
                    },
                )
            },
            Err(e) => pin > 39 && e is InvalidConfig && sensed(pin, words.0)
                == Err::<PinLevel, BusError>(BusError::InvalidConfig),
        },
{
}

} // verus!
