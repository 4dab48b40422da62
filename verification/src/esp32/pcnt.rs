//! The pulse counters: eight units that step on the edges of one input, in the
//! direction that the level of another one gives.

use vstd::prelude::*;

use super::{RegOp, Route};
use crate::bus::BusError;

verus! {

pub const PCNT_BASE: u32 = 0x3FF5_7000;

pub const NUM_UNITS: u8 = 8;
/// The widest glitch that can be filtered, in cycles.
pub const MAX_FILTER_THRES: u16 = 1023;

pub const UNIT_CONF_STRIDE: u32 = 0x0C;
pub const CNT_BASE: u32 = 0x60;
pub const CTRL: u32 = 0xB0;

pub const CONF0_FILTER_THRES_MASK: u32 = 0x3FF;
pub const CONF0_FILTER_EN: u32 = 1 << 10;
pub const CONF0_CH0_NEG_MODE_SHIFT: u32 = 16;
pub const CONF0_CH0_POS_MODE_SHIFT: u32 = 18;
pub const CONF0_CH0_HCTRL_MODE_SHIFT: u32 = 20;
pub const CONF0_CH0_LCTRL_MODE_SHIFT: u32 = 22;

/// What an edge does.
#[derive(Clone, Copy, Debug, PartialEq, Eq, Structural)]
pub enum EdgeAction {
    Hold,
    Increase,
    Decrease,
}

impl EdgeAction {
    /// The action's two-bit code.
    pub open spec fn code(self) -> u32 {
        match self {
            EdgeAction::Hold => 0,
            EdgeAction::Increase => 1,
            EdgeAction::Decrease => 2,
        }
    }

    fn to_code(self) -> (c: u32)
        ensures
            c == self.code(),
    {
        match self {
            EdgeAction::Hold => 0,
            EdgeAction::Increase => 1,
            EdgeAction::Decrease => 2,
        }
    }
}

/// What a level of the control input makes of that.
#[derive(Clone, Copy, Debug, PartialEq, Eq, Structural)]
pub enum LevelAction {
    Keep,
    Inverse,
    Hold,
}

impl LevelAction {
    /// The action's two-bit code.
    pub open spec fn code(self) -> u32 {
        match self {
            LevelAction::Keep => 0,
            LevelAction::Inverse => 1,
            LevelAction::Hold => 2,
        }
    }

    fn to_code(self) -> (c: u32)
        ensures
            c == self.code(),
    {
        match self {
            LevelAction::Keep => 0,
            LevelAction::Inverse => 1,
            LevelAction::Hold => 2,
        }
    }
}

/// What a unit counts: an action for each edge, and a change to it for each level.
#[derive(Clone, Copy, Debug, PartialEq, Eq, Structural)]
pub struct ChannelMode {
    pub pos: EdgeAction,
    pub neg: EdgeAction,
    pub high: LevelAction,
    pub low: LevelAction,
}

/// Up on a rising edge while the control input is high, down while it is low.
pub open spec fn up_down() -> ChannelMode {
    ChannelMode {
        pos: EdgeAction::Increase,
        neg: EdgeAction::Hold,
        high: LevelAction::Keep,
        low: LevelAction::Inverse,
    }
}

impl ChannelMode {
    /// Up on a rising edge while the control input is high, down while it is low.
    pub fn up_down_on_rising() -> (m: Self)
        ensures
            m == up_down(),
    {
        ChannelMode {
            pos: EdgeAction::Increase,
            neg: EdgeAction::Hold,
            high: LevelAction::Keep,
            low: LevelAction::Inverse,
        }
    }
}

/// Which pulses are too short to count.
#[derive(Clone, Copy, Debug, PartialEq, Eq, Structural)]
pub enum Filter {
    Off,
    /// Those shorter than this many cycles.
    Cycles(u16),
}

/// The filter's bits: a threshold, cut to what fits, and its switch.
pub open spec fn filter_fields(filter: Filter) -> (u32, u32) {
    match filter {
        Filter::Off => (0, 0),
        Filter::Cycles(t) => (
            if t > MAX_FILTER_THRES {
                MAX_FILTER_THRES as u32
            } else {
                t as u32
            },
            CONF0_FILTER_EN,
        ),
    }
}

fn fields_of(filter: Filter) -> (f: (u32, u32))
    ensures
        f == filter_fields(filter),
        f.0 <= MAX_FILTER_THRES,
{
    match filter {
        Filter::Off => (0, 0),
        Filter::Cycles(t) => (
            if t > MAX_FILTER_THRES {
                MAX_FILTER_THRES as u32
            } else {
                t as u32
            },
            CONF0_FILTER_EN,
        ),
    }
}

/// A unit's first configuration word.
pub open spec fn conf0_word(mode: ChannelMode, filter: Filter) -> u32 {
    let (thres, en) = filter_fields(filter);
    (thres & CONF0_FILTER_THRES_MASK) | en | (mode.neg.code() << CONF0_CH0_NEG_MODE_SHIFT) | (
    mode.pos.code() << CONF0_CH0_POS_MODE_SHIFT) | (mode.high.code()
        << CONF0_CH0_HCTRL_MODE_SHIFT) | (mode.low.code() << CONF0_CH0_LCTRL_MODE_SHIFT)
}

/// A unit's first configuration word.
pub fn conf0_bits(mode: ChannelMode, filter: Filter) -> (word: u32)
    ensures
        word == conf0_word(mode, filter),
{
    let (thres, en): (u32, u32) = fields_of(filter);
    (thres & CONF0_FILTER_THRES_MASK) | en | (mode.neg.to_code() << CONF0_CH0_NEG_MODE_SHIFT) | (
    mode.pos.to_code() << CONF0_CH0_POS_MODE_SHIFT) | (mode.high.to_code()
        << CONF0_CH0_HCTRL_MODE_SHIFT) | (mode.low.to_code() << CONF0_CH0_LCTRL_MODE_SHIFT)
}

proof fn lemma_conf0(thres: u32, en: u32, neg: u32, pos: u32, high: u32, low: u32)
    by (bit_vector)
    requires
        thres <= 1023,
        en == 0 || en == 1u32 << 10,
        neg <= 2,
        pos <= 2,
        high <= 2,
        low <= 2,
    ensures
        ({
            let v = (thres & 0x3FF) | en | (neg << 16) | (pos << 18) | (high << 20) | (low << 22);
            &&& v & 0x3FF == thres
            &&& v & (1u32 << 10) == en
            &&& (v >> 16) & 3 == neg
            &&& (v >> 18) & 3 == pos
            &&& (v >> 20) & 3 == high
            &&& (v >> 22) & 3 == low
            &&& v & 0xFF00_F800 == 0
        }),
        ({
            let v = (thres & 0x3FF) | en | (neg << 16) | (pos << 18) | (high << 20) | (low << 22);
            let kept = v & !(0x3FFu32 | (1u32 << 10));
            &&& (kept >> 16) & 3 == neg
            &&& (kept >> 18) & 3 == pos
            &&& (kept >> 20) & 3 == high
            &&& (kept >> 22) & 3 == low
            &&& kept == (neg << 16) | (pos << 18) | (high << 20) | (low << 22)
        }),
        1u32 << 10 != 0,
{
}

/// Each field of the configuration holds what it is for, whatever the threshold asked
/// for, and nothing is set besides.
pub proof fn law_configuration_fields(mode: ChannelMode, filter: Filter)
    ensures
        ({
            let v = conf0_word(mode, filter);
            &&& v & CONF0_FILTER_THRES_MASK == filter_fields(filter).0
            &&& v & CONF0_FILTER_EN == filter_fields(filter).1
            &&& (v >> CONF0_CH0_NEG_MODE_SHIFT) & 3 == mode.neg.code()
            &&& (v >> CONF0_CH0_POS_MODE_SHIFT) & 3 == mode.pos.code()
            &&& (v >> CONF0_CH0_HCTRL_MODE_SHIFT) & 3 == mode.high.code()
            &&& (v >> CONF0_CH0_LCTRL_MODE_SHIFT) & 3 == mode.low.code()
            &&& v & 0xFF00_F800 == 0
        }),
{
    let (thres, en) = filter_fields(filter);
    lemma_conf0(
        thres,
        en,
        mode.neg.code(),
        mode.pos.code(),
        mode.high.code(),
        mode.low.code(),
    );
}

proof fn lemma_filter_rewrite(thres: u32, en: u32, modes: u32)
    by (bit_vector)
    requires
        thres <= 1023,
        en == 0 || en == 1u32 << 10,
        modes & (0x3FFu32 | (1u32 << 10)) == 0,
    ensures
        modes | (thres | en) == (thres & 0x3FF) | en | modes,
{
}

proof fn lemma_modes_apart(neg: u32, pos: u32, high: u32, low: u32, thres: u32, en: u32)
    by (bit_vector)
    requires
        neg <= 2,
        pos <= 2,
        high <= 2,
        low <= 2,
    ensures
        ((neg << 16) | (pos << 18) | (high << 20) | (low << 22)) & (0x3FFu32 | (1u32 << 10)) == 0,
        (thres & 0x3FF) | en | ((neg << 16) | (pos << 18) | (high << 20) | (low << 22)) == (thres
            & 0x3FF) | en | (neg << 16) | (pos << 18) | (high << 20) | (low << 22),
{
}

/// Changing the filter comes to the same as configuring anew with the mode that was
/// there.
pub proof fn law_a_new_filter_keeps_the_mode(mode: ChannelMode, old_filter: Filter, new: Filter)
    ensures
        super::updated(
            conf0_word(mode, old_filter),
            CONF0_FILTER_THRES_MASK | CONF0_FILTER_EN,
            filter_fields(new).0 | filter_fields(new).1,
        ) == conf0_word(mode, new),
{
    let (t0, e0) = filter_fields(old_filter);
    let (t1, e1) = filter_fields(new);
    let neg = mode.neg.code();
    let pos = mode.pos.code();
    let high = mode.high.code();
    let low = mode.low.code();
    lemma_conf0(t0, e0, neg, pos, high, low);
    lemma_modes_apart(neg, pos, high, low, t1, e1);
    lemma_filter_rewrite(t1, e1, (neg << 16) | (pos << 18) | (high << 20) | (low << 22));
}

/// The count in a register: its low half, as a signed number.
pub open spec fn counted(word: u32) -> int {
    let low = word as int % 0x1_0000;
    if low < 0x8000 {
        low
    } else {
        low - 0x1_0000
    }
}

proof fn lemma_low_half(word: u32)
    by (bit_vector)
    ensures
        word & 0xFFFF == word % 0x1_0000,
{
}

/// The count in a register; what is above its low half means nothing.
pub fn count_of(reg_val: u32) -> (count: i16)
    ensures
        count == counted(reg_val),
{
    proof {
        lemma_low_half(reg_val);
    }
    let low: u32 = reg_val & 0xFFFF;
    if low < 0x8000 {
        low as i16
    } else {
        (low as i32 - 0x1_0000) as i16
    }
}

/// The matrix input of a unit's signal. The last three are not where the others
/// lead.
pub open spec fn signal_index(u: u8) -> Option<u32> {
    if u <= 4 {
        Some((39 + 4 * u) as u32)
    } else if u <= 7 {
        Some((71 + 4 * (u - 5)) as u32)
    } else {
        None
    }
}

/// The matrix input of a unit's control.
pub open spec fn control_index(u: u8) -> Option<u32> {
    match signal_index(u) {
        Some(i) => Some((i + 2) as u32),
        None => None,
    }
}

/// The matrix input of a unit's signal.
pub fn sig_ch0_index(u: u8) -> (i: Option<u32>)
    ensures
        i == signal_index(u),
{
    if u <= 4 {
        Some(39 + (u as u32) * 4)
    } else if u <= 7 {
        Some(71 + (u as u32 - 5) * 4)
    } else {
        None
    }
}

/// The matrix input of a unit's control, two above its signal's.
pub fn ctrl_ch0_index(u: u8) -> (i: Option<u32>)
    ensures
        i == control_index(u),
{
    match sig_ch0_index(u) {
        Some(sig) => Some(sig + 2),
        None => None,
    }
}

/// No two units share a matrix input, nor does one use the same for both.
pub proof fn law_inputs_are_distinct(a: u8, b: u8)
    requires
        a < NUM_UNITS,
        b < NUM_UNITS,
    ensures
        signal_index(a) != control_index(b),
        a != b ==> signal_index(a) != signal_index(b),
        a != b ==> control_index(a) != control_index(b),
{
}

/// A unit.
#[derive(Clone, Copy, Debug, PartialEq, Eq, Structural)]
pub struct PcntUnit {
    pub unit: u8,
}

/// Where a unit's first configuration word is.
pub open spec fn conf0_addr(unit: u8) -> u32 {
    (PCNT_BASE + UNIT_CONF_STRIDE * unit) as u32
}

/// Where a unit's count is.
pub open spec fn count_addr(unit: u8) -> u32 {
    (PCNT_BASE + CNT_BASE + 4 * unit) as u32
}

/// What zeroes a unit.
pub open spec fn zeroing(unit: u8) -> u32 {
    1u32 << (2 * unit) as u32
}

/// What holds a unit.
pub open spec fn pausing(unit: u8) -> u32 {
    1u32 << (2 * unit + 1) as u32
}

/// The register with both, for all units.
pub open spec fn ctrl_addr() -> u32 {
    (PCNT_BASE + CTRL) as u32
}

proof fn lemma_unit_bits(a: u32, b: u32)
    by (bit_vector)
    requires
        a < 8,
        b < 8,
    ensures
        (1u32 << ((2 * a) as u32)) & (1u32 << ((2 * b + 1) as u32)) == 0,
        a != b ==> (1u32 << ((2 * a) as u32)) & (1u32 << ((2 * b) as u32)) == 0,
        a != b ==> (1u32 << ((2 * a + 1) as u32)) & (1u32 << ((2 * b + 1) as u32)) == 0,
        forall|w: u32| #![trigger w & !0u32]
            {
                let z = 1u32 << ((2 * a) as u32);
                let p = 1u32 << ((2 * a + 1) as u32);
                let held = (w & !0u32) | p;
                let high = (held & !0u32) | z;
                let low = (high & !z) | 0;
                &&& (high >> (2 * a) as u32) % 4 == 3
                &&& (low >> (2 * a) as u32) % 4 == 2
                &&& low & !(z | p) == w & !(z | p)
                &&& (((w & !0u32) | z) >> (2 * a) as u32) % 2 == 1
                &&& (((((w & !0u32) | z) & !z) | 0) >> (2 * a) as u32) % 2 == 0
                &&& ((((w & !0u32) | z) & !z) | 0) | z == w | z
                &&& (held >> (2 * a + 1) as u32) % 2 == 1
                &&& held & !p == w & !p
            },
        forall|w: u32| #![trigger w & !(1u32 << ((2 * a + 1) as u32))]
            {
                let p = 1u32 << ((2 * a + 1) as u32);
                let freed = (w & !p) | 0;
                &&& (freed >> (2 * a + 1) as u32) % 2 == 0
                &&& freed | p == w | p
            },
{
}

/// Zeroing and holding never touch each other, nor another unit.
pub proof fn law_control_bits_are_distinct(a: u8, b: u8)
    requires
        a < NUM_UNITS,
        b < NUM_UNITS,
    ensures
        zeroing(a) & pausing(b) == 0,
        a != b ==> zeroing(a) & zeroing(b) == 0,
        a != b ==> pausing(a) & pausing(b) == 0,
{
    lemma_unit_bits(a as u32, b as u32);
}

/// The units' configurations, their counts and the control register do not overlap.
pub proof fn law_registers_are_distinct(a: u8, b: u8)
    requires
        a < NUM_UNITS,
        b < NUM_UNITS,
    ensures
        conf0_addr(a) + UNIT_CONF_STRIDE <= count_addr(b),
        count_addr(b) + 4 <= ctrl_addr(),
        a < b ==> conf0_addr(a) + UNIT_CONF_STRIDE <= conf0_addr(b),
{
}

/// The accesses that bring a unit up: held, zeroed and configured.
pub open spec fn starting(unit: u8, mode: ChannelMode, filter: Filter) -> Seq<RegOp> {
    seq![
        RegOp::Gate { base: PCNT_BASE, on: true },
        RegOp::Update { addr: ctrl_addr(), clear: 0, set: pausing(unit) },
        RegOp::Update { addr: ctrl_addr(), clear: 0, set: zeroing(unit) },
        RegOp::Update { addr: ctrl_addr(), clear: zeroing(unit), set: 0 },
        RegOp::Write { addr: conf0_addr(unit), value: conf0_word(mode, filter) },
    ]
}

/// The accesses that zero a unit.
pub open spec fn clearing(unit: u8) -> Seq<RegOp> {
    seq![
        RegOp::Update { addr: ctrl_addr(), clear: 0, set: zeroing(unit) },
        RegOp::Update { addr: ctrl_addr(), clear: zeroing(unit), set: 0 },
    ]
}

/// The access that holds a unit or lets it go on.
pub open spec fn holding(unit: u8, held: bool) -> RegOp {
    if held {
        RegOp::Update { addr: ctrl_addr(), clear: 0, set: pausing(unit) }
    } else {
        RegOp::Update { addr: ctrl_addr(), clear: pausing(unit), set: 0 }
    }
}

impl PcntUnit {
    /// The unit exists.
    pub open spec fn wf(&self) -> bool {
        self.unit < NUM_UNITS
    }

    /// Brings a unit up, held at zero.
    pub fn new(unit: u8, mode: ChannelMode, filter: Filter) -> (r: Result<
        (Self, Vec<RegOp>),
        BusError,
    >)
        ensures
            match r {
                Err(e) => unit >= NUM_UNITS && e is InvalidConfig,
                Ok((u, ops)) => u.unit == unit && u.wf() && ops@ == starting(unit, mode, filter),
            },
    {
        if unit >= NUM_UNITS {
            return Err(BusError::InvalidConfig);
        }
        let this: PcntUnit = PcntUnit { unit };
        let ops: Vec<RegOp> = vec![
            RegOp::Gate { base: PCNT_BASE, on: true },
            this.pause(),
            RegOp::Update { addr: PCNT_BASE + CTRL, clear: 0, set: this.reset_bit() },
            RegOp::Update { addr: PCNT_BASE + CTRL, clear: this.reset_bit(), set: 0 },
            this.configure(mode, filter),
        ];
        assert(ops@ =~= starting(unit, mode, filter));
        Ok((this, ops))
    }

    /// Gives the unit another mode and filter.
    pub fn configure(&self, mode: ChannelMode, filter: Filter) -> (op: RegOp)
        requires
            self.wf(),
        ensures
            op == (RegOp::Write { addr: conf0_addr(self.unit), value: conf0_word(mode, filter) }),
    {
        RegOp::Write {
            addr: PCNT_BASE + self.unit as u32 * UNIT_CONF_STRIDE,
            value: conf0_bits(mode, filter),
        }
    }

    /// Gives it another filter alone.
    pub fn set_filter(&self, filter: Filter) -> (op: RegOp)
        requires
            self.wf(),
        ensures
            op == (RegOp::Update {
                addr: conf0_addr(self.unit),
                clear: CONF0_FILTER_THRES_MASK | CONF0_FILTER_EN,
                set: filter_fields(filter).0 | filter_fields(filter).1,
            }),
    {
        let (thres, en): (u32, u32) = fields_of(filter);
        RegOp::Update {
            addr: PCNT_BASE + self.unit as u32 * UNIT_CONF_STRIDE,
            clear: CONF0_FILTER_THRES_MASK | CONF0_FILTER_EN,
            set: thres | en,
        }
    }

    /// Connects the signal to a pad.
    pub fn route_signal(&self, pin: u8) -> (r: Result<Route, BusError>)
        ensures
            r == match signal_index(self.unit) {
                Some(idx) => Ok::<Route, BusError>(Route::Input { idx, pin }),
                None => Err::<Route, BusError>(BusError::InvalidConfig),
            },
    {
        match sig_ch0_index(self.unit) {
            Some(idx) => Ok(Route::Input { idx, pin }),
            None => Err(BusError::InvalidConfig),
        }
    }

    /// Connects the control to a pad.
    pub fn route_control(&self, pin: u8) -> (r: Result<Route, BusError>)
        ensures
            r == match control_index(self.unit) {
                Some(idx) => Ok::<Route, BusError>(Route::Input { idx, pin }),
                None => Err::<Route, BusError>(BusError::InvalidConfig),
            },
    {
        match ctrl_ch0_index(self.unit) {
            Some(idx) => Ok(Route::Input { idx, pin }),
            None => Err(BusError::InvalidConfig),
        }
    }

    /// Connects the control to a constant level, which takes no pad.
    pub fn route_control_level(&self, high: bool) -> (r: Result<Route, BusError>)
        ensures
            r == match control_index(self.unit) {
                Some(idx) => Ok::<Route, BusError>(Route::Level { idx, high }),
                None => Err::<Route, BusError>(BusError::InvalidConfig),
            },
    {
        match ctrl_ch0_index(self.unit) {
            Some(idx) => Ok(Route::Level { idx, high }),
            None => Err(BusError::InvalidConfig),
        }
    }

    /// Holds the count.
    pub fn pause(&self) -> (op: RegOp)
        requires
            self.wf(),
        ensures
            op == holding(self.unit, true),
    {
        RegOp::Update { addr: PCNT_BASE + CTRL, clear: 0, set: self.pause_bit() }
    }

    /// Lets it go on.
    pub fn resume(&self) -> (op: RegOp)
        requires
            self.wf(),
        ensures
            op == holding(self.unit, false),
    {
        RegOp::Update { addr: PCNT_BASE + CTRL, clear: self.pause_bit(), set: 0 }
    }

    /// Zeroes it, with a pulse that lets it go again.
    pub fn clear(&self) -> (ops: Vec<RegOp>)
        requires
            self.wf(),
        ensures
            ops@ == clearing(self.unit),
    {
        let bit: u32 = self.reset_bit();
        let ops: Vec<RegOp> = vec![
            RegOp::Update { addr: PCNT_BASE + CTRL, clear: 0, set: bit },
            RegOp::Update { addr: PCNT_BASE + CTRL, clear: bit, set: 0 },
        ];
        assert(ops@ =~= clearing(self.unit));
        ops
    }

    /// Where the count is; [`count_of`] makes a number of it.
    pub fn count(&self) -> (addr: u32)
        requires
            self.wf(),
        ensures
            addr == count_addr(self.unit),
    {
        PCNT_BASE + CNT_BASE + self.unit as u32 * 4
    }

    /// What zeroes this unit.
    pub fn reset_bit(&self) -> (bit: u32)
        requires
            self.wf(),
        ensures
            bit == zeroing(self.unit),
    {
        1 << (2 * self.unit as u32)
    }

    /// What holds this unit.
    pub fn pause_bit(&self) -> (bit: u32)
        requires
            self.wf(),
        ensures
            bit == pausing(self.unit),
    {
        1 << (2 * self.unit as u32 + 1)
    }
}

/// What the hardware adds to the count at an edge, by the fields of a unit's configuration:
/// one code for each edge, and one for each level of the control input.
pub open spec fn added_by(word: u32, rising: bool, control: bool) -> int {
    let edge = if rising {
        (word >> 18) & 3
    } else {
        (word >> 16) & 3
    };
    let level = if control {
        (word >> 20) & 3
    } else {
        (word >> 22) & 3
    };
    let step = if edge == 1 {
        1int
    } else if edge == 2 {
        -1
    } else {
        0
    };
    if level == 0 {
        step
    } else if level == 1 {
        -step
    } else {
        0
    }
}

/// What a mode says is to be added.
pub open spec fn meant_by(mode: ChannelMode, rising: bool, control: bool) -> int {
    let step = match (if rising {
        mode.pos
    } else {
        mode.neg
    }) {
        EdgeAction::Hold => 0int,
        EdgeAction::Increase => 1,
        EdgeAction::Decrease => -1,
    };
    match (if control {
        mode.high
    } else {
        mode.low
    }) {
        LevelAction::Keep => step,
        LevelAction::Inverse => -step,
        LevelAction::Hold => 0,
    }
}

/// A unit counts as its mode says, at either edge and either level, whatever its filter. The
/// ready-made mode counts rising edges alone, up or down by the level.
pub proof fn law_a_unit_counts_as_its_mode_says(
    mode: ChannelMode,
    filter: Filter,
    rising: bool,
    control: bool,
)
    ensures
        added_by(conf0_word(mode, filter), rising, control) == meant_by(mode, rising, control),
        meant_by(up_down(), rising, control) == if !rising {
            0int
        } else if control {
            1
        } else {
            -1
        },
{
    law_configuration_fields(mode, filter);
}

/// A filter's width is the one asked for, 1023 cycles at most, and a filter that is off is off.
pub proof fn law_a_filter_is_as_wide_as_asked(mode: ChannelMode, cycles: u16)
    ensures
        conf0_word(mode, Filter::Cycles(cycles)) & 0x3FF == if cycles <= 1023 {
            cycles as u32
        } else {
            1023
        },
        conf0_word(mode, Filter::Cycles(cycles)) & (1u32 << 10) != 0,
        conf0_word(mode, Filter::Off) & (1u32 << 10) == 0,
{
    law_configuration_fields(mode, Filter::Cycles(cycles));
    law_configuration_fields(mode, Filter::Off);
    lemma_conf0(0, 0, 0, 0, 0, 0);
}

/// A count is the register's low half as a number of two's complement.
pub proof fn law_a_count_is_twos_complement(word: u32)
    ensures
        -0x8000 <= counted(word) < 0x8000,
        counted(word) % 0x1_0000 == word % 0x1_0000,
{
}

/// A unit comes up zeroed and held, as configured, and no other unit is touched.
pub proof fn law_a_unit_comes_up_held_at_zero(
    r: super::Registers,
    unit: u8,
    mode: ChannelMode,
    filter: Filter,
)
    requires
        unit < 8,
    ensures
        ({
            let ops = starting(unit, mode, filter);
            let end = super::after_all(r, ops);
            let ctrl = 0x3FF5_70B0u32;
            let at = (2 * unit) as u32;
            let both = (1u32 << at) | (1u32 << (at + 1) as u32);
            &&& ops[0] == (RegOp::Gate { base: 0x3FF5_7000, on: true })
            &&& (super::after_all(r, ops.take(3)).words[ctrl] >> at) % 4 == 3
            &&& (end.words[ctrl] >> at) % 4 == 2
            &&& end.words[ctrl] & !both == r.words[ctrl] & !both
            &&& end.words[(0x3FF5_7000 + 12 * unit) as u32] == conf0_word(mode, filter)
        }),
{
    let ops = starting(unit, mode, filter);
    assert(super::after_all(r, ops.take(0)) == r);
    super::lemma_after_take(r, ops, 1);
    super::lemma_after_take(r, ops, 2);
    super::lemma_after_take(r, ops, 3);
    super::lemma_after_take(r, ops, 4);
    super::lemma_after_take(r, ops, 5);
    assert(ops.take(5) =~= ops);
    lemma_unit_bits(unit as u32, 0);
}

/// Zeroing is a pulse on the unit's own bit; holding and letting go change nothing but the
/// unit's own hold.
pub proof fn law_a_unit_is_handled_alone(r: super::Registers, unit: u8)
    requires
        unit < 8,
    ensures
        ({
            let ctrl = 0x3FF5_70B0u32;
            let at = (2 * unit) as u32;
            let zero = 1u32 << at;
            let hold = 1u32 << (at + 1) as u32;
            let ops = clearing(unit);
            let high = super::after_all(r, ops.take(1)).words[ctrl];
            let low = super::after_all(r, ops).words[ctrl];
            let held = super::after(r, holding(unit, true)).words[ctrl];
            let freed = super::after(r, holding(unit, false)).words[ctrl];
            &&& (high >> at) % 2 == 1
            &&& (low >> at) % 2 == 0
            &&& low | zero == r.words[ctrl] | zero
            &&& (held >> (at + 1) as u32) % 2 == 1
            &&& held & !hold == r.words[ctrl] & !hold
            &&& (freed >> (at + 1) as u32) % 2 == 0
            &&& freed | hold == r.words[ctrl] | hold
        }),
{
    let ops = clearing(unit);
    assert(super::after_all(r, ops.take(0)) == r);
    super::lemma_after_take(r, ops, 1);
    super::lemma_after_take(r, ops, 2);
    assert(ops.take(2) =~= ops);
    lemma_unit_bits(unit as u32, 0);
}

/// The matrix inputs are the chip's: from 39 and from 71 on, four apart, the control two above.
pub proof fn law_the_inputs_are_the_chips(u: u8)
    ensures
        signal_index(0) == Some(39u32),
        signal_index(4) == Some(55u32),
        signal_index(5) == Some(71u32),
        signal_index(7) == Some(79u32),
        u < 4 || u == 5 || u == 6 ==> signal_index((u + 1) as u8)->0 == signal_index(u)->0 + 4,
        u < 8 ==> control_index(u)->0 == signal_index(u)->0 + 2,
        u >= 8 ==> signal_index(u) is None && control_index(u) is None,
{
}

} // verus!
