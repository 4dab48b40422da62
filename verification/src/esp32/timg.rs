//! TIMG0 and TIMG1: four 64-bit timers with a prescaler and an alarm.

use vstd::prelude::*;

use super::{RegOp, APB_HZ};

verus! {

pub const TIMG0_BASE: u32 = 0x3FF5_F000;
pub const TIMG1_BASE: u32 = 0x3FF6_0000;

/// Which timer group.
#[derive(Clone, Copy, Debug, PartialEq, Eq, Structural)]
pub enum Group {
    Timg0,
    Timg1,
}

/// Which timer of a group.
#[derive(Clone, Copy, Debug, PartialEq, Eq, Structural)]
pub enum Timer {
    T0,
    T1,
}

/// What happens when the alarm fires.
#[derive(Clone, Copy, Debug, PartialEq, Eq, Structural)]
pub enum Mode {
    /// The counter runs on and the alarm stays off.
    OneShot,
    /// The counter starts over.
    Periodic,
}

/// Why a timer could not be configured.
#[derive(Clone, Copy, Debug, PartialEq, Eq, Structural)]
pub enum TimerError {
    UnsupportedResolution,
    UnsupportedPeriod,
}

pub const CONFIG: u32 = 0x00;
pub const LO: u32 = 0x04;
pub const HI: u32 = 0x08;
pub const UPDATE: u32 = 0x0C;
pub const ALARMLO: u32 = 0x10;
pub const ALARMHI: u32 = 0x14;
pub const LOADLO: u32 = 0x18;
pub const LOADHI: u32 = 0x1C;
pub const LOAD: u32 = 0x20;

/// T1's registers are one set past T0's.
pub const TIMER_STRIDE: u32 = 0x24;

pub const INT_ENA: u32 = 0x98;
pub const INT_RAW: u32 = 0x9C;
pub const INT_CLR: u32 = 0xA4;

pub const CONFIG_EN: u32 = 1 << 31;
pub const CONFIG_INCREASE: u32 = 1 << 30;
pub const CONFIG_AUTORELOAD: u32 = 1 << 29;
pub const CONFIG_DIVIDER_SHIFT: u32 = 13;
pub const CONFIG_DIVIDER_MASK: u32 = 0xFFFF;
pub const CONFIG_LEVEL_INT_EN: u32 = 1 << 11;
pub const CONFIG_ALARM_EN: u32 = 1 << 10;

/// The base of a group's registers.
pub open spec fn group_base(group: Group) -> u32 {
    match group {
        Group::Timg0 => TIMG0_BASE,
        Group::Timg1 => TIMG1_BASE,
    }
}

/// The base of a timer's own registers.
pub open spec fn base_of(group: Group, timer: Timer) -> int {
    match timer {
        Timer::T0 => group_base(group) as int,
        Timer::T1 => group_base(group) + TIMER_STRIDE,
    }
}

/// A timer's bit in its group's interrupt registers.
pub open spec fn interrupt_bit(timer: Timer) -> u32 {
    match timer {
        Timer::T0 => 1,
        Timer::T1 => 2,
    }
}

pub(crate) fn group_addr(group: Group) -> (addr: u32)
    ensures
        addr == group_base(group),
{
    match group {
        Group::Timg0 => TIMG0_BASE,
        Group::Timg1 => TIMG1_BASE,
    }
}

fn timer_bit(timer: Timer) -> (bit: u32)
    ensures
        bit == interrupt_bit(timer),
{
    match timer {
        Timer::T0 => 1,
        Timer::T1 => 2,
    }
}

/// The base of a timer's own registers.
pub fn timer_base(group: Group, timer: Timer) -> (addr: u32)
    ensures
        addr == base_of(group, timer),
{
    match timer {
        Timer::T0 => group_addr(group),
        Timer::T1 => group_addr(group) + TIMER_STRIDE,
    }
}

/// The prescaler for a counter frequency, where there is an exact one: the
/// hardware divides by 2 to 65536.
pub open spec fn prescaler(resolution_hz: u32) -> Option<u32> {
    if resolution_hz != 0 && APB_HZ % resolution_hz == 0 && 2 <= APB_HZ / resolution_hz <= 65536 {
        Some(APB_HZ / resolution_hz)
    } else {
        None
    }
}

/// The prescaler for a counter frequency.
pub fn divider_for(resolution_hz: u32) -> (r: Result<u32, TimerError>)
    ensures
        r == match prescaler(resolution_hz) {
            Some(div) => Ok::<u32, TimerError>(div),
            None => Err::<u32, TimerError>(TimerError::UnsupportedResolution),
        },
{
    if resolution_hz == 0 {
        return Err(TimerError::UnsupportedResolution);
    }
    let div: u32 = APB_HZ / resolution_hz;
    proof {
        let a = APB_HZ as int;
        let h = resolution_hz as int;
        assert(a == h * (a / h) + a % h && 0 <= a % h < h && a / h * h == h * (a / h))
            by (nonlinear_arith)
            requires
                a >= 0,
                h > 0,
        ;
    }
    if div * resolution_hz != APB_HZ {
        return Err(TimerError::UnsupportedResolution);
    }
    if div < 2 || div > 65536 {
        return Err(TimerError::UnsupportedResolution);
    }
    Ok(div)
}

/// The config word: counting up, the divider in its field with 65536 written as
/// zero, and the bits that reloading and an alarm need.
pub open spec fn config_word(divider: u32, autoreload: bool, alarm: bool) -> u32 {
    let field = if divider == 65536 { 0u32 } else { divider };
    let counting = CONFIG_INCREASE | ((field & CONFIG_DIVIDER_MASK) << CONFIG_DIVIDER_SHIFT);
    let reloading = if autoreload { counting | CONFIG_AUTORELOAD } else { counting };
    if alarm {
        reloading | (CONFIG_ALARM_EN | CONFIG_LEVEL_INT_EN)
    } else {
        reloading
    }
}

/// Encodes the config word.
pub fn encode_config(divider: u32, autoreload: bool, alarm: bool) -> (cfg: u32)
    ensures
        cfg == config_word(divider, autoreload, alarm),
{
    let field: u32 = if divider == 65536 { 0 } else { divider };
    let mut cfg: u32 = CONFIG_INCREASE | ((field & CONFIG_DIVIDER_MASK) << CONFIG_DIVIDER_SHIFT);
    if autoreload {
        cfg = cfg | CONFIG_AUTORELOAD;
    }
    if alarm {
        cfg = cfg | (CONFIG_ALARM_EN | CONFIG_LEVEL_INT_EN);
    }
    cfg
}

/// One timer.
#[derive(Clone, Copy, Debug, PartialEq, Eq, Structural)]
pub struct Timg {
    pub base: u32,
    pub int_bit: u32,
    pub group: u32,
    pub divider: u32,
}

/// The halves of a 64-bit value.
pub open spec fn low_word(v: u64) -> u32 {
    (v % 0x1_0000_0000) as u32
}

pub open spec fn high_word(v: u64) -> u32 {
    (v / 0x1_0000_0000) as u32
}

fn low(v: u64) -> (w: u32)
    ensures
        w == low_word(v),
{
    (v % 0x1_0000_0000) as u32
}

fn high(v: u64) -> (w: u32)
    ensures
        w == high_word(v),
{
    (v / 0x1_0000_0000) as u32
}

/// A 64-bit value from its halves.
pub fn joined(hi: u32, lo: u32) -> (v: u64)
    ensures
        v == hi * 0x1_0000_0000 + lo,
{
    hi as u64 * 0x1_0000_0000 + lo as u64
}

impl Timg {
    /// The registers lie where a timer's do.
    pub open spec fn wf(&self) -> bool {
        exists|group: Group, timer: Timer| self.is(group, timer)
    }

    /// This is the timer of `group` and `timer`.
    pub open spec fn is(&self, group: Group, timer: Timer) -> bool {
        &&& self.base == base_of(group, timer)
        &&& self.group == group_base(group)
        &&& self.int_bit == interrupt_bit(timer)
    }

    /// The install of a value into the counter.
    pub open spec fn loading(&self, value: u64) -> Seq<RegOp> {
        seq![
            RegOp::Write { addr: (self.base + LOADLO) as u32, value: low_word(value) },
            RegOp::Write { addr: (self.base + LOADHI) as u32, value: high_word(value) },
            RegOp::Write { addr: (self.base + LOAD) as u32, value: 1 },
        ]
    }

    /// The halt of the counter.
    pub open spec fn stopping(&self) -> RegOp {
        RegOp::Update { addr: (self.base + CONFIG) as u32, clear: CONFIG_EN, set: 0 }
    }

    /// Counting up from zero.
    pub open spec fn running(&self) -> Seq<RegOp> {
        self.loading(0).push(
            RegOp::Write {
                addr: (self.base + CONFIG) as u32,
                value: config_word(self.divider, false, false) | CONFIG_EN,
            },
        )
    }

    /// Counting up from zero to an alarm.
    pub open spec fn alarming(&self, period: u64, mode: Mode) -> Seq<RegOp> {
        seq![self.stopping()] + self.loading(0) + seq![
            RegOp::Write { addr: (self.base + ALARMLO) as u32, value: low_word(period) },
            RegOp::Write { addr: (self.base + ALARMHI) as u32, value: high_word(period) },
            RegOp::Write { addr: (self.base + LOADLO) as u32, value: 0 },
            RegOp::Write { addr: (self.base + LOADHI) as u32, value: 0 },
            RegOp::Update { addr: (self.group + INT_ENA) as u32, clear: 0, set: self.int_bit },
            RegOp::Write {
                addr: (self.base + CONFIG) as u32,
                value: config_word(self.divider, mode is Periodic, true) | CONFIG_EN,
            },
        ]
    }

    /// Takes a timer and sets its resolution: the timer stopped, its alarm
    /// acknowledged.
    pub fn new(group: Group, timer: Timer, resolution_hz: u32) -> (r: Result<
        (Self, Vec<RegOp>),
        TimerError,
    >)
        ensures
            match prescaler(resolution_hz) {
                None => r matches Err(e) && e is UnsupportedResolution,
                Some(div) => {
                    &&& r matches Ok((t, ops))
                    &&& t.is(group, timer)
                    &&& t.wf()
                    &&& t.divider == div
                    &&& ops@ == seq![
                        RegOp::Write {
                            addr: (t.base + CONFIG) as u32,
                            value: config_word(div, false, false),
                        },
                        t.stopping(),
                        RegOp::Write {
                            addr: (t.group + INT_CLR) as u32,
                            value: interrupt_bit(timer),
                        },
                    ]
                },
            },
    {
        let divider: u32 = match divider_for(resolution_hz) {
            Ok(divider) => divider,
            Err(e) => return Err(e),
        };
        let t = Timg {
            base: timer_base(group, timer),
            int_bit: timer_bit(timer),
            group: group_addr(group),
            divider,
        };
        assert(t.is(group, timer));
        let ops: Vec<RegOp> = vec![
            RegOp::Write { addr: t.base + CONFIG, value: encode_config(divider, false, false) },
            RegOp::Update { addr: t.base + CONFIG, clear: CONFIG_EN, set: 0 },
            RegOp::Write { addr: t.group + INT_CLR, value: t.int_bit },
        ];
        assert(ops@ =~= seq![
            RegOp::Write {
                addr: (t.base + CONFIG) as u32,
                value: config_word(divider, false, false),
            },
            t.stopping(),
            RegOp::Write { addr: (t.group + INT_CLR) as u32, value: interrupt_bit(timer) },
        ]);
        Ok((t, ops))
    }

    /// The access that latches the counter; reading it otherwise gives what the
    /// last latch left. The halves are then at [`LO`] and [`HI`].
    pub fn now(&self) -> (op: RegOp)
        requires
            self.wf(),
        ensures
            op == (RegOp::Write { addr: (self.base + UPDATE) as u32, value: 1 }),
    {
        RegOp::Write { addr: self.base + UPDATE, value: 1 }
    }

    /// Counts up from zero without an alarm.
    pub fn start_free_running(&self) -> (ops: Vec<RegOp>)
        requires
            self.wf(),
        ensures
            ops@ == self.running(),
    {
        let mut ops: Vec<RegOp> = self.load(0);
        ops.push(
            RegOp::Write {
                addr: self.base + CONFIG,
                value: encode_config(self.divider, false, false) | CONFIG_EN,
            },
        );
        ops
    }

    /// Counts up from zero and fires after `period` counts, which may not be zero.
    pub fn start_alarm(&self, period: u64, mode: Mode) -> (r: Result<Vec<RegOp>, TimerError>)
        requires
            self.wf(),
        ensures
            r is Err <==> period == 0,
            r matches Err(e) ==> e is UnsupportedPeriod,
            r matches Ok(ops) ==> ops@ == self.alarming(period, mode),
    {
        if period == 0 {
            return Err(TimerError::UnsupportedPeriod);
        }
        let mut ops: Vec<RegOp> = vec![self.stop()];
        let mut load: Vec<RegOp> = self.load(0);
        ops.append(&mut load);
        ops.push(RegOp::Write { addr: self.base + ALARMLO, value: low(period) });
        ops.push(RegOp::Write { addr: self.base + ALARMHI, value: high(period) });
        ops.push(RegOp::Write { addr: self.base + LOADLO, value: 0 });
        ops.push(RegOp::Write { addr: self.base + LOADHI, value: 0 });
        ops.push(self.enable_interrupt());
        let autoreload: bool = matches!(mode, Mode::Periodic);
        ops.push(
            RegOp::Write {
                addr: self.base + CONFIG,
                value: encode_config(self.divider, autoreload, true) | CONFIG_EN,
            },
        );
        assert(ops@ =~= self.alarming(period, mode));
        Ok(ops)
    }

    /// Arms the alarm again: firing clears its enable bit in every mode.
    pub fn rearm(&self) -> (op: RegOp)
        requires
            self.wf(),
        ensures
            op == (RegOp::Update {
                addr: (self.base + CONFIG) as u32,
                clear: 0,
                set: CONFIG_ALARM_EN,
            }),
    {
        RegOp::Update { addr: self.base + CONFIG, clear: 0, set: CONFIG_ALARM_EN }
    }

    /// Installs `value` into the counter.
    pub fn load(&self, value: u64) -> (ops: Vec<RegOp>)
        requires
            self.wf(),
        ensures
            ops@ == self.loading(value),
    {
        let ops: Vec<RegOp> = vec![
            RegOp::Write { addr: self.base + LOADLO, value: low(value) },
            RegOp::Write { addr: self.base + LOADHI, value: high(value) },
            RegOp::Write { addr: self.base + LOAD, value: 1 },
        ];
        assert(ops@ =~= self.loading(value));
        ops
    }

    /// Halts the counter, which keeps its value.
    pub fn stop(&self) -> (op: RegOp)
        requires
            self.wf(),
        ensures
            op == self.stopping(),
    {
        RegOp::Update { addr: self.base + CONFIG, clear: CONFIG_EN, set: 0 }
    }

    /// Lets the timer raise its group's interrupt.
    pub fn enable_interrupt(&self) -> (op: RegOp)
        requires
            self.wf(),
        ensures
            op == (RegOp::Update {
                addr: (self.group + INT_ENA) as u32,
                clear: 0,
                set: self.int_bit,
            }),
    {
        RegOp::Update { addr: self.group + INT_ENA, clear: 0, set: self.int_bit }
    }

    /// Whether the alarm has fired, by the group's raw interrupt register.
    pub fn fired(&self, int_raw: u32) -> (b: bool)
        ensures
            b == (int_raw & self.int_bit != 0),
    {
        int_raw & self.int_bit != 0
    }

    /// Acknowledges the alarm.
    pub fn clear_interrupt(&self) -> (op: RegOp)
        requires
            self.wf(),
        ensures
            op == (RegOp::Write { addr: (self.group + INT_CLR) as u32, value: self.int_bit }),
    {
        RegOp::Write { addr: self.group + INT_CLR, value: self.int_bit }
    }

    /// The prescaler in force.
    pub fn divider(&self) -> (d: u32)
        ensures
            d == self.divider,
    {
        self.divider
    }
}

/// Acknowledges a timer's alarm without a [`Timg`].
pub fn clear_interrupt(group: Group, timer: Timer) -> (op: RegOp)
    ensures
        op == (RegOp::Write {
            addr: (group_base(group) + INT_CLR) as u32,
            value: interrupt_bit(timer),
        }),
{
    RegOp::Write { addr: group_addr(group) + INT_CLR, value: timer_bit(timer) }
}

/// Arms a timer's alarm again without a [`Timg`].
pub fn rearm(group: Group, timer: Timer) -> (op: RegOp)
    ensures
        op == (RegOp::Update {
            addr: (base_of(group, timer) + CONFIG) as u32,
            clear: 0,
            set: CONFIG_ALARM_EN,
        }),
{
    RegOp::Update { addr: timer_base(group, timer) + CONFIG, clear: 0, set: CONFIG_ALARM_EN }
}

proof fn lemma_config_fields(divider: u32)
    by (bit_vector)
    ensures
        ({
            let field = if divider == 65536 { 0u32 } else { divider };
            let c = (1u32 << 30) | ((field & 0xFFFF) << 13u32);
            let r = c | (1u32 << 29);
            let a = c | ((1u32 << 10) | (1u32 << 11));
            let ra = r | ((1u32 << 10) | (1u32 << 11));
            &&& (c >> 13u32) & 0xFFFF == field & 0xFFFF
            &&& (r >> 13u32) & 0xFFFF == field & 0xFFFF
            &&& (a >> 13u32) & 0xFFFF == field & 0xFFFF
            &&& (ra >> 13u32) & 0xFFFF == field & 0xFFFF
            &&& c & (1u32 << 31) == 0 && r & (1u32 << 31) == 0
            &&& a & (1u32 << 31) == 0 && ra & (1u32 << 31) == 0
            &&& c & (1u32 << 29) == 0 && a & (1u32 << 29) == 0
            &&& r & (1u32 << 29) != 0 && ra & (1u32 << 29) != 0
            &&& c & (1u32 << 10) == 0 && r & (1u32 << 10) == 0
            &&& a & (1u32 << 10) != 0 && ra & (1u32 << 10) != 0
            &&& c & (1u32 << 11) == 0 && r & (1u32 << 11) == 0
            &&& a & (1u32 << 11) != 0 && ra & (1u32 << 11) != 0
            &&& c & (1u32 << 30) != 0 && r & (1u32 << 30) != 0
            &&& a & (1u32 << 30) != 0 && ra & (1u32 << 30) != 0
            &&& (c | (1u32 << 31)) & 0x7FFF_FFFF == c && (c | (1u32 << 31)) >> 31 == 1
            &&& (a | (1u32 << 31)) & 0x7FFF_FFFF == a && (a | (1u32 << 31)) >> 31 == 1
            &&& (ra | (1u32 << 31)) & 0x7FFF_FFFF == ra && (ra | (1u32 << 31)) >> 31 == 1
        }),
        forall|w: u32| #![trigger w & !(1u32 << 31u32)]
            (w & !(1u32 << 31)) | 0 == w & 0x7FFF_FFFF && ((w & !(1u32 << 31)) | 0) >> 31 == 0,
{
}

/// A config word's fields: the divider reads back, with 65536 as zero; the word
/// alone starts nothing; reloading and alarming set their bits and no others'.
pub proof fn law_config_fields(divider: u32, autoreload: bool, alarm: bool)
    ensures
        ({
            let cfg = config_word(divider, autoreload, alarm);
            let field = if divider == 65536 { 0u32 } else { divider };
            &&& (cfg >> 13u32) & 0xFFFF == field & 0xFFFF
            &&& cfg & CONFIG_EN == 0
            &&& cfg & CONFIG_INCREASE != 0
            &&& (cfg & CONFIG_AUTORELOAD != 0) == autoreload
            &&& (cfg & CONFIG_ALARM_EN != 0) == alarm
            &&& (cfg & CONFIG_LEVEL_INT_EN != 0) == alarm
        }),
{
    lemma_config_fields(divider);
}

/// An accepted resolution is met exactly.
pub proof fn law_resolution_is_exact(resolution_hz: u32)
    requires
        prescaler(resolution_hz) is Some,
    ensures
        prescaler(resolution_hz)->0 * resolution_hz == APB_HZ,
{
    let a = APB_HZ as int;
    let h = resolution_hz as int;
    assert(a / h * h == a) by (nonlinear_arith)
        requires
            h > 0,
            a % h == 0,
    ;
}

/// A resolution is accepted where a prescaler that there is meets it exactly, and nowhere
/// else.
pub proof fn law_every_exact_resolution_is_accepted(resolution_hz: u32, divider: int)
    requires
        2 <= divider <= 65536,
    ensures
        divider * resolution_hz == 80_000_000 ==> prescaler(resolution_hz) == Some(
            divider as u32,
        ),
        prescaler(resolution_hz) matches Some(d) ==> 2 <= d <= 65536 && d * resolution_hz
            == 80_000_000,
{
    if divider * resolution_hz == 80_000_000 {
        let h = resolution_hz as int;
        assert(h > 0) by (nonlinear_arith)
            requires
                divider * h == 80_000_000,
                h >= 0,
        ;
        assert(80_000_000int % h == 0 && 80_000_000int / h == divider) by (nonlinear_arith)
            requires
                divider * h == 80_000_000,
                h > 0,
        ;
    }
    if prescaler(resolution_hz) is Some {
        law_resolution_is_exact(resolution_hz);
    }
}

/// The timers are where the chip has them, and each has its own interrupt bit.
pub proof fn law_the_timers_are_the_chips()
    ensures
        base_of(Group::Timg0, Timer::T0) == 0x3FF5_F000,
        base_of(Group::Timg0, Timer::T1) == 0x3FF5_F024,
        base_of(Group::Timg1, Timer::T0) == 0x3FF6_0000,
        base_of(Group::Timg1, Timer::T1) == 0x3FF6_0024,
        interrupt_bit(Timer::T0) == 1,
        interrupt_bit(Timer::T1) == 2,
{
}

/// When a value is installed, both its halves lie ready, and only then.
pub proof fn law_a_load_installs_the_whole_value(t: Timg, r: super::Registers, value: u64)
    requires
        t.wf(),
    ensures
        ({
            let ops = t.loading(value);
            let ready = super::after_all(r, ops.take(2));
            &&& ops.len() == 3
            &&& ops[2] == (RegOp::Write { addr: (t.base + 0x20) as u32, value: 1 })
            &&& ready.words[(t.base + 0x18) as u32] + 0x1_0000_0000 * ready.words[(t.base
                + 0x1C) as u32] == value
        }),
{
    let ops = t.loading(value);
    assert(super::after_all(r, ops.take(0)) == r);
    super::lemma_after_take(r, ops, 1);
    super::lemma_after_take(r, ops, 2);
}

/// A timer that was let go counts from zero, up and without an alarm, by the prescaler
/// that it was given.
pub proof fn law_a_timer_runs_free(t: Timg, r: super::Registers)
    requires
        t.wf(),
    ensures
        ({
            let ops = t.running();
            let end = super::after_all(r, ops);
            &&& ops.take(3) == t.loading(0)
            &&& end.words[t.base] >> 31 == 1
            &&& end.words[t.base] & 0x7FFF_FFFF == config_word(t.divider, false, false)
        }),
{
    let ops = t.running();
    super::lemma_after_take(r, ops, 4);
    assert(ops.take(4) =~= ops);
    assert(ops.take(3) =~= t.loading(0));
    lemma_config_fields(t.divider);
}

/// A timer with an alarm is halted while it is set up: it counts from zero, the alarm is the
/// period, a reload begins at zero, its interrupt is let through, and only the last access
/// starts it, reloading where it is to be periodic.
pub proof fn law_an_alarm_comes_after_its_period(t: Timg, r: super::Registers, p: u64, mode: Mode)
    requires
        t.wf(),
    ensures
        ({
            let ops = t.alarming(p, mode);
            let ready = super::after_all(r, ops.drop_last());
            let end = super::after_all(r, ops);
            &&& ops.subrange(1, 4) == t.loading(0)
            &&& ready.words[t.base] >> 31 == 0
            &&& ready.words[(t.base + 0x10) as u32] + 0x1_0000_0000 * ready.words[(t.base
                + 0x14) as u32] == p
            &&& ready.words[(t.base + 0x18) as u32] == 0
            &&& ready.words[(t.base + 0x1C) as u32] == 0
            &&& ready.words[(t.group + 0x98) as u32] == r.words[(t.group + 0x98) as u32] & !0u32
                | t.int_bit
            &&& end.words == ready.words.insert(t.base, end.words[t.base])
            &&& end.words[t.base] >> 31 == 1
            &&& end.words[t.base] & 0x7FFF_FFFF == config_word(t.divider, mode is Periodic, true)
        }),
{
    let ops = t.alarming(p, mode);
    assert(ops.subrange(1, 4) =~= t.loading(0));
    assert(super::after_all(r, ops.take(0)) == r);
    super::lemma_after_take(r, ops, 1);
    super::lemma_after_take(r, ops, 2);
    super::lemma_after_take(r, ops, 3);
    super::lemma_after_take(r, ops, 4);
    super::lemma_after_take(r, ops, 5);
    super::lemma_after_take(r, ops, 6);
    super::lemma_after_take(r, ops, 7);
    super::lemma_after_take(r, ops, 8);
    super::lemma_after_take(r, ops, 9);
    super::lemma_after_take(r, ops, 10);
    assert(ops.take(10) =~= ops);
    assert(ops.drop_last() =~= ops.take(9));
    lemma_config_fields(t.divider);
}

/// Halting clears the bit that lets the timer count and no other.
pub proof fn law_a_halt_is_nothing_but_a_halt(t: Timg, r: super::Registers)
    requires
        t.wf(),
    ensures
        ({
            let end = super::after(r, t.stopping());
            end.words == r.words.insert(t.base, r.words[t.base] & 0x7FFF_FFFF)
        }),
{
    lemma_config_fields(0);
}

} // verus!
