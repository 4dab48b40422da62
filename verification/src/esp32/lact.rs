//! The LAC timer of a timer group: a 64-bit counter with an alarm, at two ticks
//! per microsecond.

use vstd::prelude::*;

use super::timg::{group_addr, Group};
use super::RegOp;

verus! {

pub const TICKS_PER_US: u64 = 2;

pub const LACTCONFIG: u32 = 0x0070;
pub const LACTLO: u32 = 0x0078;
pub const LACTHI: u32 = 0x007C;
pub const LACTUPDATE: u32 = 0x0080;
pub const LACTALARMLO: u32 = 0x0084;
pub const LACTALARMHI: u32 = 0x0088;
pub const LACTLOADLO: u32 = 0x008C;
pub const LACTLOADHI: u32 = 0x0090;
pub const LACTLOAD: u32 = 0x0094;
pub const INT_ENA_TIMERS: u32 = 0x0098;
pub const INT_ST_TIMERS: u32 = 0x00A0;
pub const INT_CLR_TIMERS: u32 = 0x00A4;

pub const LACT_EN: u32 = 1 << 31;
pub const LACT_INCREASE: u32 = 1 << 30;
pub const LACT_LEVEL_INT_EN: u32 = 1 << 11;
pub const LACT_ALARM_EN: u32 = 1 << 10;
pub const LACT_LAC_EN: u32 = 1 << 9;
pub const LACT_DIVIDER_MASK: u32 = 0x0000_FFFF;
pub const LACT_DIVIDER_SHIFT: u32 = 13;

/// The timer's bit in the group's interrupt registers.
pub const LACT_INT: u32 = 1 << 3;

/// The interrupt sources of the two groups' timers.
pub const TG0_LACT_INTR_SOURCE: u8 = 17;
pub const TG1_LACT_INTR_SOURCE: u8 = 18;

/// How often setting an alarm is tried.
pub const ATTEMPTS: u32 = 8;
/// How far ahead of the counter an alarm is pushed, past what it was behind.
pub const MARGIN_TICKS: u64 = 2;

/// One group's LAC timer.
#[derive(Clone, Copy, Debug, PartialEq, Eq, Structural)]
pub struct Lact {
    pub base: u32,
}

/// The divider for an APB clock in MHz, where it gives whole ticks and fits its
/// field.
pub open spec fn lact_divider(apb_mhz: u32) -> Option<u32> {
    if apb_mhz != 0 && apb_mhz % 2 == 0 && apb_mhz / 2 <= LACT_DIVIDER_MASK {
        Some(apb_mhz / 2)
    } else {
        None
    }
}

/// What to do about an alarm that was just written.
#[derive(Clone, Copy, Debug, PartialEq, Eq, Structural)]
pub enum Alarm {
    /// It lies ahead or has fired.
    Armed,
    /// It was passed unseen; this is the next target.
    Retry(u64),
    /// It was passed unseen once too often; it stays as written.
    Abandoned,
}

/// The accesses that start the timer from zero.
pub open spec fn starting(base: u32, divider: u32) -> Seq<RegOp> {
    seq![
        RegOp::Write {
            addr: (base + LACTCONFIG) as u32,
            value: LACT_EN | LACT_INCREASE | LACT_LAC_EN | LACT_LEVEL_INT_EN | (
            divider << LACT_DIVIDER_SHIFT),
        },
        RegOp::Write { addr: (base + LACTLOADLO) as u32, value: 0 },
        RegOp::Write { addr: (base + LACTLOADHI) as u32, value: 0 },
        RegOp::Write { addr: (base + LACTLOAD) as u32, value: 1 },
        RegOp::Write { addr: (base + INT_CLR_TIMERS) as u32, value: LACT_INT },
    ]
}

/// The accesses that set an alarm.
pub open spec fn alarming(base: u32, ticks: u64) -> Seq<RegOp> {
    seq![
        RegOp::Load { addr: (base + LACTCONFIG) as u32 },
        RegOp::Store { addr: (base + LACTCONFIG) as u32, clear: LACT_ALARM_EN, set: 0 },
        RegOp::Write {
            addr: (base + LACTALARMLO) as u32,
            value: super::timg::low_word(ticks),
        },
        RegOp::Write {
            addr: (base + LACTALARMHI) as u32,
            value: super::timg::high_word(ticks),
        },
        RegOp::Store { addr: (base + LACTCONFIG) as u32, clear: 0, set: LACT_ALARM_EN },
    ]
}

/// The access that stops the alarm.
pub open spec fn disarming(base: u32) -> RegOp {
    RegOp::Update { addr: (base + LACTCONFIG) as u32, clear: LACT_ALARM_EN, set: 0 }
}

/// What to do about the alarm of an attempt.
pub open spec fn judged(attempt: u32, target: u64, now: u64, fired: bool) -> Alarm {
    if target > now || fired {
        Alarm::Armed
    } else if attempt + 1 < ATTEMPTS {
        Alarm::Retry((now + (now - target) + MARGIN_TICKS) as u64)
    } else {
        Alarm::Abandoned
    }
}

impl Lact {
    /// The registers lie where a group's do.
    pub open spec fn wf(&self) -> bool {
        self.base == super::timg::TIMG0_BASE || self.base == super::timg::TIMG1_BASE
    }

    /// Takes the timer and starts it from zero, counting up, with a level interrupt
    /// and no alarm; `None` where the clock does not divide into whole ticks.
    pub fn new(group: Group, apb_mhz: u32) -> (r: Option<(Self, Vec<RegOp>)>)
        ensures
            r is Some == lact_divider(apb_mhz) is Some,
            r matches Some((lact, ops)) ==> {
                let base = super::timg::group_base(group);
                &&& lact.base == base
                &&& lact.wf()
                &&& ops@ == starting(base, lact_divider(apb_mhz)->0)
            },
    {
        if apb_mhz == 0 || apb_mhz as u64 % TICKS_PER_US != 0 {
            return None;
        }
        let divider: u32 = (apb_mhz as u64 / TICKS_PER_US) as u32;
        if divider == 0 || divider > LACT_DIVIDER_MASK {
            return None;
        }
        let lact = Lact { base: group_addr(group) };
        let ops: Vec<RegOp> = vec![
            RegOp::Write {
                addr: lact.base + LACTCONFIG,
                value: LACT_EN | LACT_INCREASE | LACT_LAC_EN | LACT_LEVEL_INT_EN | (divider
                    << LACT_DIVIDER_SHIFT),
            },
            RegOp::Write { addr: lact.base + LACTLOADLO, value: 0 },
            RegOp::Write { addr: lact.base + LACTLOADHI, value: 0 },
            RegOp::Write { addr: lact.base + LACTLOAD, value: 1 },
            lact.clear_interrupt(),
        ];
        let ghost base = super::timg::group_base(group);
        assert(ops@ =~= starting(base, lact_divider(apb_mhz)->0));
        Some((lact, ops))
    }

    /// The access that latches the counter; its halves are then at [`LACTLO`] and
    /// [`LACTHI`].
    pub fn now_ticks(&self) -> (op: RegOp)
        requires
            self.wf(),
        ensures
            op == (RegOp::Write { addr: (self.base + LACTUPDATE) as u32, value: 1 }),
    {
        RegOp::Write { addr: self.base + LACTUPDATE, value: 1 }
    }

    /// Writes an alarm with the compare switched off meanwhile.
    pub fn set_alarm(&self, ticks: u64) -> (ops: Vec<RegOp>)
        requires
            self.wf(),
        ensures
            ops@ == alarming(self.base, ticks),
    {
        let config: u32 = self.base + LACTCONFIG;
        let ops: Vec<RegOp> = vec![
            RegOp::Load { addr: config },
            RegOp::Store { addr: config, clear: LACT_ALARM_EN, set: 0 },
            RegOp::Write {
                addr: self.base + LACTALARMLO,
                value: (ticks % 0x1_0000_0000) as u32,
            },
            RegOp::Write {
                addr: self.base + LACTALARMHI,
                value: (ticks / 0x1_0000_0000) as u32,
            },
            RegOp::Store { addr: config, clear: 0, set: LACT_ALARM_EN },
        ];
        assert(ops@ =~= alarming(self.base, ticks));
        ops
    }

    /// Judges the alarm of an attempt, counted from zero, after it was written: done
    /// where it lies ahead of the counter or has fired, else pushed past the counter
    /// by as far as it was behind and a margin of two ticks, for as long as
    /// attempts are left.
    pub fn check_alarm(&self, attempt: u32, target: u64, now: u64, fired: bool) -> (a: Alarm)
        requires
            target > now || fired || now + (now - target) + MARGIN_TICKS <= u64::MAX,
        ensures
            a == judged(attempt, target, now, fired),
    {
        if target > now || fired {
            return Alarm::Armed;
        }
        if attempt >= ATTEMPTS - 1 {
            return Alarm::Abandoned;
        }
        Alarm::Retry(now + (now - target) + MARGIN_TICKS)
    }

    /// Stops the alarm; the counter runs on.
    pub fn clear_alarm(&self) -> (op: RegOp)
        requires
            self.wf(),
        ensures
            op == disarming(self.base),
    {
        RegOp::Update { addr: self.base + LACTCONFIG, clear: LACT_ALARM_EN, set: 0 }
    }

    /// Whether the alarm interrupt is asserted, by the group's status register.
    pub fn fired(&self, int_st: u32) -> (b: bool)
        ensures
            b == (int_st & LACT_INT != 0),
    {
        int_st & LACT_INT != 0
    }

    /// Acknowledges the alarm interrupt.
    pub fn clear_interrupt(&self) -> (op: RegOp)
        requires
            self.wf(),
        ensures
            op == (RegOp::Write { addr: (self.base + INT_CLR_TIMERS) as u32, value: LACT_INT }),
    {
        RegOp::Write { addr: self.base + INT_CLR_TIMERS, value: LACT_INT }
    }

    /// Lets the alarm reach the interrupt crossbar.
    pub fn enable_interrupt(&self) -> (op: RegOp)
        requires
            self.wf(),
        ensures
            op == (RegOp::Update {
                addr: (self.base + INT_ENA_TIMERS) as u32,
                clear: 0,
                set: LACT_INT,
            }),
    {
        RegOp::Update { addr: self.base + INT_ENA_TIMERS, clear: 0, set: LACT_INT }
    }
}

/// An alarm that was passed unseen is moved ahead of the counter that passed it, by one tick
/// more than it was late and another, seven times at most; one that lies ahead or has fired
/// is left.
pub proof fn law_a_retry_lies_ahead(attempt: u32, target: u64, now: u64, fired: bool)
    requires
        target > now || fired || now + (now - target) + 2 <= u64::MAX,
    ensures
        match judged(attempt, target, now, fired) {
            Alarm::Armed => target > now || fired,
            Alarm::Retry(next) => target <= now && !fired && attempt < 7 && next - now == now
                - target + 2,
            Alarm::Abandoned => target <= now && !fired && attempt >= 7,
        },
{
}

proof fn lemma_config(divider: u32)
    by (bit_vector)
    requires
        divider <= 0xFFFF,
    ensures
        ({
            let c = (1u32 << 31) | (1u32 << 30) | (1u32 << 9) | (1u32 << 11) | (divider << 13);
            &&& c >> 31 == 1
            &&& (c >> 30) & 1 == 1
            &&& (c >> 13) & 0xFFFF == divider
            &&& (c >> 29) & 1 == 0
            &&& (c >> 11) & 1 == 1
            &&& (c >> 10) & 1 == 0
            &&& (c >> 9) & 1 == 1
            &&& c & 0x1FF == 0
        }),
        1u32 << 3 == 8,
        forall|w: u32| #![trigger w & !(1u32 << 10u32)] (w & !(1u32 << 10)) | 0 == w & 0xFFFF_FBFF,
        forall|w: u32| #![trigger w & !0u32] (w & !0u32) | (1u32 << 10) == w | 0x400,
{
}

/// The timer takes two ticks a microsecond exactly, counts up, has a level interrupt and no
/// alarm. It is started at zero, and an interrupt left over is acknowledged.
pub proof fn law_the_timer_starts_at_zero(r: super::Registers, base: u32, apb_mhz: u32)
    requires
        lact_divider(apb_mhz) is Some,
        base + 0xA4 <= u32::MAX,
    ensures
        ({
            let d = lact_divider(apb_mhz)->0;
            let ops = starting(base, d);
            let end = super::after_all(r, ops);
            let config = end.words[(base + 0x70) as u32];
            let ready = super::after_all(r, ops.take(3));
            &&& d * 2 == apb_mhz
            &&& config >> 31 == 1
            &&& (config >> 30) & 1 == 1
            &&& (config >> 29) & 1 == 0
            &&& (config >> 13) & 0xFFFF == d
            &&& (config >> 11) & 1 == 1
            &&& (config >> 10) & 1 == 0
            &&& (config >> 9) & 1 == 1
            &&& ready.words[(base + 0x8C) as u32] == 0
            &&& ready.words[(base + 0x90) as u32] == 0
            &&& ops[3] == (RegOp::Write { addr: (base + 0x94) as u32, value: 1 })
            &&& ops[4] == (RegOp::Write { addr: (base + 0xA4) as u32, value: 8 })
            &&& ops.len() == 5
        }),
{
    let d = lact_divider(apb_mhz)->0;
    let ops = starting(base, d);
    lemma_config(d);
    assert(super::after_all(r, ops.take(0)) == r);
    super::lemma_after_take(r, ops, 1);
    super::lemma_after_take(r, ops, 2);
    super::lemma_after_take(r, ops, 3);
    super::lemma_after_take(r, ops, 4);
    super::lemma_after_take(r, ops, 5);
    assert(ops.take(5) =~= ops);
}

/// Every whole number of ticks that the field can divide by is accepted.
pub proof fn law_every_even_clock_is_accepted(apb_mhz: u32)
    ensures
        lact_divider(apb_mhz) is Some == (apb_mhz % 2 == 0 && 2 <= apb_mhz <= 2 * 0xFFFF),
{
}

/// An alarm is set whole: the compare is off while its halves are written, and on in the end,
/// with the rest of the configuration as it was.
pub proof fn law_an_alarm_is_set_whole(r: super::Registers, base: u32, ticks: u64)
    requires
        base + 0xA4 <= u32::MAX,
    ensures
        ({
            let ops = alarming(base, ticks);
            let config = (base + 0x70) as u32;
            let end = super::after_all(r, ops);
            &&& ops.len() == 5
            &&& forall|k: int|
                2 <= k < 5 ==> #[trigger] super::after_all(r, ops.take(k)).words[config]
                    == r.words[config] & 0xFFFF_FBFF
            &&& super::after_all(r, ops.take(2)).words[(base + 0x84) as u32] == r.words[(base
                + 0x84) as u32]
            &&& super::after_all(r, ops.take(2)).words[(base + 0x88) as u32] == r.words[(base
                + 0x88) as u32]
            &&& end.words[config] == r.words[config] | 0x400
            &&& end.words[(base + 0x84) as u32] + 0x1_0000_0000 * end.words[(base + 0x88) as u32]
                == ticks
        }),
{
    let ops = alarming(base, ticks);
    lemma_config(0);
    assert(super::after_all(r, ops.take(0)) == r);
    super::lemma_after_take(r, ops, 1);
    super::lemma_after_take(r, ops, 2);
    super::lemma_after_take(r, ops, 3);
    super::lemma_after_take(r, ops, 4);
    super::lemma_after_take(r, ops, 5);
    assert(ops.take(5) =~= ops);
}

/// Stopping the alarm leaves the rest of the configuration.
pub proof fn law_a_stopped_alarm_leaves_the_timer_running(r: super::Registers, base: u32)
    requires
        base + 0xA4 <= u32::MAX,
    ensures
        super::after(r, disarming(base)).words[(base + 0x70) as u32] == r.words[(base
            + 0x70) as u32] & 0xFFFF_FBFF,
{
    lemma_config(0);
}

} // verus!
