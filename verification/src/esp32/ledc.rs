//! PWM: four timers that set the period, and eight channels that set the duty.

use vstd::prelude::*;

use super::{RegOp, APB_HZ};

verus! {

pub const LEDC_BASE: u32 = 0x3FF5_9000;

pub const CHANNELS: u8 = 8;
pub const TIMERS: u8 = 4;
/// The finest duty.
pub const MAX_RES_BITS: u8 = 20;

pub const CONF0_TIMER_SEL_MASK: u32 = 0b11;
pub const CONF0_SIG_OUT_EN: u32 = 1 << 2;
pub const CONF0_IDLE_LV: u32 = 1 << 3;
/// Takes a new duty over.
pub const CONF1_DUTY_START: u32 = 1 << 31;
pub const TIMER_DUTY_RES_SHIFT: u32 = 0;
pub const TIMER_DIV_NUM_SHIFT: u32 = 5;
pub const TIMER_PAUSE: u32 = 1 << 23;
pub const TIMER_RST: u32 = 1 << 24;
pub const TIMER_TICK_SEL_APB: u32 = 1 << 25;

/// The divider's fraction.
pub const DIV_FRAC_BITS: u32 = 8;
pub const DIV_MAX: u32 = 0x3FFFF;

/// A channel's first register.
pub open spec fn conf0_of(ch: u8) -> u32 {
    (LEDC_BASE + 0x14 * ch) as u32
}

/// A timer's first register.
pub open spec fn timer_of(t: u8) -> u32 {
    (LEDC_BASE + 0x140 + 8 * t) as u32
}

pub fn ch_conf0(ch: u8) -> (addr: u32)
    ensures
        addr == conf0_of(ch),
        addr < 0x4000_0000,
{
    LEDC_BASE + 0x14 * ch as u32
}

pub fn ch_hpoint(ch: u8) -> (addr: u32)
    ensures
        addr == conf0_of(ch) + 0x04,
{
    ch_conf0(ch) + 0x04
}

pub fn ch_duty(ch: u8) -> (addr: u32)
    ensures
        addr == conf0_of(ch) + 0x08,
{
    ch_conf0(ch) + 0x08
}

pub fn ch_conf1(ch: u8) -> (addr: u32)
    ensures
        addr == conf0_of(ch) + 0x0C,
{
    ch_conf0(ch) + 0x0C
}

pub fn timer_conf(t: u8) -> (addr: u32)
    ensures
        addr == timer_of(t),
        addr < 0x4000_0000,
{
    LEDC_BASE + 0x140 + 0x08 * t as u32
}

pub fn timer_value(t: u8) -> (addr: u32)
    ensures
        addr == timer_of(t) + 0x04,
{
    timer_conf(t) + 0x04
}

/// Every channel's registers end before the timers', and no two channels or timers
/// share one.
pub proof fn law_registers_are_distinct(a: u8, b: u8, t: u8)
    requires
        a < CHANNELS,
        b < CHANNELS,
        t < TIMERS,
    ensures
        a < b ==> conf0_of(a) + 0x14 <= conf0_of(b),
        conf0_of(a) + 0x14 <= LEDC_BASE + 0xA0,
        LEDC_BASE + 0xA0 < timer_of(0),
        timer_of(t) == timer_of(0) + 8 * t,
{
}

/// The steps of a full duty: two to the power of the resolution.
pub open spec fn full_scale(res: int) -> int {
    vstd::arithmetic::power2::pow2(res as nat) as int
}

/// The steps of a full duty, at which the output is always on.
pub fn max_duty(res_bits: u8) -> (steps: u32)
    requires
        res_bits < 32,
    ensures
        steps == full_scale(res_bits as int),
{
    proof {
        vstd::bits::lemma_u32_pow2_no_overflow(res_bits as nat);
        vstd::bits::lemma_u32_shl_is_mul(1, res_bits as u32);
    }
    1u32 << res_bits as u32
}

/// The divider, in 256ths, whose period of `2^res` ticks comes to `freq_hz`.
pub open spec fn divider(freq_hz: int, res: int) -> int {
    APB_HZ * 256 / (freq_hz * full_scale(res))
}

/// The divider for a frequency and a resolution, where there is one.
pub open spec fn offered(freq_hz: u32, res_bits: u8) -> Option<u32> {
    if freq_hz == 0 || res_bits == 0 || res_bits > MAX_RES_BITS {
        None
    } else {
        let d = divider(freq_hz as int, res_bits as int);
        if 256 <= d <= DIV_MAX {
            Some(d as u32)
        } else {
            None
        }
    }
}

/// The timer's divider for a frequency and a resolution; `None` where there is none,
/// rather than one for another frequency.
pub fn divider_for(freq_hz: u32, res_bits: u8) -> (div: Option<u32>)
    ensures
        div == offered(freq_hz, res_bits),
{
    if freq_hz == 0 || res_bits == 0 || res_bits > MAX_RES_BITS {
        return None;
    }
    proof {
        lemma_steps(res_bits);
        let steps = full_scale(res_bits as int);
        assert(freq_hz * steps <= 0xFFFF_FFFF * 0x10_0000) by (nonlinear_arith)
            requires
                freq_hz <= 0xFFFF_FFFF,
                0 < steps <= 0x10_0000,
        ;
        assert(freq_hz * steps > 0) by (nonlinear_arith)
            requires
                freq_hz > 0,
                steps > 0,
        ;
        vstd::bits::lemma_u64_shl_is_mul(freq_hz as u64, res_bits as u64);
        vstd::arithmetic::power2::lemma2_to64();
        vstd::bits::lemma_u64_shl_is_mul(APB_HZ as u64, 8);
    }
    let period_ticks: u64 = (freq_hz as u64) << res_bits as u64;
    let div: u64 = ((APB_HZ as u64) << 8u64) / period_ticks;
    if div < 256 || div > DIV_MAX as u64 {
        return None;
    }
    Some(div as u32)
}

proof fn lemma_steps(res_bits: u8)
    requires
        res_bits <= MAX_RES_BITS,
    ensures
        0 < full_scale(res_bits as int) <= 0x10_0000,
{
    vstd::arithmetic::power2::lemma2_to64();
    vstd::arithmetic::power2::lemma_pow2_pos(res_bits as nat);
    if res_bits < 20 {
        vstd::arithmetic::power2::lemma_pow2_strictly_increases(res_bits as nat, 20);
    }
}

/// The frequency that a divider gives.
pub open spec fn frequency(div: int, res: int) -> int {
    APB_HZ * 256 / (div * full_scale(res))
}

/// The frequency that a divider gives, and zero where it gives none.
pub fn freq_for(div: u32, res_bits: u8) -> (hz: u32)
    ensures
        hz == if div == 0 || res_bits > MAX_RES_BITS {
            0
        } else {
            frequency(div as int, res_bits as int) as u32
        },
{
    if div == 0 || res_bits > MAX_RES_BITS {
        return 0;
    }
    proof {
        lemma_steps(res_bits);
        let steps = full_scale(res_bits as int);
        assert(0 < div * steps <= 0xFFFF_FFFF * 0x10_0000) by (nonlinear_arith)
            requires
                0 < div <= 0xFFFF_FFFF,
                0 < steps <= 0x10_0000,
        ;
        vstd::bits::lemma_u64_pow2_no_overflow(res_bits as nat);
        vstd::bits::lemma_u64_shl_is_mul(1, res_bits as u64);
        vstd::arithmetic::power2::lemma2_to64();
        vstd::bits::lemma_u64_shl_is_mul(APB_HZ as u64, 8);
    }
    (((APB_HZ as u64) << 8u64) / (div as u64 * (1u64 << res_bits as u64))) as u32
}

/// A divider that is given out comes within one part in 256 of the frequency asked
/// for, and never below it.
pub proof fn law_the_frequency_is_met(freq_hz: u32, res_bits: u8)
    requires
        freq_hz > 0,
        0 < res_bits <= MAX_RES_BITS,
        256 <= divider(freq_hz as int, res_bits as int) <= DIV_MAX,
    ensures
        ({
            let got = frequency(divider(freq_hz as int, res_bits as int), res_bits as int);
            freq_hz <= got <= freq_hz + freq_hz / 256
        }),
{
    let f = freq_hz as int;
    let s = full_scale(res_bits as int);
    let a = APB_HZ * 256;
    let d = divider(f, res_bits as int);
    let got = frequency(d, res_bits as int);
    lemma_steps(res_bits);
    assert(f * s > 0) by (nonlinear_arith)
        requires
            f > 0,
            s > 0,
    ;
    assert(d * (f * s) <= a < (d + 1) * (f * s)) by (nonlinear_arith)
        requires
            d == a / (f * s),
            f * s > 0,
    ;
    let ds = d * s;
    assert(ds > 0) by (nonlinear_arith)
        requires
            d >= 256,
            s > 0,
            ds == d * s,
    ;
    assert(got * ds <= a < (got + 1) * ds) by (nonlinear_arith)
        requires
            got == a / ds,
            ds > 0,
    ;
    assert(f * ds == d * (f * s)) by (nonlinear_arith)
        requires
            ds == d * s,
    ;
    assert(f <= got) by (nonlinear_arith)
        requires
            f * ds <= a,
            a < (got + 1) * ds,
            ds > 0,
    ;
    let e = got - f;
    assert(e * d < f) by (nonlinear_arith)
        requires
            got * ds <= a,
            a < (d + 1) * (f * s),
            f * ds == d * (f * s),
            ds == d * s,
            e == got - f,
            s > 0,
    {
        assert(e * d * s == got * ds - f * ds);
        assert((d + 1) * (f * s) == d * (f * s) + f * s);
        assert(e * d * s < f * s);
    }
    assert(256 * e <= e * d) by (nonlinear_arith)
        requires
            d >= 256,
            e >= 0,
    ;
}

/// The steps of a share in hundredths, rounded; more than all is all.
pub open spec fn share(pct: int, res: int) -> int {
    (full_scale(res) * super::smaller(pct, 100) + 50) / 100
}

/// The steps of a share in hundredths, rounded; more than all is all.
pub fn duty_for_percent(pct: u8, res_bits: u8) -> (duty: u32)
    requires
        res_bits < 32,
    ensures
        duty == share(pct as int, res_bits as int),
{
    let p: u64 = if pct > 100 {
        100
    } else {
        pct as u64
    };
    let full: u64 = max_duty(res_bits) as u64;
    proof {
        assert(full * p <= 0xFFFF_FFFF * 100) by (nonlinear_arith)
            requires
                full <= 0xFFFF_FFFF,
                p <= 100,
        ;
        assert((full * p + 50) / 100 <= full) by (nonlinear_arith)
            requires
                p <= 100,
        ;
    }
    ((full * p + 50) / 100) as u32
}

/// A share never exceeds the full duty, is nothing for nothing and all for all, and
/// is within half a step of the exact one.
pub proof fn law_shares_are_rounded(pct: int, res: int)
    requires
        0 <= pct,
        0 <= res,
    ensures
        ({
            let full = full_scale(res);
            let p = super::smaller(pct, 100);
            &&& 0 <= share(pct, res) <= full
            &&& share(0, res) == 0
            &&& pct >= 100 ==> share(pct, res) == full
            &&& -50 <= 100 * share(pct, res) - full * p <= 50
        }),
{
    let full = full_scale(res);
    let p = super::smaller(pct, 100);
    vstd::arithmetic::power2::lemma_pow2_pos(res as nat);
    assert(0 <= full * p <= full * 100) by (nonlinear_arith)
        requires
            0 <= p <= 100,
            full > 0,
    ;
    assert(full * 0 == 0);
}

/// A timer.
#[derive(Clone, Copy, Debug, PartialEq, Eq, Structural)]
pub struct Timer {
    pub idx: u8,
}

/// A timer's configuration.
pub open spec fn timer_word(div: u32, res_bits: u8) -> u32 {
    TIMER_TICK_SEL_APB | (div << TIMER_DIV_NUM_SHIFT) | ((res_bits as u32)
        << TIMER_DUTY_RES_SHIFT)
}

/// The accesses that start a timer: through reset, and out of it.
pub open spec fn starting(idx: u8, div: u32, res_bits: u8) -> Seq<RegOp> {
    seq![
        RegOp::Write { addr: timer_of(idx), value: timer_word(div, res_bits) | TIMER_RST },
        RegOp::Write { addr: timer_of(idx), value: timer_word(div, res_bits) & !TIMER_PAUSE },
    ]
}

proof fn lemma_timer_word(div: u32, res: u32)
    by (bit_vector)
    requires
        div <= 0x3FFFF,
        res <= 20,
    ensures
        ({
            let w = (1u32 << 25) | (div << 5) | (res << 0);
            &&& (w >> 5) & 0x3FFFF == div
            &&& w & 0x1F == res
            &&& w & (1u32 << 23) == 0
            &&& w & (1u32 << 24) == 0
            &&& w & !(1u32 << 23) == w
            &&& w == 0x200_0000 + 32 * div + res
        }),
{
}

/// A timer that is started holds its divider and resolution, and is neither held nor
/// in reset.
pub proof fn law_a_started_timer_runs(idx: u8, div: u32, res_bits: u8)
    requires
        div <= DIV_MAX,
        res_bits <= MAX_RES_BITS,
    ensures
        starting(idx, div, res_bits)[1] == (RegOp::Write {
            addr: timer_of(idx),
            value: timer_word(div, res_bits),
        }),
        (timer_word(div, res_bits) >> TIMER_DIV_NUM_SHIFT) & DIV_MAX == div,
        timer_word(div, res_bits) & 0x1F == res_bits as u32,
        timer_word(div, res_bits) & TIMER_PAUSE == 0,
        timer_word(div, res_bits) & TIMER_RST == 0,
{
    lemma_timer_word(div, res_bits as u32);
}

impl Timer {
    /// Starts a timer.
    pub fn new(idx: u8, freq_hz: u32, res_bits: u8) -> (r: Option<(Self, Vec<RegOp>)>)
        ensures
            match r {
                Some((t, ops)) => {
                    let d = divider(freq_hz as int, res_bits as int);
                    &&& idx < TIMERS
                    &&& freq_hz > 0
                    &&& 0 < res_bits <= MAX_RES_BITS
                    &&& 256 <= d <= DIV_MAX
                    &&& t.idx == idx
                    &&& ops@ == starting(idx, d as u32, res_bits)
                },
                None => {
                    let d = divider(freq_hz as int, res_bits as int);
                    ||| idx >= TIMERS
                    ||| freq_hz == 0
                    ||| res_bits == 0
                    ||| res_bits > MAX_RES_BITS
                    ||| d < 256
                    ||| d > DIV_MAX
                },
            },
    {
        if idx >= TIMERS {
            return None;
        }
        let div: u32 = match divider_for(freq_hz, res_bits) {
            Some(div) => div,
            None => return None,
        };
        let conf: u32 = TIMER_TICK_SEL_APB | (div << TIMER_DIV_NUM_SHIFT) | ((res_bits as u32)
            << TIMER_DUTY_RES_SHIFT);
        let ops: Vec<RegOp> = vec![
            RegOp::Write { addr: timer_conf(idx), value: conf | TIMER_RST },
            RegOp::Write { addr: timer_conf(idx), value: conf & !TIMER_PAUSE },
        ];
        assert(ops@ =~= starting(idx, div, res_bits));
        Some((Timer { idx }, ops))
    }

    /// Where its counter is read.
    pub fn counter(&self) -> (addr: u32)
        ensures
            addr == timer_of(self.idx) + 0x04,
    {
        timer_value(self.idx)
    }
}

/// A channel, and the resolution of its duty.
#[derive(Clone, Copy, Debug, PartialEq, Eq, Structural)]
pub struct Channel {
    pub idx: u8,
    pub res_bits: u8,
}

/// The accesses that set a duty, above the register's fraction, and take it over.
pub open spec fn setting_duty(idx: u8, duty: u32) -> Seq<RegOp> {
    seq![
        RegOp::Write { addr: (conf0_of(idx) + 0x08) as u32, value: duty << 4 },
        RegOp::Write { addr: (conf0_of(idx) + 0x0C) as u32, value: CONF1_DUTY_START },
    ]
}

/// The duty in its register, without the fraction.
pub open spec fn held_duty(word: u32) -> u32 {
    word >> 4
}

/// What a channel comes to: the accesses to perform, and the channel if it was to be
/// had.
pub struct Opening {
    pub ops: Vec<RegOp>,
    pub channel: Option<Channel>,
}

/// The accesses that open a channel on a timer: its high phase at the period's
/// beginning, its duty, then its output, low when idle.
pub open spec fn opening(idx: u8, timer: u8, duty: u32) -> Seq<RegOp> {
    seq![RegOp::Write { addr: (conf0_of(idx) + 0x04) as u32, value: 0 }] + setting_duty(
        idx,
        duty,
    ) + seq![
        RegOp::Write {
            addr: conf0_of(idx),
            value: (((timer as u32) & CONF0_TIMER_SEL_MASK) | CONF0_SIG_OUT_EN) & !CONF0_IDLE_LV,
        },
    ]
}

impl Channel {
    /// The resolution is one that there is.
    pub open spec fn wf(&self) -> bool {
        0 < self.res_bits <= MAX_RES_BITS
    }

    /// Opens a channel on a timer. One that there is not is refused outright; a duty
    /// beyond full leaves it silent.
    pub fn new(idx: u8, timer: &Timer, res_bits: u8, duty: u32) -> (o: Opening)
        ensures
            if idx >= CHANNELS || res_bits == 0 || res_bits > MAX_RES_BITS {
                o.channel is None && o.ops@ == Seq::<RegOp>::empty()
            } else if duty > full_scale(res_bits as int) {
                o.channel is None && o.ops@ == seq![
                    RegOp::Write { addr: (conf0_of(idx) + 0x04) as u32, value: 0 },
                ]
            } else {
                o.channel == Some(Channel { idx, res_bits }) && o.ops@ == opening(
                    idx,
                    timer.idx,
                    duty,
                )
            },
    {
        if idx >= CHANNELS || res_bits == 0 || res_bits > MAX_RES_BITS {
            return Opening { ops: Vec::new(), channel: None };
        }
        let mut ops: Vec<RegOp> = vec![RegOp::Write { addr: ch_hpoint(idx), value: 0 }];
        let ch: Channel = Channel { idx, res_bits };
        match ch.set_duty(duty) {
            None => {
                assert(ops@ =~= seq![
                    RegOp::Write { addr: (conf0_of(idx) + 0x04) as u32, value: 0 },
                ]);
                return Opening { ops, channel: None };
            },
            Some(mut set) => {
                ops.append(&mut set);
            },
        }
        ops.push(
            RegOp::Write {
                addr: ch_conf0(idx),
                value: (((timer.idx as u32) & CONF0_TIMER_SEL_MASK) | CONF0_SIG_OUT_EN)
                    & !CONF0_IDLE_LV,
            },
        );
        assert(ops@ =~= opening(idx, timer.idx, duty));
        Opening { ops, channel: Some(ch) }
    }

    /// Sets the duty, if it is not beyond full.
    pub fn set_duty(&self, duty: u32) -> (r: Option<Vec<RegOp>>)
        requires
            self.wf(),
        ensures
            match r {
                Some(ops) => duty <= full_scale(self.res_bits as int) && ops@ == setting_duty(
                    self.idx,
                    duty,
                ),
                None => duty > full_scale(self.res_bits as int),
            },
    {
        if duty > max_duty(self.res_bits) {
            return None;
        }
        let ops: Vec<RegOp> = vec![
            RegOp::Write { addr: ch_duty(self.idx), value: duty << 4 },
            RegOp::Write { addr: ch_conf1(self.idx), value: CONF1_DUTY_START },
        ];
        assert(ops@ =~= setting_duty(self.idx, duty));
        Some(ops)
    }

    /// Sets the duty to a share in hundredths; always to be had.
    pub fn set_percent(&self, pct: u8) -> (r: Option<Vec<RegOp>>)
        requires
            self.wf(),
        ensures
            match r {
                Some(ops) => ops@ == setting_duty(
                    self.idx,
                    share(pct as int, self.res_bits as int) as u32,
                ),
                None => false,
            },
    {
        proof {
            law_shares_are_rounded(pct as int, self.res_bits as int);
        }
        self.set_duty(duty_for_percent(pct, self.res_bits))
    }

    /// The duty in its register, without the fraction.
    pub fn duty(&self, word: u32) -> (duty: u32)
        ensures
            duty == held_duty(word),
    {
        word >> 4
    }
}

proof fn lemma_duty_shift(duty: u32)
    by (bit_vector)
    requires
        duty <= 0x10_0000,
    ensures
        (duty << 4) >> 4 == duty,
        duty << 4 == 16 * duty,
        1u32 << 31 == 0x8000_0000,
        forall|t: u32| #![trigger t & 3] ((t & 3) | (1u32 << 2)) & !(1u32 << 3) == t % 4 + 4,
        forall|w: u32| #![trigger w | (1u32 << 24u32)] ((w | (1u32 << 24)) >> 24) % 2 == 1,
{
}

/// A duty that was set reads back.
pub proof fn law_the_duty_reads_back(ch: Channel, duty: u32)
    requires
        ch.wf(),
        duty <= full_scale(ch.res_bits as int),
    ensures
        (duty << 4) >> 4 == duty,
{
    lemma_steps(ch.res_bits);
    lemma_duty_shift(duty);
}

/// A divider is given out where it is between 1 and 1024 ticks of the clock in 256ths, and
/// then it is the largest whose period is no longer than was asked for.
pub proof fn law_the_divider_is_the_largest(freq_hz: u32, res_bits: u8)
    requires
        freq_hz > 0,
        0 < res_bits <= 20,
    ensures
        ({
            let period = freq_hz * full_scale(res_bits as int);
            let clock = 80_000_000 * 256;
            match offered(freq_hz, res_bits) {
                Some(d) => 256 <= d <= 0x3FFFF && d * period <= clock < (d + 1) * period,
                None => 256 * period > clock || 0x4_0000 * period <= clock,
            }
        }),
        offered(0, res_bits) is None,
        offered(freq_hz, 0) is None,
        offered(freq_hz, 21) is None,
{
    let period = freq_hz * full_scale(res_bits as int);
    let clock = APB_HZ * 256;
    lemma_steps(res_bits);
    let s = full_scale(res_bits as int);
    assert(period > 0) by (nonlinear_arith)
        requires
            period == freq_hz * s,
            freq_hz > 0,
            s > 0,
    ;
    let d = clock / period;
    assert(d * period <= clock < (d + 1) * period) by (nonlinear_arith)
        requires
            d == clock / period,
            period > 0,
    ;
    if d < 256 {
        assert(256 * period > clock) by (nonlinear_arith)
            requires
                clock < (d + 1) * period,
                d < 256,
                period > 0,
        ;
    }
    if d > 0x3FFFF {
        assert(0x4_0000 * period <= clock) by (nonlinear_arith)
            requires
                d * period <= clock,
                d > 0x3FFFF,
                period > 0,
        ;
    }
}

/// A divider's frequency is that of the clock, divided by it and by the steps.
pub proof fn law_a_frequency_is_the_clocks_share(div: u32, res_bits: u8)
    requires
        div > 0,
        res_bits <= 20,
    ensures
        ({
            let period = div * full_scale(res_bits as int);
            let got = frequency(div as int, res_bits as int);
            got * period <= 80_000_000 * 256 < (got + 1) * period
        }),
{
    lemma_steps(res_bits);
    let s = full_scale(res_bits as int);
    let period = div * s;
    let clock = APB_HZ * 256;
    let got = clock / period;
    assert(period > 0) by (nonlinear_arith)
        requires
            period == div * s,
            div > 0,
            s > 0,
    ;
    assert(got * period <= clock < (got + 1) * period) by (nonlinear_arith)
        requires
            got == clock / period,
            period > 0,
    ;
}

/// A timer is taken through reset, and is left with the fast clock, its divider and its
/// resolution, out of reset and not held.
pub proof fn law_a_timer_is_taken_through_reset(
    r: super::Registers,
    idx: u8,
    div: u32,
    res_bits: u8,
)
    requires
        idx < 4,
        div <= 0x3FFFF,
        res_bits <= 20,
    ensures
        ({
            let ops = starting(idx, div, res_bits);
            let addr = (0x3FF5_9140 + 8 * idx) as u32;
            &&& (super::after_all(r, ops.take(1)).words[addr] >> 24) % 2 == 1
            &&& super::after_all(r, ops).words[addr] == 0x200_0000 + 32 * div + res_bits
        }),
{
    let ops = starting(idx, div, res_bits);
    assert(super::after_all(r, ops.take(0)) == r);
    super::lemma_after_take(r, ops, 1);
    super::lemma_after_take(r, ops, 2);
    assert(ops.take(2) =~= ops);
    lemma_timer_word(div, res_bits as u32);
    lemma_duty_shift(0);
}

/// An opened channel begins its pulse with the period, has its duty in sixteenths and taken
/// over, and only then is let out, on its timer and low when idle. The duty reads back.
pub proof fn law_a_channel_is_let_out_last(r: super::Registers, idx: u8, timer: u8, duty: u32)
    requires
        idx < 8,
        timer < 4,
        duty <= 0x10_0000,
    ensures
        ({
            let ops = opening(idx, timer, duty);
            let ready = super::after_all(r, ops.drop_last());
            let base = (0x3FF5_9000 + 0x14 * idx) as u32;
            &&& ready.words[base] == r.words[base]
            &&& ready.words[(base + 0x04) as u32] == 0
            &&& ready.words[(base + 0x08) as u32] == 16 * duty
            &&& ready.words[(base + 0x0C) as u32] == 0x8000_0000
            &&& ops.last() == (RegOp::Write { addr: base, value: (4 + timer) as u32 })
            &&& held_duty(ready.words[(base + 0x08) as u32]) == duty
        }),
{
    let ops = opening(idx, timer, duty);
    assert(super::after_all(r, ops.take(0)) == r);
    super::lemma_after_take(r, ops, 1);
    super::lemma_after_take(r, ops, 2);
    super::lemma_after_take(r, ops, 3);
    assert(ops.drop_last() =~= ops.take(3));
    lemma_duty_shift(duty);
    assert((timer as u32) & 3 == (timer as u32) & CONF0_TIMER_SEL_MASK);
}

} // verus!
