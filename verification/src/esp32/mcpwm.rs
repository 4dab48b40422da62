//! Motor-control PWM: a complementary pair of outputs with dead time between them, a
//! fault that forces both low, and the capture of an input's edges.

use vstd::prelude::*;

use super::{RegOp, Route};
use crate::bus::BusError;

verus! {

pub const MCPWM0_BASE: u32 = 0x3FF5_E000;

pub const CLK_CFG: u32 = 0x00;
pub const TIMER0_CFG0: u32 = 0x04;
pub const TIMER0_CFG1: u32 = 0x08;
pub const OPERATOR_TIMERSEL: u32 = 0x38;
pub const GEN0_TSTMP_A: u32 = 0x40;
pub const GEN0_A: u32 = 0x50;
pub const GEN0_B: u32 = 0x54;
pub const DT0_CFG: u32 = 0x58;
pub const DT0_FED_CFG: u32 = 0x5C;
pub const DT0_RED_CFG: u32 = 0x60;
pub const FH0_CFG0: u32 = 0x68;
pub const FH0_CFG1: u32 = 0x6C;
pub const FH0_STATUS: u32 = 0x70;
pub const FAULT_DETECT: u32 = 0xE4;
pub const CAP_TIMER_CFG: u32 = 0xE8;
pub const CAP_CH0_CFG: u32 = 0xF0;
pub const CAP_CH0: u32 = 0xFC;
pub const CAP_STATUS: u32 = 0x108;
pub const INT_RAW: u32 = 0x114;
pub const INT_CLR: u32 = 0x11C;

pub const TIMER_PRESCALE_SHIFT: u32 = 0;
pub const TIMER_PERIOD_SHIFT: u32 = 8;

/// Counting up, without end.
pub const TIMER_RUN_UP: u32 = (2 << 0) | (1 << 3);
pub const TIMER_FREEZE: u32 = 0;

/// High at zero, low at the compare value.
pub const GEN_A_COMPLEMENTARY: u32 = (2 << 0) | (1 << 4);

/// The second output is the first one's complement, and neither bypasses its delay.
pub const DT_ACTIVE_HIGH_COMPLEMENTARY: u32 = 1 << 14;

pub const F0_EN: u32 = 1 << 0;
pub const F0_POLE: u32 = 1 << 3;

/// A fault latches.
pub const FH0_F0_OST: u32 = 1 << 7;
/// Both outputs low, whichever way the timer counts.
pub const FH0_FORCE_AB_LOW: u32 = (1 << 12) | (1 << 14) | (1 << 20) | (1 << 22);
pub const FH_CLR_OST: u32 = 1 << 0;
pub const FH_OST_ON: u32 = 1 << 1;

pub const CAP_TIMER_EN: u32 = 1 << 0;
pub const CAP_EN: u32 = 1 << 0;
pub const CAP_MODE_NEG: u32 = 1 << 1;
pub const CAP_MODE_POS: u32 = 1 << 2;
pub const CAP0_INT: u32 = 1 << 27;
/// The edge was a falling one.
pub const CAP0_EDGE_NEG: u32 = 1 << 0;

/// Where the signals meet the pin matrix.
pub const PWM0A_OUT_IDX: u32 = 32;
pub const PWM0B_OUT_IDX: u32 = 33;
pub const PWM0_F0_IN_IDX: u32 = 34;
pub const PWM0_CAP0_IN_IDX: u32 = 109;

/// What everything here is divided from.
pub const PWM_CLK_HZ: u32 = 160_000_000;

/// A pair of outputs: the first is high for `compare_a` ticks of `period + 1`, and
/// each rises only so many cycles after the other fell.
#[derive(Clone, Copy, Debug, PartialEq, Eq, Structural)]
pub struct Config {
    pub clk_prescale: u16,
    pub timer_prescale: u16,
    pub period: u16,
    pub compare_a: u16,
    pub dead_red: u16,
    pub dead_fed: u16,
}

/// An edge and when it came.
#[derive(Clone, Copy, Debug, PartialEq, Eq, Structural)]
pub struct Capture {
    pub timestamp: u32,
    pub falling: bool,
}

/// The unit.
#[derive(Clone, Copy, Debug, PartialEq, Eq, Structural)]
pub struct Mcpwm {
    pub base: u32,
}

/// Writes a register.
pub open spec fn write(base: u32, offset: u32, value: u32) -> RegOp {
    RegOp::Write { addr: (base + offset) as u32, value }
}

/// The timer's prescaler and period.
pub open spec fn timer_word(prescale: u16, period: u16) -> u32 {
    ((prescale as u32) << TIMER_PRESCALE_SHIFT) | ((period as u32) << TIMER_PERIOD_SHIFT)
}

/// The accesses that bring the unit up, with its timer held: the period, then the
/// pulse, then the delays before the mode that uses them.
pub open spec fn bringing_up(base: u32, cfg: Config) -> Seq<RegOp> {
    seq![
        RegOp::Gate { base, on: true },
        write(base, CLK_CFG, cfg.clk_prescale as u32),
        write(base, TIMER0_CFG0, timer_word(cfg.timer_prescale, cfg.period)),
        write(base, TIMER0_CFG1, TIMER_FREEZE),
        write(base, OPERATOR_TIMERSEL, 0),
        write(base, GEN0_TSTMP_A, cfg.compare_a as u32),
        write(base, GEN0_A, GEN_A_COMPLEMENTARY),
        write(base, GEN0_B, 0),
        write(base, DT0_RED_CFG, cfg.dead_red as u32),
        write(base, DT0_FED_CFG, cfg.dead_fed as u32),
        write(base, DT0_CFG, DT_ACTIVE_HIGH_COMPLEMENTARY),
    ]
}

proof fn lemma_timer_word(prescale: u16, period: u16)
    by (bit_vector)
    requires
        prescale <= 0xFF,
    ensures
        ({
            let w = ((prescale as u32) << 0u32) | ((period as u32) << 8u32);
            &&& w & 0xFF == prescale
            &&& (w >> 8) & 0xFFFF == period
            &&& w == prescale + 256 * period
        }),
        (2u32 << 0) | (1u32 << 4) == 0x12,
        (2u32 << 0) | (1u32 << 3) == 0x0A,
        1u32 << 14 == 0x4000,
        (1u32 << 7) | ((1u32 << 12) | (1u32 << 14) | (1u32 << 20) | (1u32 << 22)) == 0x50_5080,
        (1u32 << 0) | (1u32 << 3) == 9,
        (1u32 << 0) | 0 == 1,
        1u32 << 0 == 1,
        (1u32 << 0) | (1u32 << 2) | (1u32 << 1) == 7,
        1u32 << 27 == 0x800_0000,
        forall|w: u32| #![trigger w & (1u32 << 27u32)]
            (w & (1u32 << 27) == 0) == (w / 0x800_0000 % 2 == 0),
        forall|w: u32| #![trigger w & (1u32 << 0u32)] (w & (1u32 << 0) != 0) == (w % 2 == 1),
        forall|w: u32| #![trigger w & (1u32 << 1u32)] (w & (1u32 << 1) != 0) == (w / 2 % 2 == 1),
{
}

/// A prescaler that fits its field and any period keep apart.
pub proof fn law_timer_fields(prescale: u16, period: u16)
    requires
        prescale <= 0xFF,
    ensures
        timer_word(prescale, period) & 0xFF == prescale,
        (timer_word(prescale, period) >> TIMER_PERIOD_SHIFT) & 0xFFFF == period,
{
    lemma_timer_word(prescale, period);
}

/// The first output on a pad.
pub open spec fn output_a_at(pin: u8, is_pad: bool) -> Result<Route, BusError> {
    if is_pad {
        Ok(Route::Output { idx: PWM0A_OUT_IDX, pin })
    } else {
        Err(BusError::InvalidConfig)
    }
}

/// The second output on a pad.
pub open spec fn output_b_at(pin: u8, is_pad: bool) -> Result<Route, BusError> {
    if is_pad {
        Ok(Route::Output { idx: PWM0B_OUT_IDX, pin })
    } else {
        Err(BusError::InvalidConfig)
    }
}

/// The fault input on a pad.
pub open spec fn fault_input_at(pin: u8, is_pad: bool) -> Result<Route, BusError> {
    if is_pad {
        Ok(Route::Input { idx: PWM0_F0_IN_IDX, pin })
    } else {
        Err(BusError::InvalidConfig)
    }
}

/// The capture input on a pad.
pub open spec fn capture_input_at(pin: u8, is_pad: bool) -> Result<Route, BusError> {
    if is_pad {
        Ok(Route::Input { idx: PWM0_CAP0_IN_IDX, pin })
    } else {
        Err(BusError::InvalidConfig)
    }
}

/// The accesses that let a level of the fault input latch both outputs low.
pub open spec fn guarding(base: u32, active_high: bool) -> Seq<RegOp> {
    seq![
        write(base, FH0_CFG0, FH0_F0_OST | FH0_FORCE_AB_LOW),
        write(
            base,
            FAULT_DETECT,
            F0_EN | if active_high {
                F0_POLE
            } else {
                0
            },
        ),
    ]
}

/// A fault is latched.
pub open spec fn tripped(status: u32) -> bool {
    status & FH_OST_ON != 0
}

/// The accesses that let go of a latched fault.
pub open spec fn releasing(base: u32) -> Seq<RegOp> {
    seq![write(base, FH0_CFG1, 0), write(base, FH0_CFG1, FH_CLR_OST)]
}

/// The accesses that capture both edges.
pub open spec fn capturing(base: u32) -> Seq<RegOp> {
    seq![
        write(base, CAP_TIMER_CFG, CAP_TIMER_EN),
        write(base, CAP_CH0_CFG, CAP_EN | CAP_MODE_POS | CAP_MODE_NEG),
        write(base, INT_CLR, CAP0_INT),
    ]
}

/// The edge that was captured, and the access that makes room for the next.
pub open spec fn captured(base: u32, int_raw: u32, timestamp: u32, status: u32) -> Option<
    (Capture, RegOp),
> {
    if int_raw & CAP0_INT == 0 {
        None
    } else {
        Some(
            (
                Capture { timestamp, falling: status & CAP0_EDGE_NEG != 0 },
                write(base, INT_CLR, CAP0_INT),
            ),
        )
    }
}

impl Mcpwm {
    /// The registers lie within the address space.
    pub open spec fn wf(&self) -> bool {
        self.base + 0x120 <= u32::MAX
    }

    fn w(&self, off: u32, value: u32) -> (op: RegOp)
        requires
            self.base + off <= u32::MAX,
        ensures
            op == write(self.base, off, value),
    {
        RegOp::Write { addr: self.base + off, value }
    }

    /// Brings the unit up, with its timer held.
    pub fn new(cfg: &Config) -> (r: (Self, Vec<RegOp>))
        ensures
            r.0.base == MCPWM0_BASE,
            r.0.wf(),
            r.1@ == bringing_up(MCPWM0_BASE, *cfg),
    {
        let m: Mcpwm = Mcpwm { base: MCPWM0_BASE };
        let mut ops: Vec<RegOp> = vec![
            RegOp::Gate { base: MCPWM0_BASE, on: true },
            m.w(CLK_CFG, cfg.clk_prescale as u32),
        ];
        let mut rest: Vec<RegOp> = m.configure(cfg);
        ops.append(&mut rest);
        assert(ops@ =~= bringing_up(MCPWM0_BASE, *cfg));
        (m, ops)
    }

    fn configure(&self, cfg: &Config) -> (ops: Vec<RegOp>)
        requires
            self.wf(),
        ensures
            ops@ == bringing_up(self.base, *cfg).skip(2),
    {
        let ops: Vec<RegOp> = vec![
            self.w(
                TIMER0_CFG0,
                ((cfg.timer_prescale as u32) << TIMER_PRESCALE_SHIFT) | ((cfg.period as u32)
                    << TIMER_PERIOD_SHIFT),
            ),
            self.w(TIMER0_CFG1, TIMER_FREEZE),
            self.w(OPERATOR_TIMERSEL, 0),
            self.w(GEN0_TSTMP_A, cfg.compare_a as u32),
            self.w(GEN0_A, GEN_A_COMPLEMENTARY),
            self.w(GEN0_B, 0),
            self.w(DT0_RED_CFG, cfg.dead_red as u32),
            self.w(DT0_FED_CFG, cfg.dead_fed as u32),
            self.w(DT0_CFG, DT_ACTIVE_HIGH_COMPLEMENTARY),
        ];
        assert(ops@ =~= bringing_up(self.base, *cfg).skip(2));
        ops
    }

    /// Lets the timer run, once the pads are routed.
    pub fn start(&self) -> (op: RegOp)
        requires
            self.wf(),
        ensures
            op == write(self.base, TIMER0_CFG1, TIMER_RUN_UP),
    {
        self.w(TIMER0_CFG1, TIMER_RUN_UP)
    }

    /// Holds it; the outputs stay as they are.
    pub fn stop(&self) -> (op: RegOp)
        requires
            self.wf(),
        ensures
            op == write(self.base, TIMER0_CFG1, TIMER_FREEZE),
    {
        self.w(TIMER0_CFG1, TIMER_FREEZE)
    }

    /// Connects the first output to `pin`, given whether that is a pad.
    pub fn route_output_a(&self, pin: u8, is_pad: bool) -> (r: Result<Route, BusError>)
        ensures
            r == output_a_at(pin, is_pad),
    {
        if !is_pad {
            return Err(BusError::InvalidConfig);
        }
        Ok(Route::Output { idx: PWM0A_OUT_IDX, pin })
    }

    /// Connects the second output to `pin`, given whether that is a pad.
    pub fn route_output_b(&self, pin: u8, is_pad: bool) -> (r: Result<Route, BusError>)
        ensures
            r == output_b_at(pin, is_pad),
    {
        if !is_pad {
            return Err(BusError::InvalidConfig);
        }
        Ok(Route::Output { idx: PWM0B_OUT_IDX, pin })
    }

    /// Connects `pin`, given whether that is a pad, to the fault input.
    pub fn route_fault_input(&self, pin: u8, is_pad: bool) -> (r: Result<Route, BusError>)
        ensures
            r == fault_input_at(pin, is_pad),
    {
        if !is_pad {
            return Err(BusError::InvalidConfig);
        }
        Ok(Route::Input { idx: PWM0_F0_IN_IDX, pin })
    }

    /// Connects `pin`, given whether that is a pad, to the capture input.
    pub fn route_capture_input(&self, pin: u8, is_pad: bool) -> (r: Result<Route, BusError>)
        ensures
            r == capture_input_at(pin, is_pad),
    {
        if !is_pad {
            return Err(BusError::InvalidConfig);
        }
        Ok(Route::Input { idx: PWM0_CAP0_IN_IDX, pin })
    }

    /// Lets a level of the fault input latch both outputs low. What it does is set
    /// before it is let in.
    pub fn enable_fault_oneshot(&self, active_high: bool) -> (ops: Vec<RegOp>)
        requires
            self.wf(),
        ensures
            ops@ == guarding(self.base, active_high),
    {
        let pole: u32 = if active_high {
            F0_POLE
        } else {
            0
        };
        let ops: Vec<RegOp> = vec![
            self.w(FH0_CFG0, FH0_F0_OST | FH0_FORCE_AB_LOW),
            self.w(FAULT_DETECT, F0_EN | pole),
        ];
        assert(ops@ =~= guarding(self.base, active_high));
        ops
    }

    /// Whether a fault is latched, by the handler's status.
    pub fn fault_tripped(&self, status: u32) -> (yes: bool)
        ensures
            yes == tripped(status),
    {
        status & FH_OST_ON != 0
    }

    /// Lets go of a latched fault, on the rising edge of its bit.
    pub fn clear_fault(&self) -> (ops: Vec<RegOp>)
        requires
            self.wf(),
        ensures
            ops@ == releasing(self.base),
    {
        let ops: Vec<RegOp> = vec![self.w(FH0_CFG1, 0), self.w(FH0_CFG1, FH_CLR_OST)];
        assert(ops@ =~= releasing(self.base));
        ops
    }

    /// Captures both edges of the input.
    pub fn enable_capture_both_edges(&self) -> (ops: Vec<RegOp>)
        requires
            self.wf(),
        ensures
            ops@ == capturing(self.base),
    {
        let ops: Vec<RegOp> = vec![
            self.w(CAP_TIMER_CFG, CAP_TIMER_EN),
            self.w(CAP_CH0_CFG, CAP_EN | CAP_MODE_POS | CAP_MODE_NEG),
            self.w(INT_CLR, CAP0_INT),
        ];
        assert(ops@ =~= capturing(self.base));
        ops
    }

    /// The edge that was captured, if there was one, by the raised interrupts, the
    /// time and the status; and the access that makes room for the next.
    pub fn poll_capture(&self, int_raw: u32, timestamp: u32, status: u32) -> (r: Option<
        (Capture, RegOp),
    >)
        requires
            self.wf(),
        ensures
            r == captured(self.base, int_raw, timestamp, status),
    {
        if int_raw & CAP0_INT == 0 {
            return None;
        }
        Some(
            (
                Capture { timestamp, falling: status & CAP0_EDGE_NEG != 0 },
                self.w(INT_CLR, CAP0_INT),
            ),
        )
    }
}

/// The unit comes up clocked, with its timer held: the first output rises at zero and falls at
/// the compare value, the second is its complement, and the delays that keep them apart are set
/// before anything uses them.
pub proof fn law_the_unit_comes_up_held(r: super::Registers, base: u32, cfg: Config)
    requires
        base + 0x120 <= u32::MAX,
        cfg.timer_prescale <= 0xFF,
    ensures
        ({
            let ops = bringing_up(base, cfg);
            let end = super::after_all(r, ops);
            let delayed = super::after_all(r, ops.drop_last());
            &&& ops[0] == (RegOp::Gate { base, on: true })
            &&& end.words[base] == cfg.clk_prescale as u32
            &&& end.words[(base + 0x04) as u32] == cfg.timer_prescale + 256 * cfg.period
            &&& end.words[(base + 0x08) as u32] == 0
            &&& end.words[(base + 0x38) as u32] == 0
            &&& end.words[(base + 0x40) as u32] == cfg.compare_a as u32
            &&& end.words[(base + 0x50) as u32] == 0x12
            &&& end.words[(base + 0x54) as u32] == 0
            &&& delayed.words[(base + 0x60) as u32] == cfg.dead_red as u32
            &&& delayed.words[(base + 0x5C) as u32] == cfg.dead_fed as u32
            &&& ops.last() == (RegOp::Write { addr: (base + 0x58) as u32, value: 0x4000 })
        }),
{
    let ops = bringing_up(base, cfg);
    lemma_timer_word(cfg.timer_prescale, cfg.period);
    assert(super::after_all(r, ops.take(0)) == r);
    super::lemma_after_take(r, ops, 1);
    super::lemma_after_take(r, ops, 2);
    super::lemma_after_take(r, ops, 3);
    super::lemma_after_take(r, ops, 4);
    super::lemma_after_take(r, ops, 5);
    super::lemma_after_take(r, ops, 6);
    super::lemma_after_take(r, ops, 7);
    super::lemma_after_take(r, ops, 8);
    super::lemma_after_take(r, ops, 9);
    super::lemma_after_take(r, ops, 10);
    super::lemma_after_take(r, ops, 11);
    assert(ops.take(11) =~= ops);
    assert(ops.drop_last() =~= ops.take(10));
}

/// What a fault does is set before it is let in: both outputs low, latched, whichever way the
/// timer counts. Letting go of it is an edge, and the latch is the second status bit.
pub proof fn law_a_fault_forces_both_low(base: u32, active_high: bool, status: u32)
    ensures
        guarding(base, active_high) == seq![
            write(base, 0x68, 0x50_5080),
            write(
                base,
                0xE4,
                if active_high {
                    9
                } else {
                    1
                },
            ),
        ],
        releasing(base) == seq![write(base, 0x6C, 0), write(base, 0x6C, 1)],
        tripped(status) == (status / 2 % 2 == 1),
{
    lemma_timer_word(0, 0);
    assert(guarding(base, active_high) =~= seq![
        write(base, 0x68, 0x50_5080),
        write(
            base,
            0xE4,
            if active_high {
                9
            } else {
                1
            },
        ),
    ]);
    assert(releasing(base) =~= seq![write(base, 0x6C, 0), write(base, 0x6C, 1)]);
}

/// Both edges are captured, with nothing stale pending. An edge is told where its interrupt is
/// raised, with its own time and direction, and acknowledged.
pub proof fn law_an_edge_is_told_with_its_time(base: u32, raw: u32, time: u32, status: u32)
    ensures
        capturing(base) == seq![
            write(base, 0xE8, 1),
            write(base, 0xF0, 7),
            write(base, 0x11C, 0x800_0000),
        ],
        captured(base, raw, time, status) is Some == (raw / 0x800_0000 % 2 == 1),
        captured(base, raw, time, status) matches Some((edge, op)) ==> edge.timestamp == time
            && edge.falling == (status % 2 == 1) && op == write(base, 0x11C, 0x800_0000),
{
    lemma_timer_word(0, 0);
    assert(capturing(base) =~= seq![
        write(base, 0xE8, 1),
        write(base, 0xF0, 7),
        write(base, 0x11C, 0x800_0000),
    ]);
}

/// Each signal has its own place in the matrix, and only a pad is connected.
pub proof fn law_each_signal_has_its_place(pin: u8, is_pad: bool)
    ensures
        !is_pad ==> output_a_at(pin, is_pad) is Err && output_b_at(pin, is_pad) is Err
            && fault_input_at(pin, is_pad) is Err && capture_input_at(pin, is_pad) is Err,
        is_pad ==> output_a_at(pin, is_pad) == Ok::<Route, BusError>(
            Route::Output { idx: 32, pin },
        ),
        is_pad ==> output_b_at(pin, is_pad) == Ok::<Route, BusError>(
            Route::Output { idx: 33, pin },
        ),
        is_pad ==> fault_input_at(pin, is_pad) == Ok::<Route, BusError>(
            Route::Input { idx: 34, pin },
        ),
        is_pad ==> capture_input_at(pin, is_pad) == Ok::<Route, BusError>(
            Route::Input { idx: 109, pin },
        ),
{
}

} // verus!
