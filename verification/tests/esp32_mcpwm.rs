use flint_drivers::esp32::mcpwm::{
    CAP0_EDGE_NEG, CAP0_INT, CAP_CH0, CAP_MODE_NEG, CAP_MODE_POS, CAP_STATUS, Capture, Config,
    DT0_CFG, DT0_FED_CFG, DT0_RED_CFG, DT_ACTIVE_HIGH_COMPLEMENTARY, F0_EN, F0_POLE, FAULT_DETECT,
    FH0_CFG0, FH0_CFG1, FH0_F0_OST, FH0_FORCE_AB_LOW, FH_CLR_OST, FH_OST_ON, GEN0_A,
    GEN_A_COMPLEMENTARY, INT_CLR, INT_RAW, MCPWM0_BASE, Mcpwm, PWM0A_OUT_IDX, PWM0B_OUT_IDX,
    PWM0_CAP0_IN_IDX, PWM0_F0_IN_IDX, PWM_CLK_HZ, TIMER0_CFG0, TIMER0_CFG1, TIMER_FREEZE,
    TIMER_RUN_UP,
};
use flint_drivers::bus::BusError;
use flint_drivers::esp32::{RegOp, Route};

fn config() -> Config {
    Config {
        clk_prescale: 0,
        timer_prescale: 159,
        period: 99,
        compare_a: 50,
        dead_red: 10,
        dead_fed: 12,
    }
}

#[test]
fn register_offsets_match_the_struct() {
    assert_eq!(MCPWM0_BASE, 0x3FF5_E000);
    assert_eq!(TIMER0_CFG0, 0x04);
    assert_eq!(GEN0_A, 0x50);
    assert_eq!(DT0_CFG, 0x58);
    assert_eq!(DT0_FED_CFG, 0x5C);
    assert_eq!(DT0_RED_CFG, 0x60);
    assert_eq!(FH0_CFG0, 0x68);
    assert_eq!(FAULT_DETECT, 0xE4);
    assert_eq!(CAP_CH0, 0xFC);
    assert_eq!(CAP_STATUS, 0x108);
    assert_eq!(INT_RAW, 0x114);
}

#[test]
fn generator_makes_an_active_high_pulse() {
    assert_eq!(GEN_A_COMPLEMENTARY, (2 << 0) | (1 << 4));
    assert_eq!(GEN_A_COMPLEMENTARY, 0x12);
}

#[test]
fn dead_time_mode_only_inverts_the_falling_edge_output() {
    assert_eq!(DT_ACTIVE_HIGH_COMPLEMENTARY, 1 << 14);
    assert_eq!(DT_ACTIVE_HIGH_COMPLEMENTARY & ((1 << 15) | (1 << 16)), 0);
}

#[test]
fn the_fault_forces_both_outputs_low_in_both_directions() {
    assert_eq!(FH0_F0_OST, 1 << 7);
    assert_eq!(FH0_FORCE_AB_LOW, 0x0050_5000);
    assert_eq!(FH0_F0_OST | FH0_FORCE_AB_LOW, 0x0050_5080);
}

#[test]
fn the_timer_runs_up_and_freezes() {
    assert_eq!(TIMER_RUN_UP, 0x0A);
    assert_eq!(TIMER_FREEZE, 0);
}

#[test]
fn capture_and_signal_indices_are_the_documented_ones() {
    assert_eq!(PWM0A_OUT_IDX, 32);
    assert_eq!(PWM0B_OUT_IDX, 33);
    assert_eq!(PWM0_F0_IN_IDX, 34);
    assert_eq!(PWM0_CAP0_IN_IDX, 109);
    assert_eq!(CAP0_INT, 1 << 27);
    assert_eq!(CAP_MODE_POS | CAP_MODE_NEG, 0x6);
}

#[test]
fn frequency_math_is_the_documented_formula() {
    let f = PWM_CLK_HZ / (0 + 1) / (159 + 1) / (99 + 1);
    assert_eq!(f, 10_000);
}

#[test]
fn the_delays_are_written_before_the_mode_that_uses_them() {
    let (m, ops) = Mcpwm::new(&config());
    assert_eq!(m.base, MCPWM0_BASE);
    assert_eq!(ops[0], RegOp::Gate { base: MCPWM0_BASE, on: true });
    assert_eq!(ops[2], RegOp::Write { addr: MCPWM0_BASE + TIMER0_CFG0, value: 159 | (99 << 8) });
    assert_eq!(ops[8], RegOp::Write { addr: MCPWM0_BASE + DT0_RED_CFG, value: 10 });
    assert_eq!(ops[10], RegOp::Write { addr: MCPWM0_BASE + DT0_CFG, value: 1 << 14 });
    assert_eq!(m.start(), RegOp::Write { addr: MCPWM0_BASE + TIMER0_CFG1, value: TIMER_RUN_UP });
    assert_eq!(m.stop(), RegOp::Write { addr: MCPWM0_BASE + TIMER0_CFG1, value: TIMER_FREEZE });
}

#[test]
fn a_fault_latches_until_it_is_cleared_by_an_edge() {
    let (m, _) = Mcpwm::new(&config());
    let ops = m.enable_fault_oneshot(true);
    assert_eq!(ops[1], RegOp::Write { addr: MCPWM0_BASE + FAULT_DETECT, value: F0_EN | F0_POLE });
    assert_eq!(m.enable_fault_oneshot(false)[1], RegOp::Write { addr: MCPWM0_BASE + FAULT_DETECT, value: F0_EN });
    assert!(m.fault_tripped(FH_OST_ON));
    assert!(!m.fault_tripped(0));
    assert_eq!(
        m.clear_fault(),
        vec![
            RegOp::Write { addr: MCPWM0_BASE + FH0_CFG1, value: 0 },
            RegOp::Write { addr: MCPWM0_BASE + FH0_CFG1, value: FH_CLR_OST },
        ]
    );
}

#[test]
fn an_edge_is_captured_once_with_its_polarity() {
    let (m, _) = Mcpwm::new(&config());
    assert_eq!(m.enable_capture_both_edges().len(), 3);
    assert!(m.poll_capture(0, 77, 1).is_none());
    let clear = RegOp::Write { addr: MCPWM0_BASE + INT_CLR, value: CAP0_INT };
    assert_eq!(
        m.poll_capture(CAP0_INT, 77, CAP0_EDGE_NEG),
        Some((Capture { timestamp: 77, falling: true }, clear))
    );
    assert_eq!(
        m.poll_capture(u32::MAX, 78, 0),
        Some((Capture { timestamp: 78, falling: false }, clear))
    );
}

#[test]
fn signals_are_routed_to_pads_alone() {
    let (m, _) = Mcpwm::new(&config());
    assert_eq!(m.route_output_a(4, true), Ok(Route::Output { idx: 32, pin: 4 }));
    assert_eq!(m.route_output_b(5, true), Ok(Route::Output { idx: 33, pin: 5 }));
    assert_eq!(m.route_fault_input(6, true), Ok(Route::Input { idx: 34, pin: 6 }));
    assert_eq!(m.route_capture_input(7, true), Ok(Route::Input { idx: 109, pin: 7 }));
    let refused = Err(BusError::InvalidConfig);
    assert_eq!(m.route_output_a(40, false), refused);
    assert_eq!(m.route_output_b(40, false), refused);
    assert_eq!(m.route_fault_input(40, false), refused);
    assert_eq!(m.route_capture_input(40, false), refused);
}
