use flint_drivers::esp32::ledc::{
    CHANNELS, CONF0_IDLE_LV, CONF0_SIG_OUT_EN, CONF0_TIMER_SEL_MASK, CONF1_DUTY_START, Channel,
    DIV_MAX, LEDC_BASE, MAX_RES_BITS, TIMERS, TIMER_DIV_NUM_SHIFT, TIMER_DUTY_RES_SHIFT,
    TIMER_PAUSE, TIMER_RST, TIMER_TICK_SEL_APB, Timer, ch_conf0, ch_conf1, ch_duty, ch_hpoint,
    divider_for, duty_for_percent, freq_for, max_duty, timer_conf, timer_value,
};
use flint_drivers::esp32::{RegOp, APB_HZ};

#[test]
fn the_registers_are_where_the_header_says() {
    assert_eq!(LEDC_BASE, 0x3FF5_9000);
    assert_eq!(ch_conf0(0), LEDC_BASE);
    assert_eq!(ch_conf0(1), LEDC_BASE + 0x14, "five registers per channel");
    assert_eq!(ch_conf0(2), LEDC_BASE + 0x28);
    assert_eq!(ch_hpoint(0), LEDC_BASE + 0x04);
    assert_eq!(ch_duty(0), LEDC_BASE + 0x08);
    assert_eq!(ch_conf1(0), LEDC_BASE + 0x0C);
    assert_eq!(timer_conf(0), LEDC_BASE + 0x140);
    assert_eq!(timer_conf(1), LEDC_BASE + 0x148);
    assert_eq!(timer_value(0), LEDC_BASE + 0x144);
}

#[test]
fn channels_do_not_overlap_the_timers() {
    assert_eq!(ch_conf0(7) + 0x14, LEDC_BASE + 0xA0);
    assert!(ch_conf0(7) < timer_conf(0));
}

#[test]
fn a_divider_of_one_is_the_floor() {
    assert_eq!(divider_for(u32::MAX, 8), None, "impossibly fast");
    let d = divider_for(APB_HZ / 256, 8).unwrap();
    assert!(d >= 256, "divider {d} is below 1.0");
}

#[test]
fn a_frequency_that_needs_no_division_is_refused_not_clamped() {
    assert_eq!(divider_for(1_000_000, 16), None);
    assert_eq!(divider_for(0, 8), None);
    assert_eq!(divider_for(1000, 0), None);
    assert_eq!(divider_for(1000, MAX_RES_BITS + 1), None);
}

#[test]
fn a_common_led_frequency_round_trips() {
    let res = 13;
    let div = divider_for(5_000, res).unwrap();
    let got = freq_for(div, res);
    assert!(got.abs_diff(5_000) < 50, "asked 5000 Hz, got {got}");
}

#[test]
fn a_servo_frequency_round_trips() {
    let res = 16;
    let div = divider_for(50, res).unwrap();
    let got = freq_for(div, res);
    assert!(got.abs_diff(50) <= 1, "asked 50 Hz, got {got}");
}

#[test]
fn full_scale_is_one_step_past_the_maximum_duty() {
    assert_eq!(max_duty(8), 256);
    assert_eq!(max_duty(13), 8192);
    assert_eq!(duty_for_percent(100, 8), 256);
    assert_eq!(duty_for_percent(0, 8), 0);
    assert_eq!(duty_for_percent(50, 8), 128);
}

#[test]
fn percentages_round_rather_than_truncate() {
    assert_eq!(duty_for_percent(33, 8), 84);
    assert_eq!(duty_for_percent(66, 8), 169);
    assert_eq!(duty_for_percent(200, 8), 256, "clamped, not wrapped");
}

#[test]
fn the_conf0_fields_do_not_collide() {
    assert_eq!(CONF0_TIMER_SEL_MASK & CONF0_SIG_OUT_EN, 0);
    assert_eq!(CONF0_SIG_OUT_EN & CONF0_IDLE_LV, 0);
    assert_eq!(CONF0_TIMER_SEL_MASK, 0b11);
    assert!(TIMERS as u32 <= CONF0_TIMER_SEL_MASK + 1);
}

#[test]
fn the_timer_fields_do_not_collide() {
    let div = DIV_MAX << TIMER_DIV_NUM_SHIFT;
    let res = 0x1Fu32 << TIMER_DUTY_RES_SHIFT;
    assert_eq!(div & res, 0);
    assert_eq!(div & TIMER_PAUSE, 0, "an 18-bit divider must clear PAUSE");
    assert_eq!(div & TIMER_RST, 0);
    assert_eq!(div & TIMER_TICK_SEL_APB, 0);
}

#[test]
fn a_timer_starts_through_reset() {
    let (t, ops) = Timer::new(1, 5_000, 13).unwrap();
    let div = divider_for(5_000, 13).unwrap();
    let conf = TIMER_TICK_SEL_APB | (div << 5) | 13;
    assert_eq!(
        ops,
        vec![
            RegOp::Write { addr: timer_conf(1), value: conf | TIMER_RST },
            RegOp::Write { addr: timer_conf(1), value: conf },
        ]
    );
    assert_eq!(t.counter(), timer_value(1));
    assert!(Timer::new(TIMERS, 5_000, 13).is_none());
    assert!(Timer::new(0, 1_000_000, 16).is_none());
}

#[test]
fn a_divider_has_an_exact_value() {
    assert_eq!(divider_for(5_000, 13), Some(500));
    assert_eq!(freq_for(500, 13), 5_000);
    assert_eq!(freq_for(0, 13), 0);
    assert_eq!(freq_for(500, MAX_RES_BITS + 1), 0);
}

#[test]
fn a_channel_is_opened_on_its_timer_with_its_duty() {
    let (t, _) = Timer::new(2, 5_000, 13).unwrap();
    let o = Channel::new(3, &t, 13, 4096);
    let ch = o.channel.unwrap();
    assert_eq!(
        o.ops,
        vec![
            RegOp::Write { addr: ch_hpoint(3), value: 0 },
            RegOp::Write { addr: ch_duty(3), value: 4096 << 4 },
            RegOp::Write { addr: ch_conf1(3), value: CONF1_DUTY_START },
            RegOp::Write { addr: ch_conf0(3), value: 2 | CONF0_SIG_OUT_EN },
        ]
    );
    assert_eq!(ch.duty(4096 << 4), 4096);
    assert_eq!(ch.set_percent(200).unwrap()[0], RegOp::Write { addr: ch_duty(3), value: 8192 << 4 });
    assert!(ch.set_duty(8193).is_none());
}

#[test]
fn a_channel_with_too_much_duty_stays_silent() {
    let (t, _) = Timer::new(0, 5_000, 13).unwrap();
    let o = Channel::new(0, &t, 13, 8193);
    assert!(o.channel.is_none());
    assert_eq!(o.ops, vec![RegOp::Write { addr: ch_hpoint(0), value: 0 }]);
    assert!(Channel::new(CHANNELS, &t, 13, 0).channel.is_none());
    assert_eq!(Channel::new(0, &t, 0, 0).ops, vec![]);
}
