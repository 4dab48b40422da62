use flint_drivers::esp32::timg::{
    ALARMHI, ALARMLO, CONFIG, CONFIG_ALARM_EN, CONFIG_AUTORELOAD, CONFIG_EN, CONFIG_INCREASE,
    CONFIG_LEVEL_INT_EN, Group, HI, INT_CLR, INT_ENA, INT_RAW, LO, LOAD, LOADHI, LOADLO, Mode,
    TIMER_STRIDE, Timer, TimerError, Timg, UPDATE, divider_for, encode_config, joined,
};
use flint_drivers::esp32::RegOp;

#[test]
fn offsets_match_the_timer_group_header() {
    assert_eq!(CONFIG, 0x00);
    assert_eq!(LO, 0x04);
    assert_eq!(HI, 0x08);
    assert_eq!(UPDATE, 0x0C);
    assert_eq!(ALARMLO, 0x10);
    assert_eq!(ALARMHI, 0x14);
    assert_eq!(LOADLO, 0x18);
    assert_eq!(LOADHI, 0x1C);
    assert_eq!(LOAD, 0x20);
    assert_eq!(INT_ENA, 0x98);
    assert_eq!(INT_RAW, 0x9C);
    assert_eq!(INT_CLR, 0xA4);
}

#[test]
fn t1_is_one_full_register_set_past_t0() {
    assert_eq!(TIMER_STRIDE, 0x24);
    assert_eq!(LOAD + 4, TIMER_STRIDE);
}

#[test]
fn microseconds_need_a_divider_of_eighty() {
    assert_eq!(divider_for(1_000_000).unwrap(), 80);
}

#[test]
fn a_resolution_that_does_not_divide_the_apb_clock_is_refused() {
    assert_eq!(
        divider_for(3_000_000).unwrap_err(),
        TimerError::UnsupportedResolution
    );
}

#[test]
fn the_encodable_divider_range_is_two_to_sixty_five_thousand_five_hundred_and_thirty_six() {
    assert_eq!(divider_for(40_000_000).unwrap(), 2);
    assert_eq!(
        divider_for(80_000_000).unwrap_err(),
        TimerError::UnsupportedResolution
    );
    assert_eq!(divider_for(1250).unwrap(), 64_000);
    assert_eq!(divider_for(0).unwrap_err(), TimerError::UnsupportedResolution);
}

#[test]
fn the_divider_lands_in_bits_thirteen_to_twenty_eight() {
    let cfg = encode_config(80, false, false);
    assert_eq!((cfg >> 13) & 0xFFFF, 80, "divider is not at bit 13");
    assert_eq!(cfg & CONFIG_INCREASE, CONFIG_INCREASE, "counter must count up");
    assert_eq!(cfg & CONFIG_EN, 0, "config alone must not start the timer");
}

#[test]
fn a_divider_of_sixty_five_thousand_five_hundred_and_thirty_six_is_written_as_zero() {
    let cfg = encode_config(65_536, false, false);
    assert_eq!((cfg >> 13) & 0xFFFF, 0);
}

#[test]
fn periodic_sets_autoreload_and_one_shot_does_not() {
    assert_eq!(encode_config(80, true, true) & CONFIG_AUTORELOAD, CONFIG_AUTORELOAD);
    assert_eq!(encode_config(80, false, true) & CONFIG_AUTORELOAD, 0);
}

#[test]
fn arming_an_alarm_enables_the_level_interrupt_too() {
    let cfg = encode_config(80, false, true);
    assert_eq!(cfg & CONFIG_ALARM_EN, CONFIG_ALARM_EN);
    assert_eq!(cfg & CONFIG_LEVEL_INT_EN, CONFIG_LEVEL_INT_EN);
    let idle = encode_config(80, false, false);
    assert_eq!(idle & (CONFIG_ALARM_EN | CONFIG_LEVEL_INT_EN), 0);
}

#[test]
fn the_two_timers_have_distinct_interrupt_bits() {
    assert_ne!(1u32 << 0, 1u32 << 1);
}

#[test]
fn an_alarm_of_no_length_is_refused() {
    let (t, _) = Timg::new(Group::Timg0, Timer::T1, 1_000_000).unwrap();
    assert_eq!(t.start_alarm(0, Mode::OneShot).unwrap_err(), TimerError::UnsupportedPeriod);
    let ops = t.start_alarm(0x1_0000_0002, Mode::Periodic).unwrap();
    assert!(ops.contains(&RegOp::Write { addr: t.base + ALARMLO, value: 2 }));
    assert!(ops.contains(&RegOp::Write { addr: t.base + ALARMHI, value: 1 }));
    assert_eq!(
        ops[ops.len() - 1],
        RegOp::Write { addr: t.base + CONFIG, value: encode_config(80, true, true) | CONFIG_EN }
    );
}

#[test]
fn a_timer_without_an_exact_divider_is_refused() {
    assert_eq!(
        Timg::new(Group::Timg1, Timer::T0, 3_000_000).unwrap_err(),
        TimerError::UnsupportedResolution
    );
}

#[test]
fn the_counter_is_put_together_from_its_halves() {
    assert_eq!(joined(1, 2), 0x1_0000_0002);
    let (t, _) = Timg::new(Group::Timg0, Timer::T0, 1_000_000).unwrap();
    assert_eq!(t.now(), RegOp::Write { addr: t.base + UPDATE, value: 1 });
}
