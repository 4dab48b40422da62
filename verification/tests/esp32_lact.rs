use flint_drivers::esp32::lact::{
    ATTEMPTS, Alarm, INT_CLR_TIMERS, INT_ENA_TIMERS, INT_ST_TIMERS, LACTALARMHI, LACTALARMLO,
    LACTCONFIG, LACTHI, LACTLO, LACTLOAD, LACTUPDATE, LACT_ALARM_EN, LACT_DIVIDER_MASK,
    LACT_DIVIDER_SHIFT, LACT_EN, LACT_INCREASE, LACT_INT, LACT_LAC_EN, LACT_LEVEL_INT_EN, Lact,
    TG0_LACT_INTR_SOURCE, TG1_LACT_INTR_SOURCE, TICKS_PER_US,
};
use flint_drivers::esp32::timg::Group;
use flint_drivers::esp32::RegOp;

#[test]
fn the_register_offsets_are_the_headers() {
    assert_eq!(LACTCONFIG, 0x70);
    assert_eq!(LACTLO, 0x78);
    assert_eq!(LACTHI, 0x7C);
    assert_eq!(LACTUPDATE, 0x80);
    assert_eq!(LACTALARMLO, 0x84);
    assert_eq!(LACTALARMHI, 0x88);
    assert_eq!(LACTLOAD, 0x94);
    assert_eq!(INT_ENA_TIMERS, 0x98);
    assert_eq!(INT_ST_TIMERS, 0xA0);
    assert_eq!(INT_CLR_TIMERS, 0xA4);
    assert_eq!(LACT_INT, 1 << 3);
}

#[test]
fn the_config_bits_are_the_headers() {
    assert_eq!(LACT_EN, 1 << 31);
    assert_eq!(LACT_INCREASE, 1 << 30);
    assert_eq!(LACT_LEVEL_INT_EN, 1 << 11);
    assert_eq!(LACT_ALARM_EN, 1 << 10);
    assert_eq!(LACT_LAC_EN, 1 << 9);
    assert_eq!(LACT_DIVIDER_SHIFT, 13);
    assert_eq!(LACT_DIVIDER_MASK, 0xFFFF);
}

#[test]
fn the_interrupt_sources_are_the_headers() {
    assert_eq!(TG0_LACT_INTR_SOURCE, 17);
    assert_eq!(TG1_LACT_INTR_SOURCE, 18);
}

#[test]
fn an_apb_frequency_that_does_not_divide_is_refused() {
    assert_eq!(80 % TICKS_PER_US, 0);
    assert_ne!(81 % TICKS_PER_US, 0);
    assert_eq!(TICKS_PER_US, 2);
}

#[test]
fn a_counter_needs_a_whole_divider() {
    assert!(Lact::new(Group::Timg0, 81).is_none());
    let (l, ops) = Lact::new(Group::Timg0, 80).unwrap();
    assert_eq!(
        ops[0],
        RegOp::Write {
            addr: l.base + LACTCONFIG,
            value: LACT_EN | LACT_INCREASE | LACT_LAC_EN | LACT_LEVEL_INT_EN | (40 << LACT_DIVIDER_SHIFT),
        }
    );
}

#[test]
fn an_alarm_that_was_passed_is_pushed_ahead() {
    let (l, _) = Lact::new(Group::Timg1, 80).unwrap();
    assert_eq!(l.check_alarm(0, 100, 90, false), Alarm::Armed);
    assert_eq!(l.check_alarm(0, 100, 110, true), Alarm::Armed);
    assert_eq!(l.check_alarm(0, 100, 110, false), Alarm::Retry(122));
    assert_eq!(l.check_alarm(ATTEMPTS - 1, 100, 110, false), Alarm::Abandoned);
    assert!(l.fired(LACT_INT));
    assert!(!l.fired(!LACT_INT));
}
