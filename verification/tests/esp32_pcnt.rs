use flint_drivers::esp32::pcnt::{
    CNT_BASE, CONF0_CH0_HCTRL_MODE_SHIFT, CONF0_CH0_LCTRL_MODE_SHIFT, CONF0_CH0_NEG_MODE_SHIFT,
    CONF0_CH0_POS_MODE_SHIFT, CONF0_FILTER_EN, CONF0_FILTER_THRES_MASK, CTRL, ChannelMode,
    EdgeAction, Filter, LevelAction, MAX_FILTER_THRES, NUM_UNITS, PCNT_BASE, PcntUnit,
    UNIT_CONF_STRIDE, conf0_bits, count_of, ctrl_ch0_index, sig_ch0_index,
};
use flint_drivers::bus::BusError;
use flint_drivers::esp32::{RegOp, Route};

#[test]
fn up_down_mode_sets_pos_increase_and_low_inverse() {
    let v = conf0_bits(ChannelMode::up_down_on_rising(), Filter::Off);
    assert_eq!((v >> CONF0_CH0_POS_MODE_SHIFT) & 0b11, 1);
    assert_eq!((v >> CONF0_CH0_NEG_MODE_SHIFT) & 0b11, 0);
    assert_eq!((v >> CONF0_CH0_HCTRL_MODE_SHIFT) & 0b11, 0);
    assert_eq!((v >> CONF0_CH0_LCTRL_MODE_SHIFT) & 0b11, 1);
    assert_eq!(v & CONF0_FILTER_THRES_MASK, 0);
    assert_eq!(v & CONF0_FILTER_EN, 0);
}

#[test]
fn the_filter_lives_in_the_low_ten_bits_with_its_enable_above() {
    let v = conf0_bits(ChannelMode::up_down_on_rising(), Filter::Cycles(100));
    assert_eq!(v & CONF0_FILTER_THRES_MASK, 100);
    assert_ne!(v & CONF0_FILTER_EN, 0);
    assert_eq!((v >> CONF0_CH0_POS_MODE_SHIFT) & 0b11, 1);
}

#[test]
fn the_filter_threshold_is_clamped_to_ten_bits() {
    let v = conf0_bits(ChannelMode::up_down_on_rising(), Filter::Cycles(2000));
    assert_eq!(v & CONF0_FILTER_THRES_MASK, MAX_FILTER_THRES as u32);
    assert_eq!(v & !( CONF0_FILTER_THRES_MASK | CONF0_FILTER_EN
        | (0b11 << CONF0_CH0_POS_MODE_SHIFT)
        | (0b11 << CONF0_CH0_LCTRL_MODE_SHIFT)), 0);
}

#[test]
fn decrease_and_hold_encode_as_two_and_zero() {
    let mode = ChannelMode {
        pos: EdgeAction::Decrease,
        neg: EdgeAction::Increase,
        high: LevelAction::Hold,
        low: LevelAction::Keep,
    };
    let v = conf0_bits(mode, Filter::Off);
    assert_eq!((v >> CONF0_CH0_POS_MODE_SHIFT) & 0b11, 2);
    assert_eq!((v >> CONF0_CH0_NEG_MODE_SHIFT) & 0b11, 1);
    assert_eq!((v >> CONF0_CH0_HCTRL_MODE_SHIFT) & 0b11, 2);
    assert_eq!((v >> CONF0_CH0_LCTRL_MODE_SHIFT) & 0b11, 0);
}

#[test]
fn a_signed_count_reads_back_negative_below_zero() {
    assert_eq!(count_of(0x0000), 0);
    assert_eq!(count_of(0x0005), 5);
    assert_eq!(count_of(0xFFFF), -1);
    assert_eq!(count_of(0xFFFB), -5);
    assert_eq!(count_of(0x7FFF), 32767);
    assert_eq!(count_of(0x8000), -32768);
}

#[test]
fn the_reserved_upper_half_of_the_counter_is_ignored() {
    assert_eq!(count_of(0xDEAD_0005), 5);
    assert_eq!(count_of(0x1234_FFFF), -1);
}

#[test]
fn the_signal_indices_are_contiguous_then_jump() {
    assert_eq!(sig_ch0_index(0), Some(39));
    assert_eq!(sig_ch0_index(4), Some(55));
    assert_eq!(sig_ch0_index(5), Some(71));
    assert_eq!(sig_ch0_index(7), Some(79));
    assert_eq!(sig_ch0_index(8), None);
    assert_eq!(ctrl_ch0_index(0), Some(41));
    assert_eq!(ctrl_ch0_index(7), Some(81));
}

#[test]
fn reset_and_pause_bits_are_a_pair_per_unit() {
    for u in 0..NUM_UNITS {
        let p = PcntUnit { unit: u };
        assert_eq!(p.reset_bit(), 1 << (2 * u as u32));
        assert_eq!(p.pause_bit(), 1 << (2 * u as u32 + 1));
        assert_eq!(p.reset_bit() & p.pause_bit(), 0);
    }
}

#[test]
fn unit_config_blocks_do_not_overlap_the_counters() {
    assert_eq!(NUM_UNITS as u32 * UNIT_CONF_STRIDE, CNT_BASE);
}

#[test]
fn a_unit_comes_up_held_and_zeroed() {
    let mode = ChannelMode::up_down_on_rising();
    let (u, ops) = PcntUnit::new(3, mode, Filter::Cycles(100)).unwrap();
    let ctrl = PCNT_BASE + CTRL;
    assert_eq!(
        ops,
        vec![
            RegOp::Gate { base: PCNT_BASE, on: true },
            RegOp::Update { addr: ctrl, clear: 0, set: 1 << 7 },
            RegOp::Update { addr: ctrl, clear: 0, set: 1 << 6 },
            RegOp::Update { addr: ctrl, clear: 1 << 6, set: 0 },
            RegOp::Write { addr: PCNT_BASE + 0x24, value: conf0_bits(mode, Filter::Cycles(100)) },
        ]
    );
    assert_eq!(u.resume(), RegOp::Update { addr: ctrl, clear: 1 << 7, set: 0 });
    assert_eq!(u.clear().len(), 2);
    assert_eq!(u.count(), PCNT_BASE + CNT_BASE + 12);
    assert_eq!(PcntUnit::new(8, mode, Filter::Off).unwrap_err(), BusError::InvalidConfig);
}

#[test]
fn a_new_filter_leaves_the_mode_alone() {
    let mode = ChannelMode::up_down_on_rising();
    let u = PcntUnit { unit: 0 };
    let mut word = conf0_bits(mode, Filter::Cycles(7));
    for filter in [Filter::Cycles(2000), Filter::Off, Filter::Cycles(5)] {
        match u.set_filter(filter) {
            RegOp::Update { clear, set, .. } => word = (word & !clear) | set,
            _ => panic!("a filter is changed in place"),
        }
        assert_eq!(word, conf0_bits(mode, filter));
    }
}

#[test]
fn inputs_are_routed_by_unit() {
    let unit = PcntUnit { unit: 5 };
    assert_eq!(unit.route_signal(4), Ok(Route::Input { idx: 71, pin: 4 }));
    assert_eq!(unit.route_control(5), Ok(Route::Input { idx: 73, pin: 5 }));
    assert_eq!(unit.route_control_level(true), Ok(Route::Level { idx: 73, high: true }));
    let none = PcntUnit { unit: 9 };
    assert_eq!(none.route_signal(4), Err(BusError::InvalidConfig));
    assert_eq!(none.route_control(4), Err(BusError::InvalidConfig));
    assert_eq!(none.route_control_level(false), Err(BusError::InvalidConfig));
}
