use flint_drivers::logical::ws2812::{bit_ticks, encode, frame_bits, Rgb, Timing};

const NS: u32 = 125;

#[test]
fn the_wire_order_is_grb_not_rgb() {
    assert_eq!(Rgb::new(1, 2, 3).to_grb(), [2, 1, 3]);
    assert_eq!(Rgb::red().to_grb(), [0, 255, 0], "red is the middle byte");
    assert_eq!(Rgb::green().to_grb(), [255, 0, 0], "green is first");
}

#[test]
fn bit_timings_round_to_nearest_and_stay_in_tolerance() {
    let (h, _) = bit_ticks(false, Timing::ws2812(), NS);
    assert_eq!(h, 3);
    let ns = h as u32 * NS;
    assert!(ns.abs_diff(350) <= 150, "zero-bit high {ns} ns out of tolerance");

    let (h, _) = bit_ticks(true, Timing::ws2812(), NS);
    let ns = h as u32 * NS;
    assert!(ns.abs_diff(700) <= 150, "one-bit high {ns} ns out of tolerance");
}

#[test]
fn a_zero_and_a_one_are_distinguishable() {
    let (zh, _) = bit_ticks(false, Timing::ws2812(), NS);
    let (oh, _) = bit_ticks(true, Timing::ws2812(), NS);
    assert!(oh > zh, "a one must be held high longer than a zero");
}

#[test]
fn each_encoded_period_matches_its_datasheet_period() {
    let t = Timing::ws2812();
    for (bit, want) in [
        (false, t.zero_high_ns + t.zero_low_ns),
        (true, t.one_high_ns + t.one_low_ns),
    ] {
        let (h, l) = bit_ticks(bit, t, NS);
        let got = (h as u32 + l as u32) * NS;
        assert!(
            got.abs_diff(want) <= 150,
            "bit {bit}: encoded period {got} ns vs datasheet {want} ns"
        );
    }
}

#[test]
fn the_low_times_are_also_in_tolerance() {
    let t = Timing::ws2812();
    let (_, zl) = bit_ticks(false, t, NS);
    assert!((zl as u32 * NS).abs_diff(t.zero_low_ns) <= 150);
    let (_, ol) = bit_ticks(true, t, NS);
    assert!((ol as u32 * NS).abs_diff(t.one_low_ns) <= 150);
}

#[test]
fn encoding_is_msb_first() {
    let mut out = [(0u16, 0u16); 24];
    encode(&[Rgb::new(0, 0x80, 0)], Timing::ws2812(), NS, &mut out).unwrap();
    let one = bit_ticks(true, Timing::ws2812(), NS);
    let zero = bit_ticks(false, Timing::ws2812(), NS);
    assert_eq!(out[0], one, "MSB first");
    assert_eq!(out[1], zero);
}

#[test]
fn a_short_buffer_is_refused_rather_than_half_filled() {
    let mut out = [(0u16, 0u16); 23];
    assert!(encode(&[Rgb::red()], Timing::ws2812(), NS, &mut out).is_none());
}

#[test]
fn a_frame_is_twenty_four_entries_per_led() {
    assert_eq!(frame_bits(1), 24);
    assert_eq!(frame_bits(8), 192);
    let mut out = [(0u16, 0u16); 48];
    assert_eq!(
        encode(&[Rgb::red(), Rgb::blue()], Timing::ws2812(), NS, &mut out),
        Some(48)
    );
}

#[test]
fn dimming_scales_and_clamps() {
    assert_eq!(Rgb::new(100, 200, 50).dim(50), Rgb::new(50, 100, 25));
    assert_eq!(Rgb::red().dim(0), Rgb::off());
    assert_eq!(Rgb::new(200, 0, 0).dim(200), Rgb::new(200, 0, 0));
}

#[test]
fn a_frame_is_spelled_out_bit_by_bit() {
    let mut out = [(7u16, 7u16); 25];
    assert_eq!(encode(&[Rgb::new(0, 0x81, 0xFF)], Timing::ws2812(), NS, &mut out), Some(24));
    let one = (6, 5);
    let zero = (3, 6);
    assert_eq!(bit_ticks(true, Timing::ws2812(), NS), one);
    assert_eq!(bit_ticks(false, Timing::ws2812(), NS), zero);
    let bits = [
        1, 0, 0, 0, 0, 0, 0, 1, 0, 0, 0, 0, 0, 0, 0, 0, 1, 1, 1, 1, 1, 1, 1, 1,
    ];
    for (i, bit) in bits.iter().enumerate() {
        assert_eq!(out[i], if *bit == 1 { one } else { zero }, "bit {i}");
    }
    assert_eq!(out[24], (7, 7), "what lies behind the frame is left alone");
}

#[test]
fn a_refused_frame_leaves_the_buffer_alone() {
    let mut out = [(9u16, 9u16); 23];
    assert_eq!(encode(&[Rgb::green()], Timing::ws2812(), NS, &mut out), None);
    assert_eq!(out, [(9, 9); 23]);
    assert_eq!(encode(&[], Timing::ws2812(), NS, &mut out), Some(0));
}

#[test]
fn a_bit_needs_only_its_own_times() {
    assert_eq!(bit_ticks(false, Timing::ws2812(), NS), (3, 6));
    assert_eq!(bit_ticks(true, Timing::ws2812(), NS), (6, 5));
    let t = Timing { one_high_ns: u32::MAX, one_low_ns: u32::MAX, ..Timing::ws2812() };
    assert_eq!(bit_ticks(false, t, NS), (3, 6));
    let mut out = [(0u16, 0u16); 24];
    assert_eq!(encode(&[Rgb::off()], t, NS, &mut out), Some(24));
    assert_eq!(out, [(3, 6); 24]);
}
