use flint_drivers::logical::ft6336u::{coord, touch_id, Event, Ft6336u, Touch, FOCALTECH_ID};

#[test]
fn a_coordinate_takes_only_the_low_nibble_of_the_high_byte() {
    assert_eq!(coord(0x01, 0x2C), 0x012C);
    assert_eq!(coord(0xF1, 0x2C), 0x012C, "flags in the top nibble are masked off");
    assert_eq!(coord(0x00, 0x00), 0);
    assert_eq!(coord(0x0F, 0xFF), 0x0FFF, "full 12-bit range");
}

#[test]
fn the_event_flag_is_the_top_two_bits_of_p1_xh() {
    assert_eq!(Event::from_xh(0b00 << 6), Event::Down);
    assert_eq!(Event::from_xh(0b01 << 6), Event::Up);
    assert_eq!(Event::from_xh(0b10 << 6), Event::Contact);
    assert_eq!(Event::from_xh(0b11 << 6), Event::NoEvent);
    assert_eq!(Event::from_xh((0b10 << 6) | 0x0F), Event::Contact);
}

#[test]
fn the_touch_id_is_the_top_nibble_of_p1_yh() {
    assert_eq!(touch_id(0x00), 0);
    assert_eq!(touch_id(0x10), 1);
    assert_eq!(touch_id(0x1F), 1);
}

#[test]
fn a_full_point_decodes_the_way_the_register_block_is_laid_out() {
    let b = [0x01u8, 0x81, 0x2C, 0x10, 0x64];
    assert_eq!(b[0] & 0x0F, 1, "one touch");
    assert_eq!(coord(b[1], b[2]), 300);
    assert_eq!(coord(b[3], b[4]), 100);
    assert_eq!(touch_id(b[3]), 1);
    assert_eq!(Event::from_xh(b[1]), Event::Contact);
}

#[test]
fn a_zero_count_means_no_touch() {
    let td_status = 0x00u8;
    assert_eq!(td_status & 0x0F, 0);
}

#[test]
fn presence_is_the_vendor_id_not_the_chip_id() {
    assert_eq!(FOCALTECH_ID, 0x11);
}

#[test]
fn the_first_point_is_read_from_one_burst() {
    let panel = Ft6336u::new();
    assert_eq!(
        panel.touch1(&[0x01, 0x81, 0x2C, 0x10, 0x64]),
        Some(Touch { x: 300, y: 100, id: 1, event: Event::Contact })
    );
    assert_eq!(panel.touch1(&[0x00, 0x81, 0x2C, 0x10, 0x64]), None);
    assert_eq!(panel.touch1(&[0xF0, 0x81, 0x2C, 0x10, 0x64]), None);
}

#[test]
fn the_count_and_the_vendor_are_read_from_their_registers() {
    let panel = Ft6336u::new();
    assert_eq!(panel.touch_count(0xF2), 2);
    assert!(panel.is_present(0x11));
    assert!(!panel.is_present(0x64));
}
