use flint_drivers::logical::ili9342c::{
    madctl, rgb565, ColorOrder, Config, DisplayError, DisplayOp, Ili9342c, Rotation, BLUE,
    CMD_CASET, CMD_DISPON, CMD_INVON, CMD_PASET, CMD_RAMWR, CMD_SLPOUT, COLMOD_16BIT, GREEN,
    MADCTL_BGR, MADCTL_MV, MADCTL_MX, MADCTL_MY, RED,
};

fn core2() -> Ili9342c {
    Ili9342c::new(Config::core2())
}

#[test]
fn rgb565_packs_the_channels_where_the_panel_expects() {
    assert_eq!(rgb565(0, 0, 0), 0x0000);
    assert_eq!(rgb565(255, 255, 255), 0xFFFF);
    assert_eq!(RED, 0xF800);
    assert_eq!(GREEN, 0x07E0);
    assert_eq!(BLUE, 0x001F);
}

#[test]
fn native_size_is_landscape_and_rotation_swaps_it() {
    assert_eq!((core2().width(), core2().height()), (320, 240));
    let portrait = Ili9342c::new(Config { rotation: Rotation::Deg90, ..Config::core2() });
    assert_eq!((portrait.width(), portrait.height()), (240, 320));
}

#[test]
fn the_core2_madctl_is_bgr_landscape() {
    assert_eq!(madctl(Rotation::Deg0, ColorOrder::Bgr), 0x08);
    assert_eq!(madctl(Rotation::Deg0, ColorOrder::Rgb), 0x00);
    assert_eq!(madctl(Rotation::Deg90, ColorOrder::Bgr), MADCTL_MV | MADCTL_MX | MADCTL_BGR);
}

#[test]
fn fill_rect_sets_the_window_then_fills_the_pixel_count_in_one_transaction() {
    let log = core2().fill_rect(10, 20, 4, 3, RED).unwrap();
    assert_eq!(
        log,
        vec![
            DisplayOp::Start,
            DisplayOp::Command(CMD_CASET),
            DisplayOp::Data(vec![0x00, 0x0A, 0x00, 0x0D]),
            DisplayOp::Command(CMD_PASET),
            DisplayOp::Data(vec![0x00, 0x14, 0x00, 0x16]),
            DisplayOp::Command(CMD_RAMWR),
            DisplayOp::Fill { color: RED, count: 12 },
            DisplayOp::End,
        ]
    );
}

#[test]
fn a_window_address_is_big_endian_inclusive_and_end_equals_start_plus_size_minus_one() {
    let log = core2().fill_rect(0, 0, 320, 240, 0).unwrap();
    assert!(log.contains(&DisplayOp::Data(vec![0x00, 0x00, 0x01, 0x3F])));
    assert!(log.contains(&DisplayOp::Data(vec![0x00, 0x00, 0x00, 0xEF])));
    assert!(log.contains(&DisplayOp::Fill { color: 0, count: 320 * 240 }));
}

#[test]
fn a_draw_off_the_edge_is_rejected_before_any_bytes_move() {
    let lcd = core2();
    assert_eq!(lcd.fill_rect(300, 0, 40, 10, 0), Err(DisplayError::OutOfBounds));
    assert_eq!(lcd.fill_rect(0, 235, 10, 10, 0), Err(DisplayError::OutOfBounds));
}

#[test]
fn a_blit_whose_buffer_does_not_match_the_region_is_rejected() {
    let px = [0u16; 5];
    assert_eq!(core2().blit(0, 0, 2, 3, &px), Err(DisplayError::SizeMismatch));
}

#[test]
fn a_matching_blit_streams_the_buffer_after_the_window() {
    let px = [BLUE; 6];
    let log = core2().blit(1, 1, 3, 2, &px).unwrap();
    assert_eq!(log.first(), Some(&DisplayOp::Start));
    assert_eq!(log.last(), Some(&DisplayOp::End));
    assert!(log.contains(&DisplayOp::Command(CMD_RAMWR)));
    assert!(log.contains(&DisplayOp::Pixels));
    assert_eq!(px.len(), 6);
}

#[test]
fn init_pulses_reset_and_sends_the_wake_sequence() {
    let log = core2().init();
    let mut reset_calls = Vec::new();
    let mut delays = 0u32;
    for op in &log {
        match op {
            DisplayOp::Reset(asserted) => reset_calls.push(*asserted),
            DisplayOp::DelayMs(ms) => delays += ms,
            _ => {}
        }
    }
    assert_eq!(reset_calls, vec![true, false]);
    assert!(log.contains(&DisplayOp::Command(CMD_SLPOUT)));
    assert!(log.contains(&DisplayOp::Data(vec![COLMOD_16BIT])));
    assert!(log.contains(&DisplayOp::Command(CMD_INVON)));
    assert!(log.contains(&DisplayOp::Command(CMD_DISPON)));
    assert!(delays > 0);
}

#[test]
fn an_empty_region_is_drawn_by_doing_nothing() {
    assert_eq!(core2().fill_rect(400, 400, 0, 7, RED), Ok(vec![]));
    assert_eq!(core2().fill_rect(0, 0, 7, 0, RED), Ok(vec![]));
}

#[test]
fn a_blit_off_the_edge_is_rejected() {
    let px = [0u16; 4];
    assert_eq!(core2().blit(319, 0, 2, 2, &px), Err(DisplayError::OutOfBounds));
}

#[test]
fn a_pixel_is_a_fill_of_one() {
    assert_eq!(core2().draw_pixel(319, 239, GREEN), core2().fill_rect(319, 239, 1, 1, GREEN));
    assert_eq!(core2().draw_pixel(320, 0, GREEN), Err(DisplayError::OutOfBounds));
    assert_eq!(core2().draw_pixel(0, 240, GREEN), Err(DisplayError::OutOfBounds));
}

#[test]
fn a_filled_screen_is_a_fill_of_the_whole_visible_area() {
    let portrait = Ili9342c::new(Config { rotation: Rotation::Deg270, ..Config::core2() });
    assert_eq!(portrait.fill_screen(BLUE), portrait.fill_rect(0, 0, 240, 320, BLUE));
}

#[test]
fn every_rotation_has_its_own_memory_order() {
    assert_eq!(madctl(Rotation::Deg180, ColorOrder::Rgb), MADCTL_MX | MADCTL_MY);
    assert_eq!(madctl(Rotation::Deg270, ColorOrder::Rgb), MADCTL_MV | MADCTL_MY);
    assert_eq!(rgb565(0x12, 0x34, 0x56), 0x11AA);
}
