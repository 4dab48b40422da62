use flint_drivers::logical::ssd1306::{
    data_capacity, format_temp_chars, glyph_for, Ssd1306, CMD_CHARGE_PUMP, CMD_DISPLAY_OFF,
    CMD_DISPLAY_ON, CMD_DISPLAY_RAM, CMD_MEMORY_MODE, CMD_NORMAL_DISPLAY, CMD_SET_DISPLAY_CLOCK,
    CMD_SET_DISPLAY_OFFSET, CMD_SET_MUX, CMD_SET_START_LINE_0, GLYPH_BLANK,
};

const MAX_TRANSFER: usize = 64;

fn tenths(temp_c: f32) -> i32 {
    let scaled = temp_c * 10.0;
    if scaled >= 0.0 {
        (scaled + 0.5) as i32
    } else {
        (scaled - 0.5) as i32
    }
}

fn pixels(list: &[Vec<u8>]) -> Vec<u8> {
    list.iter().filter(|t| t[0] == 0x40).flat_map(|t| t[1..].to_vec()).collect()
}

#[test]
fn ssd1306_init_ok() {
    let display = Ssd1306::new();
    assert!(!display.init(MAX_TRANSFER).is_empty());
}

#[test]
fn ssd1306_init_command_sequence_matches_datasheet() {
    let display = Ssd1306::new();
    let txns = display.init(MAX_TRANSFER);
    let commands: Vec<u8> = txns
        .iter()
        .filter(|t| t.first() == Some(&0x00) && t.len() >= 2)
        .map(|t| t[1])
        .collect();
    assert_eq!(
        &commands[0..11],
        &[
            CMD_DISPLAY_OFF,
            CMD_SET_DISPLAY_CLOCK, 0x80,
            CMD_SET_MUX, 63,
            CMD_SET_DISPLAY_OFFSET, 0x00,
            CMD_SET_START_LINE_0,
            CMD_CHARGE_PUMP, 0x14,
            CMD_MEMORY_MODE,
        ]
    );
    let ram_pos = commands.iter().position(|&c| c == CMD_DISPLAY_RAM).unwrap();
    assert_eq!(commands[ram_pos + 1], CMD_NORMAL_DISPLAY);
    assert_eq!(*commands.last().unwrap(), CMD_DISPLAY_ON);
}

#[test]
fn ssd1306_clear() {
    let display = Ssd1306::new();
    let list = display.clear(MAX_TRANSFER);
    assert_eq!(pixels(&list), vec![0u8; 1024]);
    assert!(list.iter().all(|t| t.len() <= 33));
}

#[test]
fn ssd1306_print_temp_positive() {
    let display = Ssd1306::new();
    let shown = pixels(&display.print_temp(tenths(25.5), MAX_TRANSFER));
    assert_eq!(shown.len(), 1024 + 23);
    assert_eq!(shown[1024..1029], glyph_for(b'2'));
    assert_eq!(shown[1029], 0);
    assert_eq!(shown[1030..1035], glyph_for(b'5'));
    assert_eq!(shown[1036..1041], glyph_for(b'.'));
    assert_eq!(shown[1042..1047], glyph_for(b'5'));
}

#[test]
fn ssd1306_print_temp_negative() {
    let display = Ssd1306::new();
    let shown = pixels(&display.print_temp(tenths(-12.3), MAX_TRANSFER));
    assert_eq!(shown.len(), 1024 + 29);
    assert_eq!(shown[1024..1029], glyph_for(b'-'));
}

#[test]
fn format_temp_chars_positive() {
    assert_eq!(format_temp_chars(tenths(25.4)), b"25.4");
}

#[test]
fn format_temp_chars_negative() {
    assert_eq!(format_temp_chars(tenths(-12.3)), b"-12.3");
}

#[test]
fn format_temp_chars_distinguishes_nearby_values() {
    let a = format_temp_chars(tenths(25.4));
    let b = format_temp_chars(tenths(25.9));
    assert_ne!(a, b);
    assert_eq!(a, b"25.4");
    assert_eq!(b, b"25.9");
}

#[test]
fn format_temp_chars_does_not_saturate_negatives_to_zero() {
    let chars = format_temp_chars(tenths(-5.0));
    assert_eq!(chars, b"-5.0");
    assert_ne!(chars, b"0.0");
}

#[test]
fn format_temp_chars_clamps_extreme_values() {
    assert_eq!(format_temp_chars(tenths(250.0)), b"99.9");
    assert_eq!(format_temp_chars(tenths(-250.0)), b"-99.9");
    assert_eq!(format_temp_chars(i32::MAX), b"99.9");
    assert_eq!(format_temp_chars(i32::MIN), b"-99.9");
}

#[test]
fn glyph_table_bounds() {
    for d in b'0'..=b'9' {
        let g = glyph_for(d);
        assert_eq!(g.len(), 5);
        assert_ne!(g, GLYPH_BLANK, "digit {} should not be blank", d as char);
    }
    assert_ne!(glyph_for(b'-'), GLYPH_BLANK);
    assert_ne!(glyph_for(b'.'), GLYPH_BLANK);
    assert_eq!(glyph_for(b'X'), GLYPH_BLANK);
    assert_eq!(glyph_for(0u8), GLYPH_BLANK);
    assert_eq!(glyph_for(255u8), GLYPH_BLANK);
}

#[test]
fn batching_follows_the_bus_and_loses_no_pixel() {
    for max_transfer in [0, 1, 2, 3, 17, 33, 34, 4096] {
        let cap = data_capacity(max_transfer);
        assert!((1..=32).contains(&cap));
        let list = Ssd1306::new().clear(max_transfer);
        assert!(list.iter().filter(|t| t[0] == 0x40).all(|t| t.len() <= cap + 1));
        assert_eq!(pixels(&list).len(), 1024);
    }
    assert_eq!(data_capacity(3), 2);
    assert_eq!(data_capacity(33), 32);
    assert_eq!(data_capacity(34), 32);
}

#[test]
fn zero_is_shown_without_a_sign() {
    assert_eq!(format_temp_chars(0), b"0.0");
    assert_eq!(format_temp_chars(-1), b"-0.1");
}
