//! SSD1306, a 128x64 OLED display on I2C. Every transaction begins with a control
//! byte that says whether commands or pixels follow.

use vstd::prelude::*;

verus! {

pub const CMD_CHARGE_PUMP: u8 = 0x8D;
pub const CMD_COM_SCAN_DEC: u8 = 0xC8;
pub const CMD_DISPLAY_OFF: u8 = 0xAE;
pub const CMD_DISPLAY_ON: u8 = 0xAF;
pub const CMD_DISPLAY_RAM: u8 = 0xA4;
pub const CMD_MEMORY_MODE: u8 = 0x20;
pub const CMD_NORMAL_DISPLAY: u8 = 0xA6;
pub const CMD_SEG_REMAP: u8 = 0xA1;
pub const CMD_SET_COL_ADDR: u8 = 0x21;
pub const CMD_SET_COM_PINS: u8 = 0xDA;
pub const CMD_SET_CONTRAST: u8 = 0x81;
pub const CMD_SET_DISPLAY_CLOCK: u8 = 0xD5;
pub const CMD_SET_DISPLAY_OFFSET: u8 = 0xD3;
pub const CMD_SET_MUX: u8 = 0xA8;
pub const CMD_SET_PAGE_ADDR: u8 = 0x22;
pub const CMD_SET_PRECHARGE: u8 = 0xD9;
pub const CMD_SET_VCOM_DETECT: u8 = 0xDB;
pub const CMD_SET_START_LINE_0: u8 = 0x40;

/// The control byte of a command.
pub const CONTROL_COMMAND: u8 = 0x00;
/// The control byte of pixels.
pub const CONTROL_DATA: u8 = 0x40;

/// The most pixel bytes in one transaction.
pub const DATA_CHUNK: usize = 32;

/// A transaction per command byte.
pub open spec fn commands(bytes: Seq<u8>) -> Seq<Seq<u8>> {
    Seq::new(bytes.len(), |i: int| seq![CONTROL_COMMAND, bytes[i]])
}

/// The pixel bytes of one transaction on a bus that takes `max_transfer` bytes.
pub open spec fn capacity(max_transfer: usize) -> int {
    if max_transfer <= 2 {
        1
    } else if max_transfer - 1 > DATA_CHUNK {
        DATA_CHUNK as int
    } else {
        max_transfer - 1
    }
}

/// Pixels in transactions of up to `cap` bytes each.
pub open spec fn data_runs(bytes: Seq<u8>, cap: int) -> Seq<Seq<u8>>
    decreases bytes.len(),
{
    if bytes.len() == 0 || cap <= 0 {
        Seq::empty()
    } else if bytes.len() <= cap {
        seq![seq![CONTROL_DATA] + bytes]
    } else {
        seq![seq![CONTROL_DATA] + bytes.take(cap)] + data_runs(bytes.skip(cap), cap)
    }
}

/// The same byte `count` times.
pub open spec fn repeated(byte: u8, count: int) -> Seq<u8> {
    Seq::new(count as nat, |i: int| byte)
}

/// The commands that select all of the display's memory.
pub open spec fn whole_screen() -> Seq<u8> {
    seq![CMD_SET_COL_ADDR, 0u8, 127, CMD_SET_PAGE_ADDR, 0, 7]
}

/// The transactions that blank the display.
pub open spec fn clearing(max_transfer: usize) -> Seq<Seq<u8>> {
    commands(whole_screen()) + data_runs(repeated(0, 1024), capacity(max_transfer))
}

/// The power-up commands before the memory is cleared.
pub open spec fn power_up() -> Seq<u8> {
    seq![
        CMD_DISPLAY_OFF,
        CMD_SET_DISPLAY_CLOCK,
        0x80u8,
        CMD_SET_MUX,
        63,
        CMD_SET_DISPLAY_OFFSET,
        0x00,
        CMD_SET_START_LINE_0,
        CMD_CHARGE_PUMP,
        0x14,
        CMD_MEMORY_MODE,
        0x00,
        CMD_SEG_REMAP,
        CMD_COM_SCAN_DEC,
        CMD_SET_COM_PINS,
        0x12,
        CMD_SET_CONTRAST,
        0xCF,
        CMD_SET_PRECHARGE,
        0xF1,
        CMD_SET_VCOM_DETECT,
        0x40,
        CMD_DISPLAY_RAM,
        CMD_NORMAL_DISPLAY,
    ]
}

/// Power up, blank the memory, and only then turn the panel on.
pub open spec fn initialising(max_transfer: usize) -> Seq<Seq<u8>> {
    commands(power_up()) + clearing(max_transfer) + commands(seq![CMD_DISPLAY_ON])
}

/// A decimal digit's character.
pub open spec fn digit(d: int) -> u8 {
    (0x30 + d) as u8
}

/// A temperature in tenths of a degree as text with one decimal.
pub open spec fn temperature_text(tenths: int) -> Seq<u8> {
    let magnitude = if tenths < 0 { -tenths } else { tenths };
    let whole = magnitude / 10;
    (if tenths < 0 {
        seq![0x2Du8]
    } else {
        Seq::empty()
    }) + (if whole >= 10 {
        seq![digit(whole / 10)]
    } else {
        Seq::empty()
    }) + seq![digit(whole % 10), 0x2Eu8, digit(magnitude % 10)]
}

/// The columns of a glyph that the font lacks.
pub const GLYPH_BLANK: [u8; 5] = [0x00, 0x00, 0x00, 0x00, 0x00];

/// The digits of a 5x7 font, a column per byte.
pub const GLYPH_DIGITS: [[u8; 5]; 10] = [
    [0x3E, 0x51, 0x49, 0x45, 0x3E],
    [0x00, 0x42, 0x7F, 0x40, 0x00],
    [0x42, 0x61, 0x51, 0x49, 0x46],
    [0x21, 0x41, 0x45, 0x4B, 0x31],
    [0x18, 0x14, 0x12, 0x7F, 0x10],
    [0x27, 0x45, 0x45, 0x45, 0x39],
    [0x3C, 0x4A, 0x49, 0x49, 0x30],
    [0x01, 0x71, 0x09, 0x05, 0x03],
    [0x36, 0x49, 0x49, 0x49, 0x36],
    [0x06, 0x49, 0x49, 0x29, 0x1E],
];
pub const GLYPH_MINUS: [u8; 5] = [0x08, 0x08, 0x08, 0x08, 0x08];
pub const GLYPH_DOT: [u8; 5] = [0x00, 0x60, 0x60, 0x00, 0x00];

/// A character's columns: the digits, the minus sign and the dot have some, all
/// else is blank.
pub open spec fn glyph(ch: u8) -> Seq<u8> {
    if 0x30 <= ch <= 0x39 {
        GLYPH_DIGITS@[ch - 0x30]@
    } else if ch == 0x2D {
        GLYPH_MINUS@
    } else if ch == 0x2E {
        GLYPH_DOT@
    } else {
        GLYPH_BLANK@
    }
}

/// A character's columns.
pub fn glyph_for(ch: u8) -> (g: [u8; 5])
    ensures
        g@ == glyph(ch),
{
    if ch >= 0x30 && ch <= 0x39 {
        GLYPH_DIGITS[(ch - 0x30) as usize]
    } else if ch == 0x2D {
        GLYPH_MINUS
    } else if ch == 0x2E {
        GLYPH_DOT
    } else {
        GLYPH_BLANK
    }
}

/// A line of text in columns, one blank column between glyphs.
pub open spec fn text_columns(text: Seq<u8>) -> Seq<u8>
    decreases text.len(),
{
    if text.len() == 0 {
        Seq::empty()
    } else if text.len() == 1 {
        glyph(text[0])
    } else {
        text_columns(text.drop_last()) + seq![0u8] + glyph(text.last())
    }
}

/// The transactions that show a temperature at the top left of a blank screen.
pub open spec fn showing(tenths: int, max_transfer: usize) -> Seq<Seq<u8>> {
    let text = temperature_text(tenths);
    clearing(max_transfer) + commands(
        seq![
            CMD_SET_PAGE_ADDR,
            0u8,
            0,
            CMD_SET_COL_ADDR,
            0,
            (text.len() * 6 - 2) as u8,
        ],
    ) + data_runs(text_columns(text), capacity(max_transfer))
}

/// Transactions by their bytes.
pub open spec fn views(list: Seq<Vec<u8>>) -> Seq<Seq<u8>> {
    list.map_values(|t: Vec<u8>| t@)
}

/// The display.
#[derive(Clone, Copy, Debug)]
pub struct Ssd1306 {
    pub width: u8,
    pub height: u8,
    pub pages: u8,
}

fn push(list: &mut Vec<Vec<u8>>, transaction: Vec<u8>)
    ensures
        views(final(list)@) == views(old(list)@).push(transaction@),
{
    list.push(transaction);
    assert(views(list@) =~= views(old(list)@).push(transaction@));
}

fn push_commands(list: &mut Vec<Vec<u8>>, bytes: &[u8])
    ensures
        views(final(list)@) == views(old(list)@) + commands(bytes@),
{
    let ghost before = views(list@);
    assert(before + commands(bytes@.take(0)) =~= before);
    for i in 0..bytes.len()
        invariant
            views(list@) == before + commands(bytes@.take(i as int)),
    {
        let transaction: Vec<u8> = vec![CONTROL_COMMAND, bytes[i]];
        assert(transaction@ =~= seq![CONTROL_COMMAND, bytes@[i as int]]);
        push(list, transaction);
        assert(views(list@) =~= before + commands(bytes@.take(i + 1)));
    }
    assert(bytes@.take(bytes@.len() as int) =~= bytes@);
}

/// The pixel bytes of one transaction on a bus that takes `max_transfer` bytes.
pub fn data_capacity(max_transfer: usize) -> (cap: usize)
    ensures
        cap == capacity(max_transfer),
        1 <= cap <= DATA_CHUNK,
{
    if max_transfer <= 2 {
        1
    } else if max_transfer - 1 > DATA_CHUNK {
        DATA_CHUNK
    } else {
        max_transfer - 1
    }
}

fn push_data(list: &mut Vec<Vec<u8>>, bytes: &[u8], max_transfer: usize)
    ensures
        views(final(list)@) == views(old(list)@) + data_runs(bytes@, capacity(max_transfer)),
{
    let cap: usize = data_capacity(max_transfer);
    let ghost before = views(list@);
    let mut from: usize = 0;
    assert(bytes@.skip(0) =~= bytes@);
    assert(before + data_runs(bytes@, cap as int) =~= views(list@) + data_runs(
        bytes@.skip(0),
        cap as int,
    ));
    while from < bytes.len()
        invariant
            1 <= cap <= DATA_CHUNK,
            from <= bytes@.len(),
            before + data_runs(bytes@, cap as int) == views(list@) + data_runs(
                bytes@.skip(from as int),
                cap as int,
            ),
        decreases bytes@.len() - from,
    {
        let end: usize = if bytes.len() - from > cap { from + cap } else { bytes.len() };
        let mut run: Vec<u8> = vec![CONTROL_DATA];
        let ghost rest = bytes@.skip(from as int);
        let ghost sent = views(list@);
        for i in from..end
            invariant
                from <= end <= bytes@.len(),
                run@ == seq![CONTROL_DATA] + bytes@.subrange(from as int, i as int),
        {
            run.push(bytes[i]);
            assert(run@ =~= seq![CONTROL_DATA] + bytes@.subrange(from as int, i + 1));
        }
        assert(bytes@.subrange(from as int, end as int) =~= rest.take(end - from));
        assert(rest.skip(end - from) =~= bytes@.skip(end as int));
        proof {
            if rest.len() <= cap {
                assert(rest.take(end - from) =~= rest);
                assert(data_runs(bytes@.skip(end as int), cap as int) =~= Seq::empty());
            }
        }
        push(list, run);
        assert(sent + data_runs(rest, cap as int) =~= views(list@) + data_runs(
            bytes@.skip(end as int),
            cap as int,
        ));
        from = end;
    }
    assert(data_runs(bytes@.skip(from as int), cap as int) =~= Seq::empty());
    assert(views(list@) =~= before + data_runs(bytes@, cap as int));
}

/// What is shown of a temperature in tenths of a degree: no more than 99.9 degrees
/// either side of zero.
pub open spec fn displayable(tenths: int) -> int {
    if tenths < -999 {
        -999
    } else if tenths > 999 {
        999
    } else {
        tenths
    }
}

/// Writes a temperature in tenths of a degree as text, held to what is displayable.
pub fn format_temp_chars(tenths: i32) -> (text: Vec<u8>)
    ensures
        text@ == temperature_text(displayable(tenths as int)),
        3 <= text@.len() <= 5,
{
    let held: i32 = if tenths < -999 {
        -999
    } else if tenths > 999 {
        999
    } else {
        tenths
    };
    let negative: bool = held < 0;
    let mag: i32 = if negative { -held } else { held };
    let whole: i32 = mag / 10;
    let mut text: Vec<u8> = Vec::new();
    if negative {
        text.push(0x2D);
    }
    if whole >= 10 {
        text.push(0x30 + (whole / 10) as u8);
    }
    text.push(0x30 + (whole % 10) as u8);
    text.push(0x2E);
    text.push(0x30 + (mag % 10) as u8);
    assert(text@ =~= temperature_text(displayable(tenths as int)));
    text
}

impl Ssd1306 {
    /// The panel that this driver serves.
    pub open spec fn wf(&self) -> bool {
        self.width == 128 && self.height == 64 && self.pages == 8
    }

    pub fn new() -> (display: Self)
        ensures
            display.wf(),
    {
        Ssd1306 { width: 128, height: 64, pages: 8 }
    }

    /// The transactions that initialise the display over a bus that takes
    /// `max_transfer` bytes at a time.
    pub fn init(&self, max_transfer: usize) -> (list: Vec<Vec<u8>>)
        requires
            self.wf(),
        ensures
            views(list@) == initialising(max_transfer),
    {
        let mut list: Vec<Vec<u8>> = Vec::new();
        let com_pins: u8 = if self.height == 64 { 0x12 } else { 0x02 };
        let bytes: [u8; 24] = [
            CMD_DISPLAY_OFF,
            CMD_SET_DISPLAY_CLOCK,
            0x80,
            CMD_SET_MUX,
            self.height - 1,
            CMD_SET_DISPLAY_OFFSET,
            0x00,
            CMD_SET_START_LINE_0,
            CMD_CHARGE_PUMP,
            0x14,
            CMD_MEMORY_MODE,
            0x00,
            CMD_SEG_REMAP,
            CMD_COM_SCAN_DEC,
            CMD_SET_COM_PINS,
            com_pins,
            CMD_SET_CONTRAST,
            0xCF,
            CMD_SET_PRECHARGE,
            0xF1,
            CMD_SET_VCOM_DETECT,
            0x40,
            CMD_DISPLAY_RAM,
            CMD_NORMAL_DISPLAY,
        ];
        assert(bytes@ =~= power_up());
        push_commands(&mut list, &bytes);
        self.push_clear(&mut list, max_transfer);
        let on: [u8; 1] = [CMD_DISPLAY_ON];
        assert(on@ =~= seq![CMD_DISPLAY_ON]);
        push_commands(&mut list, &on);
        assert(views(list@) =~= initialising(max_transfer));
        list
    }

    /// The transactions that blank the display.
    pub fn clear(&self, max_transfer: usize) -> (list: Vec<Vec<u8>>)
        requires
            self.wf(),
        ensures
            views(list@) == clearing(max_transfer),
    {
        let mut list: Vec<Vec<u8>> = Vec::new();
        self.push_clear(&mut list, max_transfer);
        assert(views(list@) =~= clearing(max_transfer));
        list
    }

    fn push_clear(&self, list: &mut Vec<Vec<u8>>, max_transfer: usize)
        requires
            self.wf(),
        ensures
            views(final(list)@) == views(old(list)@) + clearing(max_transfer),
    {
        let ghost before = views(list@);
        let bytes: [u8; 6] = [
            CMD_SET_COL_ADDR,
            0,
            self.width - 1,
            CMD_SET_PAGE_ADDR,
            0,
            self.pages - 1,
        ];
        assert(bytes@ =~= whole_screen());
        push_commands(list, &bytes);
        let total: usize = self.width as usize * self.pages as usize;
        let blank: Vec<u8> = crate::bus::zeros(total);
        assert(blank@ =~= repeated(0, 1024));
        push_data(list, blank.as_slice(), max_transfer);
        assert(views(list@) =~= before + clearing(max_transfer));
    }

    /// The transactions that show a temperature, given in tenths of a degree.
    pub fn print_temp(&self, tenths: i32, max_transfer: usize) -> (list: Vec<Vec<u8>>)
        requires
            self.wf(),
        ensures
            views(list@) == showing(displayable(tenths as int), max_transfer),
    {
        let mut list: Vec<Vec<u8>> = self.clear(max_transfer);
        let text: Vec<u8> = format_temp_chars(tenths);
        let len: usize = text.len();
        let total_cols: usize = len * 6 - 1;
        let end_col: usize = if total_cols < self.width as usize {
            total_cols - 1
        } else {
            self.width as usize - 1
        };
        let bytes: [u8; 6] = [CMD_SET_PAGE_ADDR, 0, 0, CMD_SET_COL_ADDR, 0, end_col as u8];
        assert(bytes@ =~= seq![
            CMD_SET_PAGE_ADDR,
            0u8,
            0,
            CMD_SET_COL_ADDR,
            0,
            (text@.len() * 6 - 2) as u8,
        ]);
        push_commands(&mut list, &bytes);
        let mut cols: Vec<u8> = Vec::new();
        assert(text@.take(0) =~= Seq::empty());
        for i in 0..len
            invariant
                len == text@.len(),
                cols@ == text_columns(text@.take(i as int)),
        {
            let g: [u8; 5] = glyph_for(text[i]);
            assert(text@.take(i + 1).drop_last() =~= text@.take(i as int));
            let ghost before = cols@;
            if i > 0 {
                cols.push(0);
            }
            cols.push(g[0]);
            cols.push(g[1]);
            cols.push(g[2]);
            cols.push(g[3]);
            cols.push(g[4]);
            assert(g@.len() == 5);
            assert(cols@ =~= text_columns(text@.take(i + 1)));
        }
        assert(text@.take(len as int) =~= text@);
        push_data(&mut list, cols.as_slice(), max_transfer);
        assert(views(list@) =~= showing(displayable(tenths as int), max_transfer));
        list
    }
}

/// The pixel bytes of a run of transactions.
pub open spec fn payload(runs: Seq<Seq<u8>>) -> Seq<u8>
    decreases runs.len(),
{
    if runs.len() == 0 {
        Seq::empty()
    } else {
        runs[0].skip(1) + payload(runs.skip(1))
    }
}

/// Batching loses nothing: the transactions carry the pixels in order, each
/// begins with the data control byte, and none is longer than the bus takes.
pub proof fn law_batching_keeps_the_pixels(bytes: Seq<u8>, max_transfer: usize)
    requires
        max_transfer >= 2,
    ensures
        payload(data_runs(bytes, capacity(max_transfer))) == bytes,
        forall|i: int|
            0 <= i < data_runs(bytes, capacity(max_transfer)).len() ==> {
                let run = #[trigger] data_runs(bytes, capacity(max_transfer))[i];
                1 < run.len() <= max_transfer && run.len() <= DATA_CHUNK + 1 && run[0]
                    == CONTROL_DATA
            },
    decreases bytes.len(),
{
    let cap = capacity(max_transfer);
    let runs = data_runs(bytes, cap);
    if bytes.len() == 0 {
        assert(payload(runs) =~= bytes);
    } else if bytes.len() <= cap {
        assert(runs.skip(1) =~= Seq::empty());
        assert(runs[0].skip(1) =~= bytes);
        assert(payload(runs) =~= bytes) by {
            reveal_with_fuel(payload, 2);
        }
    } else {
        law_batching_keeps_the_pixels(bytes.skip(cap), max_transfer);
        assert(runs.skip(1) =~= data_runs(bytes.skip(cap), cap));
        assert(runs[0].skip(1) =~= bytes.take(cap));
        assert(bytes.take(cap) + bytes.skip(cap) =~= bytes);
        assert forall|i: int| 0 <= i < runs.len() implies {
            let run = #[trigger] runs[i];
            1 < run.len() <= max_transfer && run.len() <= DATA_CHUNK + 1 && run[0] == CONTROL_DATA
        } by {
            if i > 0 {
                assert(runs[i] == data_runs(bytes.skip(cap), cap)[i - 1]);
            }
        }
    }
}

/// Different temperatures are shown as different texts.
pub proof fn law_temperatures_are_told_apart(a: int, b: int)
    requires
        -999 <= a <= 999,
        -999 <= b <= 999,
        temperature_text(a) == temperature_text(b),
    ensures
        a == b,
{
    let s = temperature_text(a);
    let t = temperature_text(b);
    let ma = if a < 0 { -a } else { a };
    let mb = if b < 0 { -b } else { b };
    assert(s[0] == 0x2D <==> a < 0);
    assert(t[0] == 0x2D <==> b < 0);
    assert(s.last() == digit(ma % 10));
    assert(t.last() == digit(mb % 10));
    assert(s[s.len() - 3] == digit(ma / 10 % 10));
    assert(t[t.len() - 3] == digit(mb / 10 % 10));
    if ma / 10 >= 10 {
        assert(s[s.len() - 4] == digit(ma / 10 / 10));
        assert(t[t.len() - 4] == digit(mb / 10 / 10));
    }
}

/// Exactly the digits, the minus sign and the dot have a visible glyph.
pub proof fn law_font_covers_temperatures(ch: u8)
    ensures
        glyph(ch).len() == 5,
        glyph(ch) == GLYPH_BLANK@ <==> !(0x30 <= ch <= 0x39 || ch == 0x2D || ch == 0x2E),
{
    assert(GLYPH_MINUS@[0] != GLYPH_BLANK@[0]);
    assert(GLYPH_DOT@[1] != GLYPH_BLANK@[1]);
    if 0x30 <= ch <= 0x39 {
        assert(GLYPH_DIGITS@[ch - 0x30]@[1] != GLYPH_BLANK@[1]);
    }
}

/// The number that a text with one decimal says, in tenths.
pub open spec fn said(text: Seq<u8>) -> int {
    let n = text.len() as int;
    let negative = n > 0 && text[0] == 0x2D;
    let tens = if n - 4 >= 0 && text[n - 4] != 0x2D { text[n - 4] - 0x30 } else { 0 };
    let tenths = 100 * tens + 10 * (text[n - 3] - 0x30) + (text[n - 1] - 0x30);
    if negative {
        -tenths
    } else {
        tenths
    }
}

/// The text of a temperature says it: a sign where it is below zero, no leading zero
/// but the one before the dot, a dot, one decimal.
pub proof fn law_a_text_says_its_temperature(tenths: int)
    requires
        -999 <= tenths <= 999,
    ensures
        ({
            let text = temperature_text(tenths);
            let n = text.len() as int;
            &&& said(text) == tenths
            &&& text[n - 2] == 0x2E
            &&& (text[0] == 0x2D) == (tenths < 0)
            &&& n == 3 + (if tenths < 0 { 1int } else { 0 }) + (if tenths <= -100 || tenths >= 100 {
                1int
            } else {
                0
            })
        }),
{
}

/// What is shown is the temperature, or the nearest that can be shown.
pub proof fn law_the_nearest_temperature_is_shown(tenths: int, other: int)
    requires
        -999 <= other <= 999,
    ensures
        -999 <= displayable(tenths) <= 999,
        ({
            let off = displayable(tenths) - tenths;
            let off_other = other - tenths;
            off * off <= off_other * off_other
        }),
{
    let d = displayable(tenths);
    let (a, b) = (d - tenths, other - tenths);
    if tenths < -999 {
        assert(0 <= a <= b);
    } else if tenths > 999 {
        assert(b <= a <= 0);
    } else {
        assert(a == 0);
    }
    assert(a * a <= b * b) by (nonlinear_arith)
        requires
            0 <= a <= b || b <= a <= 0 || a == 0,
    ;
}

/// A line of text is its glyphs side by side, six columns apart, a blank column between.
pub proof fn law_glyphs_stand_side_by_side(text: Seq<u8>, i: int, j: int)
    requires
        0 <= i < text.len(),
        0 <= j < 6,
    ensures
        text_columns(text).len() == 6 * text.len() - 1,
        j < 5 ==> text_columns(text)[6 * i + j] == glyph(text[i])[j],
        j == 5 && i + 1 < text.len() ==> text_columns(text)[6 * i + j] == 0,
    decreases text.len(),
{
    law_font_covers_temperatures(text[i]);
    law_font_covers_temperatures(text.last());
    if text.len() > 1 {
        let before = text.drop_last();
        if i < before.len() {
            law_glyphs_stand_side_by_side(before, i, j);
        } else {
            law_glyphs_stand_side_by_side(before, 0, 0);
        }
    }
}

/// No two characters that have a glyph share it.
pub proof fn law_glyphs_are_told_apart(a: u8, b: u8)
    requires
        glyph(a) != GLYPH_BLANK@,
        glyph(a) == glyph(b),
    ensures
        a == b,
{
    law_font_covers_temperatures(a);
    law_font_covers_temperatures(b);
    let (g, h) = (glyph(a), glyph(b));
    assert(g[0] == h[0] && g[1] == h[1] && g[2] == h[2] && g[3] == h[3] && g[4] == h[4]);
}

/// The display, as far as the transactions change it.
pub struct Oled {
    /// The command that waits for arguments, and those it has.
    pub command: int,
    pub given: Seq<u8>,
    /// The first and the last column and page that pixels go to, and how many bytes went
    /// there.
    pub columns: (int, int),
    pub pages: (int, int),
    pub written: int,
    /// The memory is filled along the rows.
    pub horizontal: bool,
    pub on: bool,
    /// Eight pixels at each page and column.
    pub memory: spec_fn(int, int) -> u8,
}

/// How many arguments a command waits for. The numbers are the controller's own.
pub open spec fn arguments(command: int) -> int {
    if command == 0x21 || command == 0x22 {
        2
    } else if command == 0x20 || command == 0x81 || command == 0x8D || command == 0xA8 || command
        == 0xD3 || command == 0xD5 || command == 0xD9 || command == 0xDA || command == 0xDB {
        1
    } else {
        0
    }
}

/// A command with all of its arguments takes effect.
pub open spec fn commanded(o: Oled, command: int, given: Seq<u8>) -> Oled {
    let o1 = Oled { command: -1, given: Seq::empty(), ..o };
    if command == 0x21 {
        Oled { columns: (given[0] as int, given[1] as int), written: 0, ..o1 }
    } else if command == 0x22 {
        Oled { pages: (given[0] as int, given[1] as int), written: 0, ..o1 }
    } else if command == 0x20 {
        Oled { horizontal: given[0] == 0, ..o1 }
    } else if command == 0xAE {
        Oled { on: false, ..o1 }
    } else if command == 0xAF {
        Oled { on: true, ..o1 }
    } else {
        o1
    }
}

/// The display after a byte of commands.
pub open spec fn told(o: Oled, byte: u8) -> Oled {
    let command = if o.command >= 0 { o.command } else { byte as int };
    let given = if o.command >= 0 { o.given.push(byte) } else { Seq::empty() };
    if given.len() >= arguments(command) {
        commanded(o, command, given)
    } else {
        Oled { command, given, ..o }
    }
}

/// The display after bytes of pixels, which fill the region along its rows.
pub open spec fn drawn(o: Oled, bytes: Seq<u8>) -> Oled {
    let width = o.columns.1 - o.columns.0 + 1;
    Oled {
        written: o.written + bytes.len(),
        memory: |page: int, column: int|
            {
                let at = (page - o.pages.0) * width + (column - o.columns.0) - o.written;
                if o.columns.0 <= column <= o.columns.1 && o.pages.0 <= page <= o.pages.1 && 0 <= at
                    < bytes.len() {
                    bytes[at]
                } else {
                    (o.memory)(page, column)
                }
            },
        ..o
    }
}

/// The display after a transaction: a control byte, and commands or pixels.
pub open spec fn oled_after(o: Oled, t: Seq<u8>) -> Oled {
    if t.len() == 2 && t[0] == 0x00 {
        told(o, t[1])
    } else if t.len() > 0 && t[0] == 0x40 {
        drawn(o, t.skip(1))
    } else {
        o
    }
}

/// The display after some transactions.
pub open spec fn oled_after_all(o: Oled, list: Seq<Seq<u8>>) -> Oled
    decreases list.len(),
{
    if list.len() == 0 {
        o
    } else {
        oled_after(oled_after_all(o, list.drop_last()), list.last())
    }
}

/// The display after bytes of commands.
pub open spec fn told_all(o: Oled, bytes: Seq<u8>) -> Oled
    decreases bytes.len(),
{
    if bytes.len() == 0 {
        o
    } else {
        told(told_all(o, bytes.drop_last()), bytes.last())
    }
}

proof fn lemma_oled_append(o: Oled, a: Seq<Seq<u8>>, b: Seq<Seq<u8>>)
    ensures
        oled_after_all(o, a + b) == oled_after_all(oled_after_all(o, a), b),
    decreases b.len(),
{
    if b.len() == 0 {
        assert(a + b =~= a);
    } else {
        assert((a + b).drop_last() =~= a + b.drop_last());
        lemma_oled_append(o, a, b.drop_last());
    }
}

proof fn lemma_oled_commands(o: Oled, bytes: Seq<u8>)
    ensures
        oled_after_all(o, commands(bytes)) == told_all(o, bytes),
    decreases bytes.len(),
{
    if bytes.len() > 0 {
        assert(commands(bytes).drop_last() =~= commands(bytes.drop_last()));
        lemma_oled_commands(o, bytes.drop_last());
    }
}

proof fn lemma_told_append(o: Oled, a: Seq<u8>, b: Seq<u8>)
    ensures
        told_all(o, a + b) == told_all(told_all(o, a), b),
    decreases b.len(),
{
    if b.len() == 0 {
        assert(a + b =~= a);
    } else {
        assert((a + b).drop_last() =~= a + b.drop_last());
        lemma_told_append(o, a, b.drop_last());
    }
}

/// A command and its arguments, told to a display that waits for none.
proof fn lemma_told_command(o: Oled, command: u8, given: Seq<u8>)
    requires
        o.command == -1,
        o.given == Seq::<u8>::empty(),
        given.len() == arguments(command as int),
    ensures
        told_all(o, seq![command] + given) == commanded(o, command as int, given),
{
    let bytes = seq![command] + given;
    reveal_with_fuel(told_all, 4);
    if given.len() == 0 {
        assert(bytes.drop_last() =~= Seq::empty());
        assert(given =~= Seq::empty());
    } else if given.len() == 1 {
        assert(bytes.drop_last().drop_last() =~= Seq::empty());
        assert(Seq::<u8>::empty().push(bytes[1]) =~= given);
    } else {
        assert(bytes.drop_last().drop_last().drop_last() =~= Seq::empty());
        assert(bytes.drop_last()[1] == given[0]);
        assert(Seq::<u8>::empty().push(given[0]).push(given[1]) =~= given);
    }
}

proof fn lemma_drawn_twice(o: Oled, a: Seq<u8>, b: Seq<u8>)
    ensures
        drawn(drawn(o, a), b).memory =~= drawn(o, a + b).memory,
        drawn(drawn(o, a), b) == drawn(o, a + b),
{
    let (x, y) = (drawn(drawn(o, a), b), drawn(o, a + b));
    assert forall|page: int, column: int|
        (#[trigger] (x.memory)(page, column)) == (y.memory)(page, column) by {
        let width = o.columns.1 - o.columns.0 + 1;
        let at = (page - o.pages.0) * width + (column - o.columns.0) - o.written;
        if a.len() <= at < a.len() + b.len() {
            assert((a + b)[at] == b[at - a.len()]);
        }
    }
    assert(x.memory =~= y.memory);
}

proof fn lemma_oled_data(o: Oled, bytes: Seq<u8>, cap: int)
    requires
        cap >= 1,
    ensures
        oled_after_all(o, data_runs(bytes, cap)) == drawn(o, bytes),
    decreases bytes.len(),
{
    let runs = data_runs(bytes, cap);
    let none = Seq::<Seq<u8>>::empty();
    assert(oled_after_all(o, none) == o);
    if bytes.len() == 0 {
        assert(drawn(o, bytes).memory =~= o.memory);
    } else if bytes.len() <= cap {
        assert(runs.drop_last() =~= none);
        assert(runs.last().skip(1) =~= bytes);
    } else {
        let first = seq![seq![CONTROL_DATA] + bytes.take(cap)];
        lemma_oled_append(o, first, data_runs(bytes.skip(cap), cap));
        assert(first.drop_last() =~= none);
        assert(first.last().skip(1) =~= bytes.take(cap));
        lemma_oled_data(drawn(o, bytes.take(cap)), bytes.skip(cap), cap);
        lemma_drawn_twice(o, bytes.take(cap), bytes.skip(cap));
        assert(bytes.take(cap) + bytes.skip(cap) =~= bytes);
    }
}

/// The display is between commands.
pub open spec fn at_rest(o: Oled) -> bool {
    o.command == -1 && o.given == Seq::<u8>::empty()
}

/// Clearing the display makes every pixel of it dark, however the bus cuts the
/// transactions.
pub proof fn law_clearing_darkens_everything(o: Oled, max_transfer: usize, page: int, column: int)
    requires
        at_rest(o),
        0 <= page < 8,
        0 <= column < 128,
    ensures
        ({
            let after = oled_after_all(o, clearing(max_transfer));
            &&& (after.memory)(page, column) == 0
            &&& at_rest(after)
            &&& after.on == o.on
            &&& after.horizontal == o.horizontal
        }),
{
    let bytes = whole_screen();
    let blank = repeated(0, 1024);
    lemma_oled_commands(o, bytes);
    let cols = seq![CMD_SET_COL_ADDR] + seq![0u8, 127];
    let pages = seq![CMD_SET_PAGE_ADDR] + seq![0u8, 7];
    assert(bytes =~= cols + pages);
    lemma_told_append(o, cols, pages);
    lemma_told_command(o, CMD_SET_COL_ADDR, seq![0u8, 127]);
    lemma_told_command(told_all(o, cols), CMD_SET_PAGE_ADDR, seq![0u8, 7]);
    let o1 = told_all(o, bytes);
    lemma_oled_data(o1, blank, capacity(max_transfer));
    lemma_oled_append(o, commands(bytes), data_runs(blank, capacity(max_transfer)));
    assert(0 <= page * 128 + column < 1024);
}

/// Showing a temperature puts its text at the top left and leaves the rest of the screen
/// dark.
pub proof fn law_a_temperature_is_shown(
    o: Oled,
    tenths: int,
    max_transfer: usize,
    page: int,
    column: int,
)
    requires
        at_rest(o),
        -999 <= tenths <= 999,
        0 <= page < 8,
        0 <= column < 128,
    ensures
        ({
            let after = oled_after_all(o, showing(tenths, max_transfer));
            let line = text_columns(temperature_text(tenths));
            &&& (after.memory)(page, column) == if page == 0 && column < line.len() {
                line[column]
            } else {
                0
            }
            &&& after.on == o.on
        }),
{
    let text = temperature_text(tenths);
    let line = text_columns(text);
    law_glyphs_stand_side_by_side(text, 0, 0);
    law_clearing_darkens_everything(o, max_transfer, page, column);
    let o1 = oled_after_all(o, clearing(max_transfer));
    let last = (text.len() * 6 - 2) as u8;
    let bytes = seq![CMD_SET_PAGE_ADDR, 0u8, 0, CMD_SET_COL_ADDR, 0, last];
    let pages = seq![CMD_SET_PAGE_ADDR] + seq![0u8, 0];
    let cols = seq![CMD_SET_COL_ADDR] + seq![0u8, last];
    assert(bytes =~= pages + cols);
    lemma_told_append(o1, pages, cols);
    lemma_told_command(o1, CMD_SET_PAGE_ADDR, seq![0u8, 0]);
    lemma_told_command(told_all(o1, pages), CMD_SET_COL_ADDR, seq![0u8, last]);
    lemma_oled_commands(o1, bytes);
    let o2 = told_all(o1, bytes);
    lemma_oled_data(o2, line, capacity(max_transfer));
    lemma_oled_append(o, clearing(max_transfer), commands(bytes));
    lemma_oled_append(
        o,
        clearing(max_transfer) + commands(bytes),
        data_runs(line, capacity(max_transfer)),
    );
    assert(last == line.len() - 1);
}

/// After its initialisation the display is on, dark, and filled along its rows.
pub proof fn law_a_display_comes_up_dark(o: Oled, max_transfer: usize, page: int, column: int)
    requires
        at_rest(o),
        0 <= page < 8,
        0 <= column < 128,
    ensures
        ({
            let after = oled_after_all(o, initialising(max_transfer));
            &&& (after.memory)(page, column) == 0
            &&& after.on
            &&& after.horizontal
        }),
{
    let none = Seq::<u8>::empty();
    let up = power_up();
    lemma_oled_commands(o, up);
    let b1 = seq![CMD_DISPLAY_OFF] + none;
    let b2 = seq![CMD_SET_DISPLAY_CLOCK] + seq![0x80u8];
    let b3 = seq![CMD_SET_MUX] + seq![63u8];
    let b4 = seq![CMD_SET_DISPLAY_OFFSET] + seq![0u8];
    let b5 = seq![CMD_SET_START_LINE_0] + none;
    let b6 = seq![CMD_CHARGE_PUMP] + seq![0x14u8];
    let b7 = seq![CMD_MEMORY_MODE] + seq![0u8];
    let b8 = seq![CMD_SEG_REMAP] + none;
    let b9 = seq![CMD_COM_SCAN_DEC] + none;
    let b10 = seq![CMD_SET_COM_PINS] + seq![0x12u8];
    let b11 = seq![CMD_SET_CONTRAST] + seq![0xCFu8];
    let b12 = seq![CMD_SET_PRECHARGE] + seq![0xF1u8];
    let b13 = seq![CMD_SET_VCOM_DETECT] + seq![0x40u8];
    let b14 = seq![CMD_DISPLAY_RAM] + none;
    let b15 = seq![CMD_NORMAL_DISPLAY] + none;
    let o1 = lemma_told_next(o, none, b1, CMD_DISPLAY_OFF, none);
    let o2 = lemma_told_next(o, none + b1, b2, CMD_SET_DISPLAY_CLOCK, seq![0x80u8]);
    let o3 = lemma_told_next(o, none + b1 + b2, b3, CMD_SET_MUX, seq![63u8]);
    let a3 = none + b1 + b2 + b3;
    let o4 = lemma_told_next(o, a3, b4, CMD_SET_DISPLAY_OFFSET, seq![0u8]);
    let o5 = lemma_told_next(o, a3 + b4, b5, CMD_SET_START_LINE_0, none);
    let o6 = lemma_told_next(o, a3 + b4 + b5, b6, CMD_CHARGE_PUMP, seq![0x14u8]);
    let a6 = a3 + b4 + b5 + b6;
    let o7 = lemma_told_next(o, a6, b7, CMD_MEMORY_MODE, seq![0u8]);
    let o8 = lemma_told_next(o, a6 + b7, b8, CMD_SEG_REMAP, none);
    let o9 = lemma_told_next(o, a6 + b7 + b8, b9, CMD_COM_SCAN_DEC, none);
    let a9 = a6 + b7 + b8 + b9;
    let o10 = lemma_told_next(o, a9, b10, CMD_SET_COM_PINS, seq![0x12u8]);
    let o11 = lemma_told_next(o, a9 + b10, b11, CMD_SET_CONTRAST, seq![0xCFu8]);
    let o12 = lemma_told_next(o, a9 + b10 + b11, b12, CMD_SET_PRECHARGE, seq![0xF1u8]);
    let a12 = a9 + b10 + b11 + b12;
    let o13 = lemma_told_next(o, a12, b13, CMD_SET_VCOM_DETECT, seq![0x40u8]);
    let o14 = lemma_told_next(o, a12 + b13, b14, CMD_DISPLAY_RAM, none);
    let o15 = lemma_told_next(o, a12 + b13 + b14, b15, CMD_NORMAL_DISPLAY, none);
    assert(up =~= a12 + b13 + b14 + b15);
    law_clearing_darkens_everything(o15, max_transfer, page, column);
    let cleared = oled_after_all(o15, clearing(max_transfer));
    lemma_oled_commands(cleared, seq![CMD_DISPLAY_ON]);
    lemma_told_command(cleared, CMD_DISPLAY_ON, none);
    assert(seq![CMD_DISPLAY_ON] + none =~= seq![CMD_DISPLAY_ON]);
    lemma_oled_append(o, commands(up), clearing(max_transfer));
    lemma_oled_append(
        o,
        commands(up) + clearing(max_transfer),
        commands(seq![CMD_DISPLAY_ON]),
    );
}

proof fn lemma_told_next(o: Oled, before: Seq<u8>, next: Seq<u8>, command: u8, given: Seq<u8>) -> (
    after: Oled)
    requires
        at_rest(told_all(o, before)),
        next == seq![command] + given,
        given.len() == arguments(command as int),
    ensures
        after == told_all(o, before + next),
        after == commanded(told_all(o, before), command as int, given),
        at_rest(after),
{
    lemma_told_append(o, before, next);
    lemma_told_command(told_all(o, before), command, given);
    told_all(o, before + next)
}

} // verus!
