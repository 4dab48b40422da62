//! ILI9342C, a TFT controller with 16-bit colour and no framebuffer: regions are
//! streamed.

use vstd::prelude::*;

verus! {

pub const CMD_SWRESET: u8 = 0x01;
pub const CMD_SLPOUT: u8 = 0x11;
pub const CMD_INVOFF: u8 = 0x20;
pub const CMD_INVON: u8 = 0x21;
pub const CMD_DISPON: u8 = 0x29;
pub const CMD_CASET: u8 = 0x2A;
pub const CMD_PASET: u8 = 0x2B;
pub const CMD_RAMWR: u8 = 0x2C;
pub const CMD_MADCTL: u8 = 0x36;
pub const CMD_COLMOD: u8 = 0x3A;
pub const CMD_NORON: u8 = 0x13;

/// 16 bits per pixel.
pub const COLMOD_16BIT: u8 = 0x55;

pub const MADCTL_MY: u8 = 0x80;
pub const MADCTL_MX: u8 = 0x40;
pub const MADCTL_MV: u8 = 0x20;
pub const MADCTL_BGR: u8 = 0x08;

/// Five bits of red, six of green, five of blue.
pub open spec fn packed_color(r: u8, g: u8, b: u8) -> int {
    r / 8 * 2048 + g / 4 * 32 + b / 8
}

/// Packs a colour of eight bits per channel.
pub fn rgb565(r: u8, g: u8, b: u8) -> (c: u16)
    ensures
        c == packed_color(r, g, b),
{
    (r / 8) as u16 * 2048 + (g / 4) as u16 * 32 + (b / 8) as u16
}

pub const BLACK: u16 = 0x0000;
pub const WHITE: u16 = 0xFFFF;
pub const RED: u16 = 0xF800;
pub const GREEN: u16 = 0x07E0;
pub const BLUE: u16 = 0x001F;
pub const YELLOW: u16 = 0xFFE0;
pub const CYAN: u16 = 0x07FF;
pub const MAGENTA: u16 = 0xF81F;
pub const ORANGE: u16 = 0xFD20;

/// The named colours are the packed ones.
pub proof fn law_named_colors_are_packed()
    ensures
        BLACK == packed_color(0, 0, 0),
        WHITE == packed_color(255, 255, 255),
        RED == packed_color(255, 0, 0),
        GREEN == packed_color(0, 255, 0),
        BLUE == packed_color(0, 0, 255),
        YELLOW == packed_color(255, 255, 0),
        CYAN == packed_color(0, 255, 255),
        MAGENTA == packed_color(255, 0, 255),
        ORANGE == packed_color(255, 165, 0),
{
}

/// Rotation clockwise from the panel's native landscape.
#[derive(Clone, Copy, Debug, PartialEq, Eq, Structural)]
pub enum Rotation {
    Deg0,
    Deg90,
    Deg180,
    Deg270,
}

/// Which end of a pixel comes first.
#[derive(Clone, Copy, Debug, PartialEq, Eq, Structural)]
pub enum ColorOrder {
    Rgb,
    Bgr,
}

/// What boards disagree about.
#[derive(Clone, Copy, Debug, PartialEq, Eq, Structural)]
pub struct Config {
    /// Before rotation.
    pub width: u16,
    pub height: u16,
    pub rotation: Rotation,
    pub color_order: ColorOrder,
    pub invert: bool,
}

/// The M5Stack Core2's panel.
pub open spec fn core2_config() -> Config {
    Config {
        width: 320,
        height: 240,
        rotation: Rotation::Deg0,
        color_order: ColorOrder::Bgr,
        invert: true,
    }
}

impl Config {
    /// The M5Stack Core2's panel.
    pub fn core2() -> (c: Self)
        ensures
            c == core2_config(),
    {
        Config {
            width: 320,
            height: 240,
            rotation: Rotation::Deg0,
            color_order: ColorOrder::Bgr,
            invert: true,
        }
    }
}

impl Default for Config {
    fn default() -> (c: Self)
        ensures
            c == core2_config(),
    {
        Config::core2()
    }
}

/// The axis bits of a rotation and the bit of a colour order.
pub open spec fn access_control(rotation: Rotation, order: ColorOrder) -> u8 {
    (match rotation {
        Rotation::Deg0 => 0u8,
        Rotation::Deg90 => MADCTL_MV | MADCTL_MX,
        Rotation::Deg180 => MADCTL_MX | MADCTL_MY,
        Rotation::Deg270 => MADCTL_MV | MADCTL_MY,
    }) | (match order {
        ColorOrder::Rgb => 0u8,
        ColorOrder::Bgr => MADCTL_BGR,
    })
}

/// The byte that sets a rotation and a colour order.
pub fn madctl(rotation: Rotation, order: ColorOrder) -> (b: u8)
    ensures
        b == access_control(rotation, order),
{
    let bits: u8 = match rotation {
        Rotation::Deg0 => 0,
        Rotation::Deg90 => MADCTL_MV | MADCTL_MX,
        Rotation::Deg180 => MADCTL_MX | MADCTL_MY,
        Rotation::Deg270 => MADCTL_MV | MADCTL_MY,
    };
    let order_bit: u8 = match order {
        ColorOrder::Rgb => 0,
        ColorOrder::Bgr => MADCTL_BGR,
    };
    bits | order_bit
}

/// Whether a rotation swaps width and height.
pub fn swaps_axes(rotation: Rotation) -> (b: bool)
    ensures
        b == (rotation is Deg90 || rotation is Deg270),
{
    matches!(rotation, Rotation::Deg90 | Rotation::Deg270)
}

/// Why a draw was refused.
#[derive(Clone, Copy, Debug, PartialEq, Eq, Structural)]
pub enum DisplayError {
    /// It runs off the visible area.
    OutOfBounds,
    /// The pixels are not as many as the region's.
    SizeMismatch,
}

/// One thing to do on the display's interface. A list of them is performed in
/// order, up to the first that fails.
#[derive(Debug, PartialEq, Eq)]
pub enum DisplayOp {
    /// Assert or release the reset line.
    Reset(bool),
    DelayMs(u32),
    /// Open and close a transaction.
    Start,
    End,
    Command(u8),
    Data(Vec<u8>),
    /// Send one colour this many times.
    Fill { color: u16, count: usize },
    /// Send the caller's pixels.
    Pixels,
}

/// A [`DisplayOp`] with its data as a sequence.
pub enum DisplayOpView {
    Reset(bool),
    DelayMs(u32),
    Start,
    End,
    Command(u8),
    Data(Seq<u8>),
    Fill { color: u16, count: usize },
    Pixels,
}

impl View for DisplayOp {
    type V = DisplayOpView;

    open spec fn view(&self) -> DisplayOpView {
        match *self {
            DisplayOp::Reset(on) => DisplayOpView::Reset(on),
            DisplayOp::DelayMs(ms) => DisplayOpView::DelayMs(ms),
            DisplayOp::Start => DisplayOpView::Start,
            DisplayOp::End => DisplayOpView::End,
            DisplayOp::Command(cmd) => DisplayOpView::Command(cmd),
            DisplayOp::Data(bytes) => DisplayOpView::Data(bytes@),
            DisplayOp::Fill { color, count } => DisplayOpView::Fill { color, count },
            DisplayOp::Pixels => DisplayOpView::Pixels,
        }
    }
}

/// The operations of a list, each by its view.
pub open spec fn op_views(ops: Seq<DisplayOp>) -> Seq<DisplayOpView> {
    ops.map_values(|op: DisplayOp| op@)
}

/// A command in a transaction of its own.
pub open spec fn command(cmd: u8, args: Seq<u8>) -> Seq<DisplayOpView> {
    if args.len() == 0 {
        seq![DisplayOpView::Start, DisplayOpView::Command(cmd), DisplayOpView::End]
    } else {
        seq![
            DisplayOpView::Start,
            DisplayOpView::Command(cmd),
            DisplayOpView::Data(args),
            DisplayOpView::End,
        ]
    }
}

/// Two words, high bytes first.
pub open spec fn span(first: int, last: int) -> Seq<u8> {
    seq![
        (first / 256) as u8,
        (first % 256) as u8,
        (last / 256) as u8,
        (last % 256) as u8,
    ]
}

/// Opens a transaction, selects the columns and rows of a region, both ends
/// included, and leaves the controller expecting its pixels.
pub open spec fn window(x: u16, y: u16, w: u16, h: u16) -> Seq<DisplayOpView> {
    seq![
        DisplayOpView::Start,
        DisplayOpView::Command(CMD_CASET),
        DisplayOpView::Data(span(x as int, x + w - 1)),
        DisplayOpView::Command(CMD_PASET),
        DisplayOpView::Data(span(y as int, y + h - 1)),
        DisplayOpView::Command(CMD_RAMWR),
    ]
}

/// Fills a rectangle with one colour; an empty one is no work.
pub open spec fn filling(x: u16, y: u16, w: u16, h: u16, color: u16) -> Seq<DisplayOpView> {
    if w == 0 || h == 0 {
        Seq::empty()
    } else {
        window(x, y, w, h) + seq![
            DisplayOpView::Fill { color, count: (w * h) as usize },
            DisplayOpView::End,
        ]
    }
}

/// Sends the caller's pixels to a rectangle; an empty one is no work.
pub open spec fn copying(x: u16, y: u16, w: u16, h: u16) -> Seq<DisplayOpView> {
    if w == 0 || h == 0 {
        Seq::empty()
    } else {
        window(x, y, w, h) + seq![DisplayOpView::Pixels, DisplayOpView::End]
    }
}

/// The panel's bring-up: a pulse on the reset line, a reset by command, out of
/// sleep, the pixel format, orientation and inversion, then the display on.
pub open spec fn bring_up(cfg: Config) -> Seq<DisplayOpView> {
    seq![
        DisplayOpView::Reset(true),
        DisplayOpView::DelayMs(10),
        DisplayOpView::Reset(false),
        DisplayOpView::DelayMs(120),
    ] + command(CMD_SWRESET, Seq::empty()) + seq![DisplayOpView::DelayMs(150)] + command(
        CMD_SLPOUT,
        Seq::empty(),
    ) + seq![DisplayOpView::DelayMs(120)] + command(CMD_COLMOD, seq![COLMOD_16BIT]) + command(
        CMD_MADCTL,
        seq![access_control(cfg.rotation, cfg.color_order)],
    ) + command(
        if cfg.invert {
            CMD_INVON
        } else {
            CMD_INVOFF
        },
        Seq::empty(),
    ) + command(CMD_NORON, Seq::empty()) + seq![DisplayOpView::DelayMs(10)] + command(
        CMD_DISPON,
        Seq::empty(),
    ) + seq![DisplayOpView::DelayMs(10)]
}

/// The panel.
pub struct Ili9342c {
    pub cfg: Config,
    /// After rotation.
    pub width: u16,
    pub height: u16,
}

fn push(ops: &mut Vec<DisplayOp>, op: DisplayOp)
    ensures
        op_views(final(ops)@) == op_views(old(ops)@).push(op@),
{
    ops.push(op);
    assert(op_views(ops@) =~= op_views(old(ops)@).push(op@));
}

fn write_command(ops: &mut Vec<DisplayOp>, cmd: u8, args: Vec<u8>)
    ensures
        op_views(final(ops)@) == op_views(old(ops)@) + command(cmd, args@),
{
    let ghost before = op_views(ops@);
    push(ops, DisplayOp::Start);
    push(ops, DisplayOp::Command(cmd));
    let ghost bytes = args@;
    if args.len() > 0 {
        push(ops, DisplayOp::Data(args));
    }
    push(ops, DisplayOp::End);
    assert(op_views(ops@) =~= before + command(cmd, bytes));
}

fn span_bytes(first: u16, last: u16) -> (bytes: Vec<u8>)
    ensures
        bytes@ == span(first as int, last as int),
{
    let bytes: Vec<u8> = vec![
        (first / 256) as u8,
        (first % 256) as u8,
        (last / 256) as u8,
        (last % 256) as u8,
    ];
    assert(bytes@ =~= span(first as int, last as int));
    bytes
}

fn byte(b: u8) -> (bytes: Vec<u8>)
    ensures
        bytes@ == seq![b],
{
    let bytes: Vec<u8> = vec![b];
    assert(bytes@ =~= seq![b]);
    bytes
}

impl Ili9342c {
    /// The visible size after rotation.
    pub open spec fn wf(&self) -> bool {
        if self.cfg.rotation is Deg90 || self.cfg.rotation is Deg270 {
            self.width == self.cfg.height && self.height == self.cfg.width
        } else {
            self.width == self.cfg.width && self.height == self.cfg.height
        }
    }

    /// The region lies in the visible area.
    pub open spec fn visible(&self, x: u16, y: u16, w: u16, h: u16) -> bool {
        x + w <= self.width && y + h <= self.height
    }

    pub fn new(cfg: Config) -> (lcd: Self)
        ensures
            lcd.cfg == cfg,
            lcd.wf(),
    {
        if swaps_axes(cfg.rotation) {
            Ili9342c { cfg, width: cfg.height, height: cfg.width }
        } else {
            Ili9342c { cfg, width: cfg.width, height: cfg.height }
        }
    }

    /// The visible width.
    pub fn width(&self) -> (w: u16)
        ensures
            w == self.width,
    {
        self.width
    }

    /// The visible height.
    pub fn height(&self) -> (h: u16)
        ensures
            h == self.height,
    {
        self.height
    }

    /// Resets and initialises the panel.
    pub fn init(&self) -> (ops: Vec<DisplayOp>)
        ensures
            op_views(ops@) == bring_up(self.cfg),
    {
        let mut ops: Vec<DisplayOp> = Vec::new();
        push(&mut ops, DisplayOp::Reset(true));
        push(&mut ops, DisplayOp::DelayMs(10));
        push(&mut ops, DisplayOp::Reset(false));
        push(&mut ops, DisplayOp::DelayMs(120));
        write_command(&mut ops, CMD_SWRESET, Vec::new());
        push(&mut ops, DisplayOp::DelayMs(150));
        write_command(&mut ops, CMD_SLPOUT, Vec::new());
        push(&mut ops, DisplayOp::DelayMs(120));
        write_command(&mut ops, CMD_COLMOD, byte(COLMOD_16BIT));
        write_command(&mut ops, CMD_MADCTL, byte(madctl(self.cfg.rotation, self.cfg.color_order)));
        write_command(&mut ops, if self.cfg.invert { CMD_INVON } else { CMD_INVOFF }, Vec::new());
        write_command(&mut ops, CMD_NORON, Vec::new());
        push(&mut ops, DisplayOp::DelayMs(10));
        write_command(&mut ops, CMD_DISPON, Vec::new());
        push(&mut ops, DisplayOp::DelayMs(10));
        assert(op_views(ops@) =~= bring_up(self.cfg));
        ops
    }

    /// Fills the whole screen with one colour.
    pub fn fill_screen(&self, color: u16) -> (r: Result<Vec<DisplayOp>, DisplayError>)
        ensures
            r is Ok,
            op_views(r->Ok_0@) == filling(0, 0, self.width, self.height, color),
    {
        self.fill_rect(0, 0, self.width, self.height, color)
    }

    /// Fills a rectangle with one colour; an empty one is no work.
    pub fn fill_rect(&self, x: u16, y: u16, w: u16, h: u16, color: u16) -> (r: Result<
        Vec<DisplayOp>,
        DisplayError,
    >)
        ensures
            r is Err <==> w != 0 && h != 0 && !self.visible(x, y, w, h),
            r matches Err(e) ==> e is OutOfBounds,
            r matches Ok(ops) ==> op_views(ops@) == filling(x, y, w, h, color),
    {
        let mut ops: Vec<DisplayOp> = Vec::new();
        if w == 0 || h == 0 {
            assert(op_views(ops@) =~= Seq::empty());
            return Ok(ops);
        }
        if !self.in_bounds(x, y, w, h) {
            return Err(DisplayError::OutOfBounds);
        }
        set_window(&mut ops, x, y, w, h);
        proof {
            lemma_area(w, h);
        }
        push(&mut ops, DisplayOp::Fill { color, count: w as usize * h as usize });
        push(&mut ops, DisplayOp::End);
        assert(op_views(ops@) =~= window(x, y, w, h) + seq![
            DisplayOpView::Fill { color, count: (w * h) as usize },
            DisplayOpView::End,
        ]);
        Ok(ops)
    }

    /// Copies pixels into a rectangle, row by row from the top left.
    pub fn blit(&self, x: u16, y: u16, w: u16, h: u16, pixels: &[u16]) -> (r: Result<
        Vec<DisplayOp>,
        DisplayError,
    >)
        ensures
            r matches Err(e) ==> e == (if w * h != pixels@.len() {
                DisplayError::SizeMismatch
            } else {
                DisplayError::OutOfBounds
            }),
            r is Err <==> w * h != pixels@.len() || w != 0 && h != 0 && !self.visible(x, y, w, h),
            r matches Ok(ops) ==> op_views(ops@) == copying(x, y, w, h),
    {
        let mut ops: Vec<DisplayOp> = Vec::new();
        proof {
            lemma_area(w, h);
        }
        if w as usize * h as usize != pixels.len() {
            return Err(DisplayError::SizeMismatch);
        }
        if w == 0 || h == 0 {
            assert(op_views(ops@) =~= Seq::empty());
            return Ok(ops);
        }
        if !self.in_bounds(x, y, w, h) {
            return Err(DisplayError::OutOfBounds);
        }
        set_window(&mut ops, x, y, w, h);
        push(&mut ops, DisplayOp::Pixels);
        push(&mut ops, DisplayOp::End);
        assert(op_views(ops@) =~= window(x, y, w, h) + seq![
            DisplayOpView::Pixels,
            DisplayOpView::End,
        ]);
        Ok(ops)
    }

    /// Sets one pixel.
    pub fn draw_pixel(&self, x: u16, y: u16, color: u16) -> (r: Result<
        Vec<DisplayOp>,
        DisplayError,
    >)
        ensures
            r is Err <==> !(x < self.width && y < self.height),
            r matches Err(e) ==> e is OutOfBounds,
            r matches Ok(ops) ==> op_views(ops@) == filling(x, y, 1, 1, color),
    {
        self.fill_rect(x, y, 1, 1, color)
    }

    fn in_bounds(&self, x: u16, y: u16, w: u16, h: u16) -> (b: bool)
        ensures
            b == self.visible(x, y, w, h),
    {
        x as u32 + w as u32 <= self.width as u32 && y as u32 + h as u32 <= self.height as u32
    }
}

proof fn lemma_area(w: u16, h: u16)
    ensures
        0 <= w * h <= 0xFFFE_0001,
{
    assert(0 <= w * h <= 0xFFFE_0001) by (nonlinear_arith)
        requires
            0 <= w <= 0xFFFF,
            0 <= h <= 0xFFFF,
    ;
}

fn set_window(ops: &mut Vec<DisplayOp>, x: u16, y: u16, w: u16, h: u16)
    requires
        w > 0,
        h > 0,
        x + w <= 0xFFFF,
        y + h <= 0xFFFF,
        op_views(old(ops)@).len() == 0,
    ensures
        op_views(final(ops)@) == window(x, y, w, h),
{
    push(ops, DisplayOp::Start);
    push(ops, DisplayOp::Command(CMD_CASET));
    push(ops, DisplayOp::Data(span_bytes(x, x + w - 1)));
    push(ops, DisplayOp::Command(CMD_PASET));
    push(ops, DisplayOp::Data(span_bytes(y, y + h - 1)));
    push(ops, DisplayOp::Command(CMD_RAMWR));
    assert(op_views(ops@) =~= window(x, y, w, h));
}

/// A panel, as far as the commands change it.
pub struct Panel {
    /// The command that data belong to.
    pub command: int,
    /// The first and the last column and row that are written.
    pub columns: (int, int),
    pub rows: (int, int),
    /// Bits of a pixel's format, and the orientation byte.
    pub format: int,
    pub orientation: u8,
    pub inverted: bool,
    pub asleep: bool,
    pub shown: bool,
    /// The colour at each column and row.
    pub pixels: spec_fn(int, int) -> u16,
}

/// The panel's pixels after a run of them went to the region: from its top left, row by
/// row.
pub open spec fn streamed(p: Panel, run: Seq<u16>) -> spec_fn(int, int) -> u16 {
    |x: int, y: int|
        {
            let width = p.columns.1 - p.columns.0 + 1;
            let at = (y - p.rows.0) * width + (x - p.columns.0);
            if p.columns.0 <= x <= p.columns.1 && p.rows.0 <= y <= p.rows.1 && at < run.len() {
                run[at]
            } else {
                (p.pixels)(x, y)
            }
        }
}

/// The panel after one operation, where the caller's pixels are `source`. The numbers are
/// the controller's own.
pub open spec fn panel_after(p: Panel, op: DisplayOpView, source: Seq<u16>) -> Panel {
    match op {
        DisplayOpView::Reset(on) => Panel { asleep: true, shown: false, inverted: false, ..p },
        DisplayOpView::DelayMs(ms) => p,
        DisplayOpView::Start => p,
        DisplayOpView::End => Panel { command: 0, ..p },
        DisplayOpView::Command(c) => {
            let p1 = Panel { command: c as int, ..p };
            if c == 0x01 {
                Panel { asleep: true, shown: false, inverted: false, ..p1 }
            } else if c == 0x11 {
                Panel { asleep: false, ..p1 }
            } else if c == 0x20 {
                Panel { inverted: false, ..p1 }
            } else if c == 0x21 {
                Panel { inverted: true, ..p1 }
            } else if c == 0x29 {
                Panel { shown: true, ..p1 }
            } else {
                p1
            }
        },
        DisplayOpView::Data(b) => if p.command == 0x2A && b.len() == 4 {
            Panel { columns: (256 * b[0] + b[1], 256 * b[2] + b[3]), ..p }
        } else if p.command == 0x2B && b.len() == 4 {
            Panel { rows: (256 * b[0] + b[1], 256 * b[2] + b[3]), ..p }
        } else if p.command == 0x3A && b.len() == 1 {
            Panel { format: b[0] as int, ..p }
        } else if p.command == 0x36 && b.len() == 1 {
            Panel { orientation: b[0], ..p }
        } else {
            p
        },
        DisplayOpView::Fill { color, count } => if p.command == 0x2C {
            Panel { pixels: streamed(p, Seq::new(count as nat, |i: int| color)), ..p }
        } else {
            p
        },
        DisplayOpView::Pixels => if p.command == 0x2C {
            Panel { pixels: streamed(p, source), ..p }
        } else {
            p
        },
    }
}

/// The panel after a list of operations.
pub open spec fn panel_after_all(p: Panel, ops: Seq<DisplayOpView>, source: Seq<u16>) -> Panel
    decreases ops.len(),
{
    if ops.len() == 0 {
        p
    } else {
        panel_after(panel_after_all(p, ops.drop_last(), source), ops.last(), source)
    }
}

proof fn lemma_panel_append(
    p: Panel,
    a: Seq<DisplayOpView>,
    b: Seq<DisplayOpView>,
    source: Seq<u16>,
)
    ensures
        panel_after_all(p, a + b, source) == panel_after_all(
            panel_after_all(p, a, source),
            b,
            source,
        ),
    decreases b.len(),
{
    if b.len() == 0 {
        assert(a + b =~= a);
    } else {
        assert((a + b).drop_last() =~= a + b.drop_last());
        lemma_panel_append(p, a, b.drop_last(), source);
    }
}

proof fn lemma_panel_push(p: Panel, a: Seq<DisplayOpView>, op: DisplayOpView, source: Seq<u16>)
    ensures
        panel_after_all(p, a.push(op), source) == panel_after(
            panel_after_all(p, a, source),
            op,
            source,
        ),
{
    assert(a.push(op).drop_last() =~= a);
}

/// The bytes that name a region decode to its first and its last column or row.
proof fn lemma_span_decodes(first: int, last: int)
    requires
        0 <= first <= 0xFFFF,
        0 <= last <= 0xFFFF,
    ensures
        span(first, last).len() == 4,
        256 * span(first, last)[0] + span(first, last)[1] == first,
        256 * span(first, last)[2] + span(first, last)[3] == last,
{
}

/// Naming a region makes the controller write exactly its columns and rows: the address
/// bytes are the region's corners.
pub proof fn law_a_window_is_the_region(
    p: Panel,
    x: u16,
    y: u16,
    w: u16,
    h: u16,
    source: Seq<u16>,
)
    requires
        w > 0,
        h > 0,
        x + w <= 0xFFFF,
        y + h <= 0xFFFF,
    ensures
        panel_after_all(p, window(x, y, w, h), source) == (Panel {
            command: 0x2C,
            columns: (x as int, x + w - 1),
            rows: (y as int, y + h - 1),
            ..p
        }),
{
    lemma_span_decodes(x as int, x + w - 1);
    lemma_span_decodes(y as int, y + h - 1);
    let ops = window(x, y, w, h);
    let g0 = Seq::<DisplayOpView>::empty();
    assert(ops =~= g0.push(ops[0]).push(ops[1]).push(ops[2]).push(ops[3]).push(ops[4]).push(
        ops[5],
    ));
    lemma_panel_push(p, g0, ops[0], source);
    lemma_panel_push(p, g0.push(ops[0]), ops[1], source);
    lemma_panel_push(p, g0.push(ops[0]).push(ops[1]), ops[2], source);
    lemma_panel_push(p, g0.push(ops[0]).push(ops[1]).push(ops[2]), ops[3], source);
    lemma_panel_push(p, g0.push(ops[0]).push(ops[1]).push(ops[2]).push(ops[3]), ops[4], source);
    lemma_panel_push(
        p,
        g0.push(ops[0]).push(ops[1]).push(ops[2]).push(ops[3]).push(ops[4]),
        ops[5],
        source,
    );
}

proof fn lemma_at(w: int, h: int, i: int, j: int)
    by (nonlinear_arith)
    requires
        0 <= i < w,
        0 <= j < h,
    ensures
        0 <= j * w + i < w * h,
{
}

/// Filling a rectangle that is visible colours every pixel of it and no other.
pub proof fn law_a_fill_colours_the_rectangle(
    p: Panel,
    x: u16,
    y: u16,
    w: u16,
    h: u16,
    color: u16,
    source: Seq<u16>,
    px: int,
    py: int,
)
    requires
        x + w <= 0xFFFF,
        y + h <= 0xFFFF,
    ensures
        ({
            let after = panel_after_all(p, filling(x, y, w, h, color), source);
            (after.pixels)(px, py) == if x <= px < x + w && y <= py < y + h {
                color
            } else {
                (p.pixels)(px, py)
            }
        }),
{
    if w > 0 && h > 0 {
        lemma_area(w, h);
        law_a_window_is_the_region(p, x, y, w, h, source);
        let open = window(x, y, w, h);
        let fill = DisplayOpView::Fill { color, count: (w * h) as usize };
        assert(filling(x, y, w, h, color) =~= open.push(fill).push(DisplayOpView::End));
        lemma_panel_push(p, open, fill, source);
        lemma_panel_push(p, open.push(fill), DisplayOpView::End, source);
        if x <= px < x + w && y <= py < y + h {
            lemma_at(w as int, h as int, px - x, py - y);
        }
    }
}

/// Copying pixels into a rectangle puts each where it belongs, row by row from the top
/// left, and touches no other.
pub proof fn law_a_copy_puts_each_pixel_in_its_place(
    p: Panel,
    x: u16,
    y: u16,
    w: u16,
    h: u16,
    source: Seq<u16>,
    px: int,
    py: int,
)
    requires
        x + w <= 0xFFFF,
        y + h <= 0xFFFF,
        source.len() == w * h,
    ensures
        ({
            let after = panel_after_all(p, copying(x, y, w, h), source);
            (after.pixels)(px, py) == if x <= px < x + w && y <= py < y + h {
                source[(py - y) * w + (px - x)]
            } else {
                (p.pixels)(px, py)
            }
        }),
{
    if w > 0 && h > 0 {
        law_a_window_is_the_region(p, x, y, w, h, source);
        let open = window(x, y, w, h);
        assert(copying(x, y, w, h) =~= open.push(DisplayOpView::Pixels).push(DisplayOpView::End));
        lemma_panel_push(p, open, DisplayOpView::Pixels, source);
        lemma_panel_push(p, open.push(DisplayOpView::Pixels), DisplayOpView::End, source);
        if x <= px < x + w && y <= py < y + h {
            lemma_at(w as int, h as int, px - x, py - y);
        }
    }
}

proof fn lemma_panel_command(p: Panel, before: Seq<DisplayOpView>, cmd: u8, args: Seq<u8>)
    requires
        args.len() <= 1,
    ensures
        ({
            let none = Seq::<u16>::empty();
            let q = panel_after_all(p, before, none);
            let named = panel_after(q, DisplayOpView::Command(cmd), none);
            panel_after_all(p, before + command(cmd, args), none) == (Panel {
                command: 0,
                ..if args.len() == 0 {
                    named
                } else {
                    panel_after(named, DisplayOpView::Data(args), none)
                }
            })
        }),
{
    let none = Seq::<u16>::empty();
    let c = command(cmd, args);
    let a1 = before.push(DisplayOpView::Start);
    let a2 = a1.push(DisplayOpView::Command(cmd));
    lemma_panel_push(p, before, DisplayOpView::Start, none);
    lemma_panel_push(p, a1, DisplayOpView::Command(cmd), none);
    if args.len() == 0 {
        lemma_panel_push(p, a2, DisplayOpView::End, none);
        assert(before + c =~= a2.push(DisplayOpView::End));
    } else {
        let a3 = a2.push(DisplayOpView::Data(args));
        lemma_panel_push(p, a2, DisplayOpView::Data(args), none);
        lemma_panel_push(p, a3, DisplayOpView::End, none);
        assert(before + c =~= a3.push(DisplayOpView::End));
    }
}

/// After its bring-up the panel is awake and shows what it holds, sixteen bits to a
/// pixel, turned and inverted as the board says.
pub proof fn law_a_panel_comes_up_as_configured(p: Panel, cfg: Config)
    ensures
        ({
            let up = panel_after_all(p, bring_up(cfg), Seq::empty());
            &&& !up.asleep
            &&& up.shown
            &&& up.format == 0x55
            &&& up.orientation == access_control(cfg.rotation, cfg.color_order)
            &&& up.inverted == cfg.invert
        }),
{
    let none = Seq::<u16>::empty();
    let no_args = Seq::<u8>::empty();
    let b0 = Seq::<DisplayOpView>::empty();
    let b1 = b0.push(DisplayOpView::Reset(true));
    let b2 = b1.push(DisplayOpView::DelayMs(10));
    let b3 = b2.push(DisplayOpView::Reset(false));
    let b4 = b3.push(DisplayOpView::DelayMs(120));
    lemma_panel_push(p, b0, DisplayOpView::Reset(true), none);
    lemma_panel_push(p, b1, DisplayOpView::DelayMs(10), none);
    lemma_panel_push(p, b2, DisplayOpView::Reset(false), none);
    lemma_panel_push(p, b3, DisplayOpView::DelayMs(120), none);
    let c1 = b4 + command(CMD_SWRESET, no_args);
    lemma_panel_command(p, b4, CMD_SWRESET, no_args);
    let c2 = c1.push(DisplayOpView::DelayMs(150));
    lemma_panel_push(p, c1, DisplayOpView::DelayMs(150), none);
    let c3 = c2 + command(CMD_SLPOUT, no_args);
    lemma_panel_command(p, c2, CMD_SLPOUT, no_args);
    let c4 = c3.push(DisplayOpView::DelayMs(120));
    lemma_panel_push(p, c3, DisplayOpView::DelayMs(120), none);
    let d1 = c4 + command(CMD_COLMOD, seq![COLMOD_16BIT]);
    lemma_panel_command(p, c4, CMD_COLMOD, seq![COLMOD_16BIT]);
    let turned = seq![access_control(cfg.rotation, cfg.color_order)];
    let d2 = d1 + command(CMD_MADCTL, turned);
    lemma_panel_command(p, d1, CMD_MADCTL, turned);
    let inversion = if cfg.invert { CMD_INVON } else { CMD_INVOFF };
    let d3 = d2 + command(inversion, no_args);
    lemma_panel_command(p, d2, inversion, no_args);
    let d4 = d3 + command(CMD_NORON, no_args);
    lemma_panel_command(p, d3, CMD_NORON, no_args);
    let e1 = d4.push(DisplayOpView::DelayMs(10));
    lemma_panel_push(p, d4, DisplayOpView::DelayMs(10), none);
    let e2 = e1 + command(CMD_DISPON, no_args);
    lemma_panel_command(p, e1, CMD_DISPON, no_args);
    let e3 = e2.push(DisplayOpView::DelayMs(10));
    lemma_panel_push(p, e2, DisplayOpView::DelayMs(10), none);
    assert(bring_up(cfg) =~= e3);
}

proof fn lemma_orientation()
    by (bit_vector)
    ensures
        0u8 & 0x20 == 0 && 0u8 & 0x40 == 0 && 0u8 & 0x80 == 0 && 0u8 & 0x08 == 0,
        (0u8 | 0u8) & 0x20 == 0 && (0u8 | 0u8) & 0x40 == 0 && (0u8 | 0u8) & 0x80 == 0 && (0u8
            | 0u8) & 0x08 == 0,
        (0u8 | 0x08u8) & 0x20 == 0 && (0u8 | 0x08u8) & 0x40 == 0 && (0u8 | 0x08u8) & 0x80 == 0 && (
        0u8 | 0x08u8) & 0x08 != 0,
        ((0x20u8 | 0x40u8) | 0u8) & 0x20 != 0 && ((0x20u8 | 0x40u8) | 0u8) & 0x40 != 0 && ((0x20u8
            | 0x40u8) | 0u8) & 0x80 == 0 && ((0x20u8 | 0x40u8) | 0u8) & 0x08 == 0,
        ((0x20u8 | 0x40u8) | 0x08u8) & 0x20 != 0 && ((0x20u8 | 0x40u8) | 0x08u8) & 0x40 != 0 && ((
        0x20u8 | 0x40u8) | 0x08u8) & 0x80 == 0 && ((0x20u8 | 0x40u8) | 0x08u8) & 0x08 != 0,
        ((0x40u8 | 0x80u8) | 0u8) & 0x20 == 0 && ((0x40u8 | 0x80u8) | 0u8) & 0x40 != 0 && ((0x40u8
            | 0x80u8) | 0u8) & 0x80 != 0 && ((0x40u8 | 0x80u8) | 0u8) & 0x08 == 0,
        ((0x40u8 | 0x80u8) | 0x08u8) & 0x20 == 0 && ((0x40u8 | 0x80u8) | 0x08u8) & 0x40 != 0 && ((
        0x40u8 | 0x80u8) | 0x08u8) & 0x80 != 0 && ((0x40u8 | 0x80u8) | 0x08u8) & 0x08 != 0,
        ((0x20u8 | 0x80u8) | 0u8) & 0x20 != 0 && ((0x20u8 | 0x80u8) | 0u8) & 0x40 == 0 && ((0x20u8
            | 0x80u8) | 0u8) & 0x80 != 0 && ((0x20u8 | 0x80u8) | 0u8) & 0x08 == 0,
        ((0x20u8 | 0x80u8) | 0x08u8) & 0x20 != 0 && ((0x20u8 | 0x80u8) | 0x08u8) & 0x40 == 0 && ((
        0x20u8 | 0x80u8) | 0x08u8) & 0x80 != 0 && ((0x20u8 | 0x80u8) | 0x08u8) & 0x08 != 0,
{
}

/// Where the controller puts a pixel on a panel of `width` by `height`: the axes are
/// swapped, and then mirrored, as the bits of the orientation byte say.
pub open spec fn placed(orientation: u8, width: int, height: int, x: int, y: int) -> (int, int) {
    let swapped = orientation & 0x20 != 0;
    let column = if swapped { y } else { x };
    let row = if swapped { x } else { y };
    (
        if orientation & 0x40 != 0 {
            width - 1 - column
        } else {
            column
        },
        if orientation & 0x80 != 0 {
            height - 1 - row
        } else {
            row
        },
    )
}

/// The orientation byte turns the picture clockwise by its angle, whatever the colour
/// order, which is a bit of its own.
pub proof fn law_a_rotation_turns_clockwise(
    rotation: Rotation,
    order: ColorOrder,
    width: int,
    height: int,
    x: int,
    y: int,
)
    ensures
        placed(access_control(rotation, order), width, height, x, y) == match rotation {
            Rotation::Deg0 => (x, y),
            Rotation::Deg90 => (width - 1 - y, x),
            Rotation::Deg180 => (width - 1 - x, height - 1 - y),
            Rotation::Deg270 => (y, height - 1 - x),
        },
        (access_control(rotation, order) & 0x08 != 0) == (order is Bgr),
{
    lemma_orientation();
}

/// A packed colour holds each channel's upper bits: it can be taken apart again, and no
/// channel is off by more than what was cut.
pub proof fn law_a_packed_colour_comes_apart(r: u8, g: u8, b: u8)
    ensures
        ({
            let c = packed_color(r, g, b);
            &&& 0 <= c <= 0xFFFF
            &&& 0 <= r - 8 * (c / 2048) < 8
            &&& 0 <= g - 4 * (c / 32 % 64) < 4
            &&& 0 <= b - 8 * (c % 32) < 8
        }),
{
}

/// A rectangle is let through exactly where each of its pixels is on the screen.
pub proof fn law_visible_is_every_pixel_on_the_screen(
    lcd: Ili9342c,
    x: u16,
    y: u16,
    w: u16,
    h: u16,
)
    requires
        w > 0,
        h > 0,
    ensures
        lcd.visible(x, y, w, h) <==> forall|px: int, py: int|
            #![trigger on_screen(lcd, px, py)]
            x <= px < x + w && y <= py < y + h ==> on_screen(lcd, px, py),
{
    if !lcd.visible(x, y, w, h) {
        assert(!on_screen(lcd, x + w - 1, y + h - 1));
    }
}

/// A pixel is on the screen.
pub open spec fn on_screen(lcd: Ili9342c, x: int, y: int) -> bool {
    0 <= x < lcd.width && 0 <= y < lcd.height
}

/// However it is turned, the screen is the panel: every pixel on it has its own place on
/// the panel, and every place is some pixel's.
pub proof fn law_the_screen_is_the_panel(lcd: Ili9342c, x: int, y: int, x2: int, y2: int)
    requires
        lcd.wf(),
    ensures
        ({
            let o = access_control(lcd.cfg.rotation, lcd.cfg.color_order);
            let (w, h) = (lcd.cfg.width as int, lcd.cfg.height as int);
            let (c, r) = placed(o, w, h, x, y);
            &&& on_screen(lcd, x, y) <==> 0 <= c < w && 0 <= r < h
            &&& placed(o, w, h, x2, y2) == (c, r) ==> x2 == x && y2 == y
        }),
{
    let (w, h) = (lcd.cfg.width as int, lcd.cfg.height as int);
    law_a_rotation_turns_clockwise(lcd.cfg.rotation, lcd.cfg.color_order, w, h, x, y);
    law_a_rotation_turns_clockwise(lcd.cfg.rotation, lcd.cfg.color_order, w, h, x2, y2);
}

} // verus!
