//! WS2812 addressable LEDs: colours as pulse widths.

use vstd::prelude::*;

verus! {

/// A colour.
#[derive(Clone, Copy, Debug, PartialEq, Eq, Structural)]
pub struct Rgb {
    pub r: u8,
    pub g: u8,
    pub b: u8,
}

impl Default for Rgb {
    fn default() -> (c: Self)
        ensures
            c == (Rgb { r: 0, g: 0, b: 0 }),
    {
        Rgb { r: 0, g: 0, b: 0 }
    }
}

/// One channel at `pct` percent, which counts as no more than 100.
pub open spec fn dimmed(channel: u8, pct: u8) -> int {
    channel * (if pct > 100 {
        100
    } else {
        pct as int
    }) / 100
}

/// The wire order: green, red, blue.
pub open spec fn wire_order(c: Rgb) -> Seq<u8> {
    seq![c.g, c.r, c.b]
}

impl Rgb {
    /// Dark.
    pub fn off() -> (c: Self)
        ensures
            c == (Rgb { r: 0, g: 0, b: 0 }),
    {
        Rgb { r: 0, g: 0, b: 0 }
    }

    pub fn red() -> (c: Self)
        ensures
            c == (Rgb { r: 255, g: 0, b: 0 }),
    {
        Rgb { r: 255, g: 0, b: 0 }
    }

    pub fn green() -> (c: Self)
        ensures
            c == (Rgb { r: 0, g: 255, b: 0 }),
    {
        Rgb { r: 0, g: 255, b: 0 }
    }

    pub fn blue() -> (c: Self)
        ensures
            c == (Rgb { r: 0, g: 0, b: 255 }),
    {
        Rgb { r: 0, g: 0, b: 255 }
    }

    pub fn new(r: u8, g: u8, b: u8) -> (c: Self)
        ensures
            c == (Rgb { r, g, b }),
    {
        Rgb { r, g, b }
    }

    /// The three bytes in wire order.
    pub fn to_grb(self) -> (bytes: [u8; 3])
        ensures
            bytes@ == wire_order(self),
    {
        let bytes: [u8; 3] = [self.g, self.r, self.b];
        assert(bytes@ =~= wire_order(self));
        bytes
    }

    /// All three channels at `pct` percent.
    pub fn dim(self, pct: u8) -> (c: Self)
        ensures
            c.r == dimmed(self.r, pct),
            c.g == dimmed(self.g, pct),
            c.b == dimmed(self.b, pct),
    {
        let p: u16 = if pct > 100 { 100 } else { pct as u16 };
        Rgb { r: dim_channel(self.r, p), g: dim_channel(self.g, p), b: dim_channel(self.b, p) }
    }
}

fn dim_channel(channel: u8, p: u16) -> (r: u8)
    requires
        p <= 100,
    ensures
        r == channel * p / 100,
{
    proof {
        assert(0 <= channel * p <= channel * 100) by (nonlinear_arith)
            requires
                p <= 100,
        ;
    }
    (channel as u16 * p / 100) as u8
}

/// How long the line is high and low for a bit, in nanoseconds, and how long it
/// rests low to latch a frame.
#[derive(Clone, Copy, Debug, PartialEq, Eq, Structural)]
pub struct Timing {
    pub zero_high_ns: u32,
    pub zero_low_ns: u32,
    pub one_high_ns: u32,
    pub one_low_ns: u32,
    pub reset_us: u32,
}

impl Timing {
    /// The datasheet's figures.
    pub fn ws2812() -> (t: Self)
        ensures
            t == (Timing {
                zero_high_ns: 350,
                zero_low_ns: 800,
                one_high_ns: 700,
                one_low_ns: 600,
                reset_us: 80,
            }),
    {
        Timing {
            zero_high_ns: 350,
            zero_low_ns: 800,
            one_high_ns: 700,
            one_low_ns: 600,
            reset_us: 80,
        }
    }

    /// The high time of a bit.
    pub open spec fn high(self, bit: bool) -> int {
        if bit {
            self.one_high_ns as int
        } else {
            self.zero_high_ns as int
        }
    }

    /// The low time of a bit.
    pub open spec fn low(self, bit: bool) -> int {
        if bit {
            self.one_low_ns as int
        } else {
            self.zero_low_ns as int
        }
    }

    /// Rounding neither time of a bit overflows.
    pub open spec fn bit_fits(self, bit: bool, ns_per_tick: u32) -> bool {
        &&& ns_per_tick > 0
        &&& self.high(bit) + ns_per_tick / 2 <= u32::MAX
        &&& self.low(bit) + ns_per_tick / 2 <= u32::MAX
    }
}

/// `ns` in ticks, to the nearest.
pub open spec fn nearest_ticks(ns: int, ns_per_tick: u32) -> int {
    (ns + ns_per_tick / 2) / ns_per_tick as int
}

/// A bit as its high and low time in ticks, each kept to a field of 16 bits.
pub open spec fn ticks_of(bit: bool, t: Timing, ns_per_tick: u32) -> (u16, u16) {
    (
        nearest_ticks(t.high(bit), ns_per_tick) as u16,
        nearest_ticks(t.low(bit), ns_per_tick) as u16,
    )
}

/// A bit as its high and low time in ticks of `ns_per_tick`, each to the nearest.
pub fn bit_ticks(bit: bool, t: Timing, ns_per_tick: u32) -> (ticks: (u16, u16))
    requires
        t.bit_fits(bit, ns_per_tick),
    ensures
        ticks == ticks_of(bit, t, ns_per_tick),
{
    let h: u32 = if bit { t.one_high_ns } else { t.zero_high_ns };
    let l: u32 = if bit { t.one_low_ns } else { t.zero_low_ns };
    let ht: u32 = (h + ns_per_tick / 2) / ns_per_tick;
    let lt: u32 = (l + ns_per_tick / 2) / ns_per_tick;
    (ht as u16, lt as u16)
}

/// The bits of a frame of `led_count` LEDs.
pub fn frame_bits(led_count: usize) -> (bits: usize)
    requires
        led_count * 24 <= usize::MAX,
    ensures
        bits == led_count * 24,
{
    led_count * 24
}

/// The bits of a byte, most significant first.
pub open spec fn bit_of(byte: u8, i: int) -> bool {
    byte & (1u8 << (7 - i) as u8) != 0
}

/// The bits of a frame: each colour in wire order, each byte from its top bit.
pub open spec fn frame_bit(colours: Seq<Rgb>, i: int) -> bool {
    bit_of(wire_order(colours[i / 24])[i % 24 / 8], i % 8)
}

/// A frame as pulse widths.
pub open spec fn frame(colours: Seq<Rgb>, t: Timing, ns_per_tick: u32) -> Seq<(u16, u16)> {
    Seq::new(
        colours.len() * 24,
        |i: int| ticks_of(frame_bit(colours, i), t, ns_per_tick),
    )
}

/// Writes a frame to the front of `out` and returns its length; `None`, with `out`
/// as it was, where it does not fit.
pub fn encode(colours: &[Rgb], timing: Timing, ns_per_tick: u32, out: &mut [(u16, u16)]) -> (r:
    Option<usize>)
    requires
        colours@.len() * 24 <= usize::MAX,
        old(out)@.len() >= colours@.len() * 24 ==> forall|i: int|
            0 <= i < colours@.len() * 24 ==> timing.bit_fits(
                #[trigger] frame_bit(colours@, i),
                ns_per_tick,
            ),
    ensures
        old(out)@.len() < colours@.len() * 24 ==> r is None && final(out)@ == old(out)@,
        old(out)@.len() >= colours@.len() * 24 ==> r == Some((colours@.len() * 24) as usize)
            && final(out)@ == frame(colours@, timing, ns_per_tick) + old(out)@.skip(
            (colours@.len() * 24) as int,
        ),
{
    let needed: usize = frame_bits(colours.len());
    if out.len() < needed {
        return None;
    }
    let ghost before = out@;
    let ghost whole = frame(colours@, timing, ns_per_tick);
    for i in 0..needed
        invariant
            forall|i: int|
                0 <= i < needed ==> timing.bit_fits(
                    #[trigger] frame_bit(colours@, i),
                    ns_per_tick,
                ),
            needed == colours@.len() * 24,
            needed <= before.len(),
            whole == frame(colours@, timing, ns_per_tick),
            out@ == whole.take(i as int) + before.skip(i as int),
    {
        let bytes: [u8; 3] = colours[i / 24].to_grb();
        let byte: u8 = bytes[i % 24 / 8];
        let shift: u8 = 7 - (i % 8) as u8;
        let bit: bool = byte & (1 << shift) != 0;
        assert(bit == frame_bit(colours@, i as int));
        out[i] = bit_ticks(bit, timing, ns_per_tick);
        assert(out@ =~= whole.take(i + 1) + before.skip(i + 1));
    }
    assert(whole.take(needed as int) =~= whole);
    Some(needed)
}

/// A time in ticks is off by at most half a tick.
pub proof fn law_rounding_error_is_half_a_tick(ns: int, ns_per_tick: u32)
    requires
        ns >= 0,
        ns_per_tick > 0,
    ensures
        -(ns_per_tick as int) <= 2 * (nearest_ticks(ns, ns_per_tick) * ns_per_tick - ns)
            <= ns_per_tick,
{
    let n = ns_per_tick as int;
    let x = ns + n / 2;
    assert(x / n * n <= x < x / n * n + n) by (nonlinear_arith)
        requires
            n > 0,
    ;
}

/// A one is held high longer than a zero wherever the timing is, by a tick or
/// more, so that the two stay apart.
pub proof fn law_one_outlasts_zero(t: Timing, ns_per_tick: u32)
    requires
        ns_per_tick > 0,
        t.zero_high_ns + ns_per_tick <= t.one_high_ns,
    ensures
        nearest_ticks(t.high(false), ns_per_tick) < nearest_ticks(t.high(true), ns_per_tick),
{
    let n = ns_per_tick as int;
    let z = t.zero_high_ns + n / 2;
    let o = t.one_high_ns + n / 2;
    assert(z / n < o / n) by (nonlinear_arith)
        requires
            n > 0,
            z + n <= o,
    ;
}

/// A bit's times are those of its value, the high one first, each off by at most half a
/// tick.
pub proof fn law_a_bit_lasts_as_long_as_it_should(bit: bool, t: Timing, ns_per_tick: u32)
    requires
        t.bit_fits(bit, ns_per_tick),
        nearest_ticks(t.high(bit), ns_per_tick) <= u16::MAX,
        nearest_ticks(t.low(bit), ns_per_tick) <= u16::MAX,
    ensures
        ({
            let n = ns_per_tick as int;
            let (high, low) = ticks_of(bit, t, ns_per_tick);
            let (high_ns, low_ns) = if bit {
                (t.one_high_ns, t.one_low_ns)
            } else {
                (t.zero_high_ns, t.zero_low_ns)
            };
            &&& -n <= 2 * (high * n - high_ns) <= n
            &&& -n <= 2 * (low * n - low_ns) <= n
        }),
{
    law_rounding_error_is_half_a_tick(t.high(bit), ns_per_tick);
    law_rounding_error_is_half_a_tick(t.low(bit), ns_per_tick);
    let n = ns_per_tick as int;
    let x = t.high(bit) + n / 2;
    let y = t.low(bit) + n / 2;
    assert(x / n >= 0 && y / n >= 0) by (nonlinear_arith)
        requires
            n > 0,
            x >= 0,
            y >= 0,
    ;
}

/// A bit as a number.
pub open spec fn worth(bit: bool) -> int {
    if bit {
        1
    } else {
        0
    }
}

/// The byte that eight bits of a frame stand for, from `at` on, the first being worth
/// the most.
pub open spec fn byte_at(colours: Seq<Rgb>, at: int) -> int {
    128 * worth(frame_bit(colours, at)) + 64 * worth(frame_bit(colours, at + 1)) + 32 * worth(
        frame_bit(colours, at + 2),
    ) + 16 * worth(frame_bit(colours, at + 3)) + 8 * worth(frame_bit(colours, at + 4)) + 4 * worth(
        frame_bit(colours, at + 5),
    ) + 2 * worth(frame_bit(colours, at + 6)) + worth(frame_bit(colours, at + 7))
}

proof fn lemma_bits_of(b: u8)
    by (bit_vector)
    ensures
        b == 128 * (if b & (1u8 << 7) != 0 {
            1u8
        } else {
            0
        }) + 64 * (if b & (1u8 << 6) != 0 {
            1u8
        } else {
            0
        }) + 32 * (if b & (1u8 << 5) != 0 {
            1u8
        } else {
            0
        }) + 16 * (if b & (1u8 << 4) != 0 {
            1u8
        } else {
            0
        }) + 8 * (if b & (1u8 << 3) != 0 {
            1u8
        } else {
            0
        }) + 4 * (if b & (1u8 << 2) != 0 {
            1u8
        } else {
            0
        }) + 2 * (if b & (1u8 << 1) != 0 {
            1u8
        } else {
            0
        }) + (if b & (1u8 << 0) != 0 {
            1u8
        } else {
            0
        }),
{
}

proof fn lemma_byte_at(colours: Seq<Rgb>, led: int, c: int)
    requires
        0 <= led,
        0 <= c < 3,
    ensures
        byte_at(colours, 24 * led + 8 * c) == wire_order(colours[led])[c],
{
    let at = 24 * led + 8 * c;
    let b = wire_order(colours[led])[c];
    lemma_bits_of(b);
    assert forall|j: int| 0 <= j < 8 implies #[trigger] frame_bit(colours, at + j) == bit_of(
        b,
        j,
    ) by {
        assert((at + j) / 24 == led);
        assert((at + j) % 24 / 8 == c);
        assert((at + j) % 8 == j);
    }
    assert(frame_bit(colours, at + 0) == bit_of(b, 0));
    assert(frame_bit(colours, at + 1) == bit_of(b, 1));
    assert(frame_bit(colours, at + 2) == bit_of(b, 2));
    assert(frame_bit(colours, at + 3) == bit_of(b, 3));
    assert(frame_bit(colours, at + 4) == bit_of(b, 4));
    assert(frame_bit(colours, at + 5) == bit_of(b, 5));
    assert(frame_bit(colours, at + 6) == bit_of(b, 6));
    assert(frame_bit(colours, at + 7) == bit_of(b, 7));
}

/// The bits of a frame are the colours: each LED takes its green, its red and its blue,
/// in this order, and every byte comes from its top bit down.
pub proof fn law_a_frame_spells_its_colours(colours: Seq<Rgb>, led: int)
    requires
        0 <= led < colours.len(),
    ensures
        byte_at(colours, 24 * led) == colours[led].g,
        byte_at(colours, 24 * led + 8) == colours[led].r,
        byte_at(colours, 24 * led + 16) == colours[led].b,
{
    lemma_byte_at(colours, led, 0);
    lemma_byte_at(colours, led, 1);
    lemma_byte_at(colours, led, 2);
}

/// A dimmed channel is its share, rounded down; a hundred percent and more leave it, and
/// none puts it out.
pub proof fn law_dimming_is_to_scale(channel: u8, pct: u8)
    ensures
        pct <= 100 ==> 0 <= channel * pct - 100 * dimmed(channel, pct) < 100,
        pct >= 100 ==> dimmed(channel, pct) == channel,
        dimmed(channel, 0) == 0,
{
    assert(channel * 0 == 0);
}

} // verus!
