//! FocalTech FT6336U, a capacitive touch-panel controller.

use vstd::prelude::*;

verus! {

/// I2C address of the part.
pub const ADDR: u8 = 0x38;

/// The number of touch points, in the low nibble.
pub const REG_TD_STATUS: u8 = 0x02;
/// A burst of five bytes from here gives the count and the first point.
pub const REG_TD_BLOCK: u8 = 0x02;
/// The chip id, which varies across the family.
pub const REG_CHIP_ID: u8 = 0xA3;
/// The vendor id, which does not.
pub const REG_FOCALTECH_ID: u8 = 0xA8;

/// What the vendor-id register holds.
pub const FOCALTECH_ID: u8 = 0x11;

/// What a touch point is doing.
#[derive(Clone, Copy, Debug, PartialEq, Eq, Structural)]
pub enum Event {
    Down,
    Up,
    Contact,
    NoEvent,
}

/// The event in the top two bits of the x coordinate's high byte.
pub open spec fn event_of(xh: u8) -> Event {
    if xh / 64 == 0 {
        Event::Down
    } else if xh / 64 == 1 {
        Event::Up
    } else if xh / 64 == 2 {
        Event::Contact
    } else {
        Event::NoEvent
    }
}

impl Event {
    /// Decodes the top two bits of the x coordinate's high byte.
    pub fn from_xh(xh: u8) -> (e: Self)
        ensures
            e == event_of(xh),
    {
        match xh / 64 {
            0 => Event::Down,
            1 => Event::Up,
            2 => Event::Contact,
            _ => Event::NoEvent,
        }
    }
}

/// One touch point, in the panel's counts.
#[derive(Clone, Copy, Debug, PartialEq, Eq, Structural)]
pub struct Touch {
    pub x: u16,
    pub y: u16,
    pub id: u8,
    pub event: Event,
}

/// Twelve bits from a high byte, of which the low nibble counts, and a low one.
pub open spec fn coordinate(hi: u8, lo: u8) -> int {
    hi % 16 * 256 + lo
}

/// A coordinate from its two bytes.
pub fn coord(hi: u8, lo: u8) -> (c: u16)
    ensures
        c == coordinate(hi, lo),
{
    (hi % 16) as u16 * 256 + lo as u16
}

/// The touch id, in the top nibble of the y coordinate's high byte.
pub fn touch_id(yh: u8) -> (id: u8)
    ensures
        id == yh / 16,
{
    yh / 16
}

/// The first touch point of a burst.
pub open spec fn first_touch(b: Seq<u8>) -> Option<Touch> {
    if b[0] % 16 == 0 {
        None
    } else {
        Some(
            Touch {
                x: coordinate(b[1], b[2]) as u16,
                y: coordinate(b[3], b[4]) as u16,
                id: b[3] / 16,
                event: event_of(b[1]),
            },
        )
    }
}

/// The controller.
#[derive(Clone, Copy, Debug)]
pub struct Ft6336u {}

impl Ft6336u {
    pub fn new() -> (panel: Self)
        ensures
            panel == (Ft6336u {  }),
    {
        Ft6336u {  }
    }

    /// Whether a part of the family is answering, by its vendor id.
    pub fn is_present(&self, focaltech_id: u8) -> (b: bool)
        ensures
            b == (focaltech_id == FOCALTECH_ID),
    {
        focaltech_id == FOCALTECH_ID
    }

    /// How many points are touched, by the status register.
    pub fn touch_count(&self, td_status: u8) -> (n: u8)
        ensures
            n == td_status % 16,
    {
        td_status % 16
    }

    /// The first touch point, by a burst from [`REG_TD_BLOCK`]; `None` where
    /// nothing is touched, whatever the other bytes hold.
    pub fn touch1(&self, b: &[u8; 5]) -> (t: Option<Touch>)
        ensures
            t == first_touch(b@),
    {
        if self.touch_count(b[0]) == 0 {
            return None;
        }
        Some(
            Touch {
                x: coord(b[1], b[2]),
                y: coord(b[3], b[4]),
                id: touch_id(b[3]),
                event: Event::from_xh(b[1]),
            },
        )
    }
}

/// The flags that share a coordinate's bytes never reach the coordinate, nor the
/// coordinate the flags.
pub proof fn law_flags_and_coordinates_are_apart(hi: u8, other: u8, lo: u8)
    ensures
        hi % 16 == other % 16 ==> coordinate(hi, lo) == coordinate(other, lo),
        hi / 64 == other / 64 ==> event_of(hi) == event_of(other),
        0 <= coordinate(hi, lo) < 4096,
{
}

/// The two bits that stand for an event.
pub open spec fn code_of(event: Event) -> int {
    match event {
        Event::Down => 0,
        Event::Up => 1,
        Event::Contact => 2,
        Event::NoEvent => 3,
    }
}

/// The burst that the controller gives for a touch, with `spare` in the bits that mean
/// nothing here.
pub open spec fn burst_for(count: int, t: Touch, spare: int) -> Seq<u8> {
    seq![
        (16 * spare + count) as u8,
        (64 * code_of(t.event) + 16 * (spare % 4) + t.x / 256) as u8,
        (t.x % 256) as u8,
        (16 * t.id + t.y / 256) as u8,
        (t.y % 256) as u8,
    ]
}

/// Every touch that the controller can tell of is the one that comes out, and none does
/// where it counts none.
pub proof fn law_a_touch_comes_out_as_it_was(count: int, t: Touch, spare: int)
    requires
        0 <= count < 16,
        0 <= spare < 16,
        t.x < 4096,
        t.y < 4096,
        t.id < 16,
    ensures
        first_touch(burst_for(count, t, spare)) == if count == 0 {
            None
        } else {
            Some(t)
        },
{
    let b = burst_for(count, t, spare);
    assert(b[0] == 16 * spare + count);
    assert(b[1] == 64 * code_of(t.event) + 16 * (spare % 4) + t.x / 256);
    assert(b[3] == 16 * t.id + t.y / 256);
    assert(b[1] / 64 == code_of(t.event));
    assert(event_of(b[1]) == t.event);
    assert(b[1] % 16 == t.x / 256);
    assert(b[3] % 16 == t.y / 256);
    assert(b[3] / 16 == t.id);
    assert(coordinate(b[1], b[2]) == t.x);
    assert(coordinate(b[3], b[4]) == t.y);
}

} // verus!
