//! CDC ACM plus a vendor reset interface. The BOS and MS OS 2.0 descriptors
//! let Windows bind its own serial and WinUSB drivers.

use vstd::prelude::*;

verus! {

/// What the board says about itself to a host.
#[derive(Clone, Copy)]
pub struct Identity {
    pub vid: u16,
    pub pid: u16,
    pub manufacturer: &'static str,
    pub product: &'static str,
    /// The board's real serial number, where it has one.
    pub serial: Option<&'static str>,
    /// Whether a host may ask for a reboot.
    pub allow_reset: bool,
}

/// The configuration descriptor with its interfaces and endpoints.
pub const CONFIG: [u8; 84] = [
    9, 2, 84, 0, 3, 1, 0, 0x80, 125,
    8, 11, 0, 2, 2, 2, 1, 0,
    9, 4, 0, 0, 1, 2, 2, 1, 0,
    5, 0x24, 0, 0x10, 0x01,
    5, 0x24, 1, 0, 1,
    4, 0x24, 2, 2,
    5, 0x24, 6, 0, 1,
    7, 5, 0x81, 3, 8, 0, 16,
    9, 4, 1, 0, 2, 0x0a, 0, 0, 0,
    7, 5, 0x02, 2, 64, 0, 0,
    7, 5, 0x82, 2, 64, 0, 0,
    9, 4, 2, 0, 0, 0xff, 0, 1, 0,
];

/// The binary object store, naming the MS OS 2.0 platform capability.
pub const BOS: [u8; 33] = [
    5, 15, 33, 0, 1,
    28, 16, 5, 0,
    0xdf, 0x60, 0xdd, 0xd8, 0x89, 0x45, 0xc7, 0x4c,
    0x9c, 0xd2, 0x65, 0x9d, 0x9e, 0x64, 0x8a, 0x9f,
    0, 0, 3, 6, 166, 0, 1, 0,
];

/// Everything in the MS OS 2.0 set up to the registry property's name.
const MICROSOFT_HEAD: [u8; 46] = [
    10, 0, 0, 0, 0, 0, 3, 6, 166, 0,
    8, 0, 2, 0, 2, 0, 156, 0,
    20, 0, 3, 0,
    0x57, 0x49, 0x4e, 0x55, 0x53, 0x42, 0, 0,
    0, 0, 0, 0, 0, 0, 0, 0,
    128, 0, 4, 0, 1, 0, 40, 0,
];

/// The two bytes of `word`, low one first.
pub open spec fn le16(word: int) -> Seq<u8> {
    seq![(word % 256) as u8, (word / 256) as u8]
}

/// One character in UTF-16, low byte first: one word inside the basic plane,
/// a surrogate pair beyond it.
pub open spec fn utf16le_char(c: char) -> Seq<u8> {
    let code = c as int;
    if code < 0x1_0000 {
        le16(code)
    } else {
        le16(0xD800 + (code - 0x1_0000) / 0x400) + le16(0xDC00 + (code - 0x1_0000) % 0x400)
    }
}

/// `text` in UTF-16, low bytes first.
pub open spec fn utf16le(text: Seq<char>) -> Seq<u8>
    decreases text.len(),
{
    if text.len() == 0 {
        Seq::empty()
    } else {
        utf16le(text.drop_last()) + utf16le_char(text.last())
    }
}

/// The longest string descriptor, in bytes.
pub const STRING_LIMIT: usize = 254;

/// The string descriptor of `text`, if it is short enough to have one.
pub open spec fn string_descriptor(text: Seq<char>) -> Option<Seq<u8>> {
    let len = 2 + utf16le(text).len();
    if len <= STRING_LIMIT {
        Some(seq![len as u8, 3u8] + utf16le(text))
    } else {
        None
    }
}

/// The device descriptor.
pub open spec fn device_descriptor(identity: Identity) -> Seq<u8> {
    seq![18u8, 1, 0x10, 2, 0xef, 2, 1, 64] + le16(identity.vid as int) + le16(identity.pid as int)
        + seq![0u8, 1, 1, 2, if identity.serial is Some { 3u8 } else { 0u8 }, 1]
}

/// What a GET_DESCRIPTOR request for `value` and `language` is answered: the
/// device, configuration, BOS and language descriptors carry no language, the
/// three strings are English only.
pub open spec fn descriptor_bytes(identity: Identity, value: u16, language: u16) -> Option<
    Seq<u8>,
> {
    let kind = value / 256;
    let index = value % 256;
    if index == 0 && language == 0 {
        if kind == 1 {
            Some(device_descriptor(identity))
        } else if kind == 2 {
            Some(CONFIG@)
        } else if kind == 15 {
            Some(BOS@)
        } else if kind == 3 {
            Some(seq![4u8, 3, 9, 4])
        } else {
            None
        }
    } else if kind == 3 && index != 0 && language == 0x0409 {
        if index == 1 {
            string_descriptor(identity.manufacturer@)
        } else if index == 2 {
            string_descriptor(identity.product@)
        } else if index == 3 {
            match identity.serial {
                Some(serial) => string_descriptor(serial@),
                None => None,
            }
        } else {
            None
        }
    } else {
        None
    }
}

/// The registry property's name.
pub open spec fn property_name() -> Seq<char> {
    "DeviceInterfaceGUID\0"@
}

/// The registry property's value: the WinUSB interface's GUID.
pub open spec fn property_value() -> Seq<char> {
    "{bc7398c1-73cd-4cb7-98b8-913a8fca7bf6}\0"@
}

/// The MS OS 2.0 descriptor set: its header, the subset of interface 2, the
/// WINUSB compatible id and the interface's GUID.
pub open spec fn microsoft_bytes() -> Seq<u8> {
    seq![10u8, 0, 0, 0, 0, 0, 3, 6, 166, 0] + seq![8u8, 0, 2, 0, 2, 0, 156, 0] + seq![
        20u8,
        0,
        3,
        0,
    ] + seq![0x57u8, 0x49, 0x4e, 0x55, 0x53, 0x42] + Seq::new(10, |i: int| 0u8) + seq![
        128u8,
        0,
        4,
        0,
        1,
        0,
        40,
        0,
    ] + utf16le(property_name()) + seq![78u8, 0] + utf16le(property_value())
}

/// Characters of the basic plane take two bytes each.
pub proof fn lemma_utf16le_len(text: Seq<char>)
    requires
        forall|i: int| 0 <= i < text.len() ==> (#[trigger] text[i]) as int <= 0xffff,
    ensures
        utf16le(text).len() == 2 * text.len(),
    decreases text.len(),
{
    if text.len() > 0 {
        lemma_utf16le_len(text.drop_last());
    }
}

proof fn lemma_utf16le_take(text: Seq<char>, i: int)
    requires
        0 <= i < text.len(),
    ensures
        utf16le(text.take(i + 1)) == utf16le(text.take(i)) + utf16le_char(text[i]),
        utf16le(text.take(i + 1)).len() <= utf16le(text).len(),
    decreases text.len() - i,
{
    assert(text.take(i + 1).drop_last() =~= text.take(i));
    if i + 1 < text.len() {
        lemma_utf16le_take(text, i + 1);
    } else {
        assert(text.take(i + 1) =~= text);
    }
}

/// Copies `bytes` into `out` from `at` on.
fn put(out: &mut [u8; 256], at: usize, bytes: &[u8])
    requires
        at + bytes@.len() <= 256,
    ensures
        final(out)@ == old(out)@.take(at as int) + bytes@ + old(out)@.skip(at + bytes@.len()),
{
    let ghost before = out@;
    for i in 0..bytes.len()
        invariant
            at + bytes@.len() <= 256,
            out@ == before.take(at as int) + bytes@.take(i as int) + before.skip(at + i),
            before.len() == 256,
    {
        out[at + i] = bytes[i];
        assert(out@ =~= before.take(at as int) + bytes@.take(i + 1) + before.skip(at + i + 1));
    }
    assert(bytes@.take(bytes@.len() as int) =~= bytes@);
}

/// Writes `text` in UTF-16 from `at` on and returns the end, or `None` where
/// it would pass `limit`.
fn put_utf16(out: &mut [u8; 256], at: usize, text: &str, limit: usize) -> (end: Option<usize>)
    requires
        at <= limit <= 256,
    ensures
        match end {
            Some(end) => {
                &&& end == at + utf16le(text@).len()
                &&& end <= limit
                &&& final(out)@ == old(out)@.take(at as int) + utf16le(text@) + old(out)@.skip(
                    end as int,
                )
            },
            None => at + utf16le(text@).len() > limit,
        },
{
    let ghost before = out@;
    let count: usize = text.unicode_len();
    let mut end: usize = at;
    assert(text@.take(0) =~= Seq::<char>::empty());
    assert(out@ =~= before.take(at as int) + utf16le(text@.take(0)) + before.skip(at as int));
    for i in 0..count
        invariant
            count == text@.len(),
            at <= limit <= 256,
            end == at + utf16le(text@.take(i as int)).len(),
            end <= limit,
            before.len() == 256,
            out@ == before.take(at as int) + utf16le(text@.take(i as int)) + before.skip(
                end as int,
            ),
    {
        proof {
            lemma_utf16le_take(text@, i as int);
        }
        let c: char = text.get_char(i);
        let code: u32 = c as u32;
        if code < 0x1_0000 {
            if end + 2 > limit {
                return None;
            }
            let word: [u8; 2] = [(code % 256) as u8, (code / 256) as u8];
            put(out, end, &word);
            end = end + 2;
            assert(word@ =~= utf16le_char(c));
        } else {
            if end + 4 > limit {
                return None;
            }
            let offset: u32 = code - 0x1_0000;
            let high: u32 = 0xD800 + offset / 0x400;
            let low: u32 = 0xDC00 + offset % 0x400;
            let pair: [u8; 4] = [
                (high % 256) as u8,
                (high / 256) as u8,
                (low % 256) as u8,
                (low / 256) as u8,
            ];
            put(out, end, &pair);
            end = end + 4;
            assert(pair@ =~= utf16le_char(c));
        }
        assert(out@ =~= before.take(at as int) + utf16le(text@.take(i + 1)) + before.skip(
            end as int,
        ));
    }
    assert(text@.take(count as int) =~= text@);
    Some(end)
}

/// Writes the MS OS 2.0 descriptor set and returns its length; the rest of
/// `out` is zero.
pub fn microsoft(out: &mut [u8; 256]) -> (len: usize)
    ensures
        len == 166,
        microsoft_bytes().len() == 166,
        final(out)@ == microsoft_bytes() + Seq::new(90, |i: int| 0u8),
{
    *out = [0; 256];
    put(out, 0, &MICROSOFT_HEAD);
    proof {
        reveal_strlit("DeviceInterfaceGUID\0");
        reveal_strlit("{bc7398c1-73cd-4cb7-98b8-913a8fca7bf6}\0");
        lemma_utf16le_len(property_name());
        lemma_utf16le_len(property_value());
    }
    let _ = put_utf16(out, 46, "DeviceInterfaceGUID\0", 256);
    let size: [u8; 2] = [78, 0];
    put(out, 86, &size);
    let _ = put_utf16(out, 88, "{bc7398c1-73cd-4cb7-98b8-913a8fca7bf6}\0", 256);
    assert(out@ =~= microsoft_bytes() + Seq::new(90, |i: int| 0u8));
    166
}

/// Writes the string descriptor of `text`.
fn put_string(text: &str, out: &mut [u8; 256]) -> (len: Option<usize>)
    ensures
        match string_descriptor(text@) {
            Some(bytes) => {
                &&& len == Some(bytes.len() as usize)
                &&& bytes.len() <= 254
                &&& final(out)@ == bytes + old(out)@.skip(bytes.len() as int)
            },
            None => len is None,
        },
{
    match put_utf16(out, 2, text, STRING_LIMIT) {
        Some(end) => {
            out[0] = end as u8;
            out[1] = 3;
            assert(out@ =~= string_descriptor(text@)->0 + old(out)@.skip(end as int));
            Some(end)
        },
        None => None,
    }
}

/// Writes the descriptor that `value` and `language` ask for to the front of
/// `out` and returns its length; `None` where there is no such descriptor.
pub fn descriptor(identity: &Identity, value: u16, language: u16, out: &mut [u8; 256]) -> (len:
    Option<usize>)
    ensures
        match descriptor_bytes(*identity, value, language) {
            Some(bytes) => {
                &&& len == Some(bytes.len() as usize)
                &&& bytes.len() <= 254
                &&& final(out)@ == bytes + old(out)@.skip(bytes.len() as int)
            },
            None => len is None,
        },
{
    let kind: u16 = value / 256;
    let index: u16 = value % 256;
    if index == 0 && language == 0 {
        if kind == 1 {
            let serial: u8 = if identity.serial.is_some() { 3 } else { 0 };
            let bytes: [u8; 18] = [
                18,
                1,
                0x10,
                2,
                0xef,
                2,
                1,
                64,
                (identity.vid % 256) as u8,
                (identity.vid / 256) as u8,
                (identity.pid % 256) as u8,
                (identity.pid / 256) as u8,
                0,
                1,
                1,
                2,
                serial,
                1,
            ];
            put(out, 0, &bytes);
            assert(bytes@ =~= device_descriptor(*identity));
            assert(out@ =~= bytes@ + old(out)@.skip(18));
            Some(18)
        } else if kind == 2 {
            put(out, 0, &CONFIG);
            assert(out@ =~= CONFIG@ + old(out)@.skip(84));
            Some(84)
        } else if kind == 15 {
            put(out, 0, &BOS);
            assert(out@ =~= BOS@ + old(out)@.skip(33));
            Some(33)
        } else if kind == 3 {
            let bytes: [u8; 4] = [4, 3, 9, 4];
            put(out, 0, &bytes);
            assert(bytes@ =~= seq![4u8, 3, 9, 4]);
            assert(out@ =~= bytes@ + old(out)@.skip(4));
            Some(4)
        } else {
            None
        }
    } else if kind == 3 && index != 0 && language == 0x0409 {
        if index == 1 {
            put_string(identity.manufacturer, out)
        } else if index == 2 {
            put_string(identity.product, out)
        } else if index == 3 {
            match identity.serial {
                Some(serial) => put_string(serial, out),
                None => None,
            }
        } else {
            None
        }
    } else {
        None
    }
}

} // verus!
