//! What a host gets for its requests, byte by byte.

use vstd::prelude::*;

use super::descriptors::{Identity, CONFIG};
use super::device::{
    CommandView, Commit, DeviceView, Error, Event, Halted, ResetTarget, StepView,
};

verus! {

/// A step that sends a short reply whole.
pub open spec fn answered(data: Seq<u8>) -> Result<StepView, Error> {
    Ok(
        StepView {
            commands: seq![CommandView::WriteIn { ep: 0x80, data }],
            commit: Commit::ReplySent { to: data.len() as usize, zlp: false },
        },
    )
}

/// A step that halts both directions of endpoint 0.
pub open spec fn refused() -> Result<StepView, Error> {
    Ok(
        StepView {
            commands: seq![
                CommandView::SetStall { ep: 0, halt: true },
                CommandView::SetStall { ep: 0x80, halt: true },
            ],
            commit: Commit::Nothing,
        },
    )
}

/// What a device answers to a setup packet.
pub open spec fn asked(d: DeviceView, bytes: [u8; 8], halted: Halted) -> Result<StepView, Error> {
    super::device::after_event(d, Event::Setup(bytes), Seq::empty(), halted).1
}

/// A device after an event whose commands all succeed.
pub open spec fn went_well(d: DeviceView, event: Event, packet: Seq<u8>, halted: Halted) -> DeviceView {
    let (d1, result) = super::device::after_event(d, event, packet, halted);
    match result {
        Ok(step) => super::device::committed(d1, step.commit),
        Err(e) => d1,
    }
}

/// A device after some events, each with its packet, the halted endpoints it met and
/// whether its commands succeeded.
pub open spec fn went_on(
    d: DeviceView,
    events: Seq<(Event, Seq<u8>, Halted, bool)>,
) -> DeviceView
    decreases events.len(),
{
    if events.len() == 0 {
        d
    } else {
        let before = went_on(d, events.drop_last());
        let (event, packet, halted, succeeded) = events.last();
        if succeeded {
            went_well(before, event, packet, halted)
        } else {
            super::device::after_event(before, event, packet, halted).0
        }
    }
}

/// No line coding comes with these events: whatever arrives on endpoint 0 is empty.
pub open spec fn no_coding(events: Seq<(Event, Seq<u8>, Halted, bool)>) -> bool {
    forall|i: int|
        0 <= i < events.len() ==> ((#[trigger] events[i]).0 == Event::Out(0) ==> events[i].1.len()
            == 0)
}

proof fn lemma_coding_stays(d: DeviceView, events: Seq<(Event, Seq<u8>, Halted, bool)>)
    requires
        no_coding(events),
    ensures
        went_on(d, events).line_coding == d.line_coding,
    decreases events.len(),
{
    if events.len() > 0 {
        let before = events.drop_last();
        assert forall|i: int|
            0 <= i < before.len() && (#[trigger] before[i]).0 == Event::Out(0) implies before[i].1.len()
            == 0 by {
            assert(before[i] == events[i]);
        }
        lemma_coding_stays(d, before);
        assert(events[events.len() - 1].0 == Event::Out(0) ==> events[events.len() - 1].1.len()
            == 0);
    }
}

/// Seven bytes that say how a line is to run: a speed, one to two stop bits, a parity
/// there is, five to eight data bits.
pub open spec fn is_coding(p: Seq<u8>) -> bool {
    &&& p.len() == 7
    &&& p[0] != 0 || p[1] != 0 || p[2] != 0 || p[3] != 0
    &&& p[4] <= 2
    &&& p[5] <= 4
    &&& 5 <= p[6] <= 8
}

/// A line coding that was set reads back: whatever the device goes through after it has
/// taken one, it answers a request for the coding with exactly those bytes, until it is
/// given another.
pub proof fn law_a_line_coding_reads_back(
    d: DeviceView,
    coding: Seq<u8>,
    events: Seq<(Event, Seq<u8>, Halted, bool)>,
    bytes: [u8; 8],
    h0: Halted,
    halted: Halted,
)
    requires
        d.control is LineCoding,
        is_coding(coding),
        no_coding(events),
        bytes@ == seq![0xa1u8, 0x21, 0, 0, 0, 0, 7, 0],
    ensures
        ({
            let taken = went_well(d, Event::Out(0), coding, h0);
            let later = went_on(taken, events);
            later.configuration != 0 ==> asked(later, bytes, halted) == answered(coding)
        }),
{
    let taken = went_well(d, Event::Out(0), coding, h0);
    assert(taken.line_coding == coding);
    lemma_coding_stays(taken, events);
    let s = super::device::setup_of(bytes@);
    assert(s.value == 0 && s.index == 0 && s.length == 7);
    assert(coding.take(7) =~= coding);
    assert(coding.subrange(0, 7) =~= coding);
}

/// A configured device that is told that a line coding follows waits for it, takes one
/// that is valid and acknowledges it, and refuses any other and keeps the one it has.
pub proof fn law_a_line_coding_is_taken(
    d: DeviceView,
    bytes: [u8; 8],
    packet: Seq<u8>,
    halted: Halted,
)
    requires
        d.configuration != 0,
        bytes@ == seq![0x21u8, 0x20, 0, 0, 0, 0, 7, 0],
    ensures
        ({
            let waiting = went_well(d, Event::Setup(bytes), Seq::empty(), halted);
            let (d1, step) = super::device::after_event(waiting, Event::Out(0), packet, halted);
            &&& asked(d, bytes, halted) == Ok::<StepView, Error>(
                StepView {
                    commands: seq![CommandView::ArmOut { ep: 0 }],
                    commit: Commit::AwaitLineCoding,
                },
            )
            &&& waiting.line_coding == d.line_coding
            &&& if is_coding(packet) {
                &&& d1.line_coding == packet
                &&& step matches Ok(step) && step.commands == seq![
                    CommandView::WriteIn { ep: 0x80, data: Seq::<u8>::empty() },
                ]
            } else {
                &&& d1.line_coding == d.line_coding
                &&& step == refused()
            }
        }),
{
    let s = super::device::setup_of(bytes@);
    assert(s.value == 0 && s.index == 0 && s.length == 7);
}

/// 1200 baud asks for the bootloader where reboots are allowed, and nothing else does;
/// the reboot is asked for once the coding has been acknowledged.
pub proof fn law_1200_baud_asks_for_the_bootloader(d: DeviceView, coding: Seq<u8>, halted: Halted)
    requires
        d.control is LineCoding,
        is_coding(coding),
        d.reset is None,
    ensures
        ({
            let taken = went_well(d, Event::Out(0), coding, halted);
            let acknowledged = went_well(taken, Event::InComplete(0x80), Seq::empty(), halted);
            let slow = coding[0] == 0xB0 && coding[1] == 0x04 && coding[2] == 0 && coding[3] == 0;
            &&& taken.reset is None
            &&& acknowledged.reset == if slow && d.identity.allow_reset {
                Some(ResetTarget::Bootloader)
            } else {
                None
            }
        }),
{
}

/// Every device tells which configuration it is in.
pub proof fn law_the_configuration_reads_back(d: DeviceView, bytes: [u8; 8], halted: Halted)
    requires
        bytes@ == seq![0x80u8, 8, 0, 0, 0, 0, 1, 0],
    ensures
        asked(d, bytes, halted) == answered(seq![d.configuration]),
{
    let s = super::device::setup_of(bytes@);
    assert(s.value == 0 && s.index == 0 && s.length == 1);
    let data = seq![d.configuration];
    assert(data.take(1) =~= data);
    assert(data.subrange(0, 1) =~= data);
}

/// The device reports itself bus-powered and without remote wakeup.
pub proof fn law_the_device_status_is_plain(d: DeviceView, bytes: [u8; 8], halted: Halted)
    requires
        bytes@ == seq![0x80u8, 0, 0, 0, 0, 0, 2, 0],
    ensures
        asked(d, bytes, halted) == answered(seq![0u8, 0]),
{
    let s = super::device::setup_of(bytes@);
    assert(s.value == 0 && s.index == 0 && s.length == 2);
    let data = seq![0u8, 0];
    assert(data.take(2) =~= data);
    assert(data.subrange(0, 2) =~= data);
}

proof fn lemma_line_bits(v: u16, ep: u16)
    by (bit_vector)
    ensures
        (v & 1 != 0) == (v % 2 == 1),
        (ep & 15 != 0) == (ep % 16 != 0),
{
}

/// The control lines are what the host last set, from its acknowledgement on, and the
/// port is connected while it is configured, awake, and DTR is raised.
pub proof fn law_control_lines_are_the_hosts(
    d: DeviceView,
    v: u8,
    bytes: [u8; 8],
    halted: Halted,
)
    requires
        d.configuration != 0,
        v <= 3,
        bytes@ == seq![0x21u8, 0x22, v, 0, 0, 0, 0, 0],
    ensures
        ({
            let waiting = went_well(d, Event::Setup(bytes), Seq::empty(), halted);
            let set = went_well(waiting, Event::InComplete(0x80), Seq::empty(), halted);
            let status = super::device::status_of(set);
            &&& asked(d, bytes, halted) matches Ok(step) && step.commands == seq![
                CommandView::WriteIn { ep: 0x80, data: Seq::<u8>::empty() },
            ]
            &&& waiting.lines == d.lines
            &&& set.lines == v
            &&& status.configured
            &&& status.connected == (v % 2 == 1 && !d.suspended)
        }),
{
    let s = super::device::setup_of(bytes@);
    assert(s.value == v && s.index == 0 && s.length == 0);
    lemma_line_bits(v as u16, 0);
}

/// The data endpoints and the notification endpoint.
pub open spec fn data_endpoint(ep: u8) -> bool {
    ep == 2 || ep == 0x81 || ep == 0x82
}

/// A host can halt a data endpoint and clear it again; each takes effect with its
/// acknowledgement. What was under way on the endpoint is over then.
pub proof fn law_an_endpoint_is_halted_and_cleared(
    d: DeviceView,
    ep: u8,
    halt: bool,
    bytes: [u8; 8],
    halted: Halted,
)
    requires
        d.configuration != 0,
        data_endpoint(ep),
        bytes@ == seq![2u8, if halt { 3u8 } else { 1u8 }, 0, 0, ep, 0, 0, 0],
    ensures
        ({
            let waiting = went_well(d, Event::Setup(bytes), Seq::empty(), halted);
            let (d1, step) = super::device::after_event(
                waiting,
                Event::InComplete(0x80),
                Seq::empty(),
                halted,
            );
            let done = went_well(waiting, Event::InComplete(0x80), Seq::empty(), halted);
            &&& asked(d, bytes, halted) matches Ok(step) && step.commands == seq![
                CommandView::WriteIn { ep: 0x80, data: Seq::<u8>::empty() },
            ]
            &&& step matches Ok(step) && step.commands == seq![CommandView::SetStall { ep, halt }]
            &&& done.rx_armed == (d.rx_armed && ep != 2)
            &&& done.tx_busy == (d.tx_busy && ep != 0x82)
            &&& done.tx_zlp == (d.tx_zlp && ep != 0x82)
            &&& done.rx == d.rx && done.tx == d.tx
        }),
{
    let s = super::device::setup_of(bytes@);
    assert(s.value == 0 && s.index == ep && s.length == 0);
    lemma_line_bits(0, s.index);
}

/// Asked about an endpoint, a configured device says whether it is halted.
pub proof fn law_a_halt_reads_back(d: DeviceView, ep: u8, bytes: [u8; 8], halted: Halted)
    requires
        d.configuration != 0,
        data_endpoint(ep) || ep == 0 || ep == 0x80,
        bytes@ == seq![0x82u8, 0, 0, 0, ep, 0, 2, 0],
    ensures
        ({
            let is_halted = if ep == 0 {
                halted.control_out
            } else if ep == 0x80 {
                halted.control_in
            } else if ep == 0x81 {
                halted.notify
            } else if ep == 2 {
                halted.rx
            } else {
                halted.tx
            };
            asked(d, bytes, halted) == answered(
                seq![if is_halted { 1u8 } else { 0u8 }, 0],
            )
        }),
{
    let s = super::device::setup_of(bytes@);
    assert(s.value == 0 && s.index == ep && s.length == 2);
    let data = seq![if halted.of(ep as int) { 1u8 } else { 0u8 }, 0];
    assert(data.take(2) =~= data);
    assert(data.subrange(0, 2) =~= data);
}

/// The two reboot requests ask for what they say, once acknowledged, of a configured
/// device whose board allows it; any other device refuses them.
pub proof fn law_a_reboot_is_the_one_asked_for(
    d: DeviceView,
    bootloader: bool,
    bytes: [u8; 8],
    halted: Halted,
)
    requires
        bytes@ == seq![0x41u8, if bootloader { 1u8 } else { 2u8 }, 0, 0, 2, 0, 0, 0],
        d.reset is None,
    ensures
        ({
            let waiting = went_well(d, Event::Setup(bytes), Seq::empty(), halted);
            let done = went_well(waiting, Event::InComplete(0x80), Seq::empty(), halted);
            if d.configuration != 0 && d.identity.allow_reset {
                &&& waiting.reset is None
                &&& done.reset == Some(
                    if bootloader {
                        ResetTarget::Bootloader
                    } else {
                        ResetTarget::Application
                    },
                )
            } else {
                &&& asked(d, bytes, halted) == refused()
                &&& done.reset is None
            }
        }),
{
    let s = super::device::setup_of(bytes@);
    assert(s.value == 0 && s.index == 2 && s.length == 0);
}

/// A request for a descriptor is answered with the beginning of it, as much as the host
/// asked for and a packet holds; for one that there is not, it is refused.
pub proof fn law_a_descriptor_is_the_one_asked_for(
    d: DeviceView,
    kind: u8,
    index: u8,
    language: u16,
    bytes: [u8; 8],
    halted: Halted,
)
    requires
        bytes@ == seq![
            0x80u8,
            6,
            index,
            kind,
            (language % 256) as u8,
            (language / 256) as u8,
            64,
            0,
        ],
    ensures
        match super::descriptors::descriptor_bytes(
            d.identity,
            (256 * kind + index) as u16,
            language,
        ) {
            Some(all) => {
                let first = if all.len() <= 64 { all } else { all.take(64) };
                &&& asked(d, bytes, halted) matches Ok(step)
                &&& step.commands == seq![CommandView::WriteIn { ep: 0x80, data: first }]
            },
            None => asked(d, bytes, halted) == refused(),
        },
{
    let s = super::device::setup_of(bytes@);
    assert(s.value == 256 * kind + index && s.index == language && s.length == 64);
    if let Some(all) = super::descriptors::descriptor_bytes(d.identity, s.value, s.index) {
        let n = if all.len() <= 64 { all.len() as int } else { 64 };
        assert(all.take(n).subrange(0, n) =~= if all.len() <= 64 {
            all
        } else {
            all.take(64)
        });
    }
}

/// The device descriptor is whole, names the board, and points at the strings that there
/// are.
pub proof fn law_the_device_descriptor_names_the_board(identity: Identity)
    ensures
        ({
            let b = super::descriptors::device_descriptor(identity);
            &&& b.len() == 18 && b[0] == 18 && b[1] == 1
            &&& b[7] == 64
            &&& b[8] + 256 * b[9] == identity.vid
            &&& b[10] + 256 * b[11] == identity.pid
            &&& b[17] == 1
            &&& super::descriptors::descriptor_bytes(identity, (0x300 + b[14]) as u16, 0x0409)
                == super::descriptors::string_descriptor(identity.manufacturer@)
            &&& super::descriptors::descriptor_bytes(identity, (0x300 + b[15]) as u16, 0x0409)
                == super::descriptors::string_descriptor(identity.product@)
            &&& match identity.serial {
                Some(serial) => b[16] != 0 && super::descriptors::descriptor_bytes(
                    identity,
                    (0x300 + b[16]) as u16,
                    0x0409,
                ) == super::descriptors::string_descriptor(serial@),
                None => b[16] == 0,
            }
        }),
{
}

/// The configuration descriptor is whole and declares three interfaces, and the very
/// endpoints that setting the configuration sets up: one for notifications, and one of 64
/// bytes for data each way.
pub proof fn law_the_configuration_descriptor_declares_the_endpoints()
    ensures
        CONFIG@.len() == 84,
        CONFIG@[0] == 9 && CONFIG@[1] == 2,
        CONFIG@[2] + 256 * CONFIG@[3] == 84,
        CONFIG@[4] == 3,
        CONFIG@.subrange(45, 52) == seq![7u8, 5, 0x81, 3, 8, 0, 16],
        CONFIG@.subrange(61, 68) == seq![7u8, 5, 0x02, 2, 64, 0, 0],
        CONFIG@.subrange(68, 75) == seq![7u8, 5, 0x82, 2, 64, 0, 0],
{
    assert(CONFIG@.subrange(45, 52) =~= seq![7u8, 5, 0x81, 3, 8, 0, 16]);
    assert(CONFIG@.subrange(61, 68) =~= seq![7u8, 5, 0x02, 2, 64, 0, 0]);
    assert(CONFIG@.subrange(68, 75) =~= seq![7u8, 5, 0x82, 2, 64, 0, 0]);
}

/// The last word of some bytes, low byte first.
pub open spec fn last_word(bytes: Seq<u8>) -> int {
    bytes[bytes.len() - 2] + 256 * bytes[bytes.len() - 1]
}

/// The code points that bytes in UTF-16, low bytes first, spell: a word of its own, or the
/// two halves of a pair.
pub open spec fn spelled(bytes: Seq<u8>) -> Seq<int>
    decreases bytes.len(),
{
    if bytes.len() < 2 {
        Seq::empty()
    } else {
        let rest = bytes.take(bytes.len() - 2);
        let low = last_word(bytes);
        if 0xDC00 <= low < 0xE000 && rest.len() >= 2 {
            let high = last_word(rest);
            spelled(rest.take(rest.len() - 2)).push(
                0x1_0000 + 0x400 * (high - 0xD800) + (low - 0xDC00),
            )
        } else {
            spelled(rest).push(low)
        }
    }
}

/// A character's code point is no half of a pair.
proof fn lemma_code_point(c: char)
    ensures
        0 <= c as int <= 0x10_FFFF,
        !(0xD800 <= c as int && (c as int) < 0xE000),
{
}

proof fn lemma_spelled(text: Seq<char>)
    ensures
        spelled(super::descriptors::utf16le(text)) == text.map_values(|c: char| c as int),
    decreases text.len(),
{
    let bytes = super::descriptors::utf16le(text);
    if text.len() > 0 {
        let before = super::descriptors::utf16le(text.drop_last());
        let c = text.last();
        let code = c as int;
        lemma_code_point(c);
        lemma_spelled(text.drop_last());
        let rest = bytes.take(bytes.len() - 2);
        let own = super::descriptors::utf16le_char(c);
        assert(bytes == before + own);
        if code < 0x1_0000 {
            assert(own =~= seq![(code % 256) as u8, (code / 256) as u8]);
            assert(bytes[bytes.len() - 2] == own[0] && bytes[bytes.len() - 1] == own[1]);
            assert(rest =~= before);
            assert(last_word(bytes) == code);
        } else {
            let high = 0xD800 + (code - 0x1_0000) / 0x400;
            let low = 0xDC00 + (code - 0x1_0000) % 0x400;
            assert(own =~= seq![
                (high % 256) as u8,
                (high / 256) as u8,
                (low % 256) as u8,
                (low / 256) as u8,
            ]);
            assert(bytes[bytes.len() - 2] == own[2] && bytes[bytes.len() - 1] == own[3]);
            assert(rest[rest.len() - 2] == own[0] && rest[rest.len() - 1] == own[1]);
            assert(last_word(bytes) == low);
            assert(last_word(rest) == high);
            assert(rest.take(rest.len() - 2) =~= before);
        }
        assert(spelled(bytes) =~= text.map_values(|c: char| c as int));
    } else {
        assert(spelled(bytes) =~= text.map_values(|c: char| c as int));
    }
}

/// A string descriptor says how long it is and spells its text; only a text that does not
/// fit has none.
pub proof fn law_a_string_descriptor_spells_its_text(text: Seq<char>)
    ensures
        match super::descriptors::string_descriptor(text) {
            Some(bytes) => {
                &&& bytes.len() <= 254
                &&& bytes[0] == bytes.len()
                &&& bytes[1] == 3
                &&& spelled(bytes.skip(2)) == text.map_values(|c: char| c as int)
            },
            None => 2 + super::descriptors::utf16le(text).len() > 254,
        },
{
    lemma_spelled(text);
    if let Some(bytes) = super::descriptors::string_descriptor(text) {
        assert(bytes.skip(2) =~= super::descriptors::utf16le(text));
    }
}

/// A queue takes all that it has room for and no more.
pub proof fn law_a_queue_takes_what_fits(held: nat, len: nat)
    requires
        held <= 512,
    ensures
        0 <= super::device::room_for(held, len) <= len,
        held + super::device::room_for(held, len) <= 512,
        super::device::room_for(held, len) == len || held + super::device::room_for(held, len)
            == 512,
{
}

/// A configured device asks for a data packet whenever none is awaited, the endpoint is
/// not halted and a whole packet fits, and at no other time.
pub proof fn law_a_packet_is_asked_for_when_it_fits(d: DeviceView, halted: Halted)
    ensures
        (super::device::arming(d, halted).commands.len() > 0) == (d.configuration != 0
            && !d.rx_armed && !halted.rx && d.rx.len() + 64 <= 512),
        super::device::arming(d, halted).commands.len() > 0 ==> {
            &&& super::device::arming(d, halted).commands == seq![CommandView::ArmOut { ep: 2 }]
            &&& super::device::committed(d, super::device::arming(d, halted).commit).rx_armed
        },
{
}

/// A connected host that is not busy with a packet is sent one as long as bytes are
/// queued, or one more, empty, where the last was full; the device counts as idle when
/// there is nothing more to send.
pub proof fn law_a_connected_host_is_sent_what_is_queued(d: DeviceView, halted: Halted)
    ensures
        ({
            let up = d.configuration != 0 && super::device::status_of(d).connected;
            (super::device::sending(d, halted).commands.len() > 0) == (up && !d.tx_busy
                && !halted.tx && (d.tx.len() > 0 || d.tx_zlp))
        }),
        super::device::status_of(d).transmit_idle ==> super::device::sending(
            d,
            halted,
        ).commands.len() == 0,
        super::device::status_of(d).connected && !halted.tx && !d.tx_busy
            && super::device::sending(d, halted).commands.len() == 0
            ==> super::device::status_of(d).transmit_idle,
{
}

/// An acknowledged data packet makes way for the next; nothing else does, short of a
/// reset, a configuration or a cleared halt.
pub proof fn law_an_acknowledged_packet_makes_way(d: DeviceView, halted: Halted)
    ensures
        ({
            let (d1, step) = super::device::after_event(
                d,
                Event::InComplete(0x82),
                Seq::empty(),
                halted,
            );
            &&& !d1.tx_busy
            &&& d1.tx == d.tx && d1.tx_zlp == d.tx_zlp
            &&& step == Ok::<StepView, Error>(
                StepView { commands: Seq::empty(), commit: Commit::Nothing },
            )
        }),
{
}

/// The bus going to sleep and waking up is noted, and nothing is lost by it.
pub proof fn law_sleep_is_noted(d: DeviceView, halted: Halted)
    ensures
        super::device::after_event(d, Event::Suspend, Seq::empty(), halted).0 == (DeviceView {
            suspended: true,
            ..d
        }),
        super::device::after_event(d, Event::Resume, Seq::empty(), halted).0 == (DeviceView {
            suspended: false,
            ..d
        }),
        !super::device::status_of(DeviceView { suspended: true, ..d }).connected,
{
}

/// The counters count: setup packets, bus resets, and the bytes of the packets taken and
/// sent.
pub proof fn law_the_counters_count(
    d: DeviceView,
    bytes: [u8; 8],
    packet: Seq<u8>,
    len: usize,
    halted: Halted,
)
    requires
        packet.len() <= 64,
        d.rx.len() + packet.len() <= 512,
        d.configuration != 0,
        len <= 64,
    ensures
        super::device::after_event(d, Event::Setup(bytes), Seq::empty(), halted).0.stats.setups == (
        d.stats.setups + 1) % 0x1_0000_0000,
        super::device::after_event(d, Event::Reset, Seq::empty(), halted).0.stats.resets == (
        d.stats.resets + 1) % 0x1_0000_0000,
        super::device::after_event(d, Event::Out(2), packet, halted).0.stats.received == (
        d.stats.received + packet.len()) % 0x1_0000_0000,
        super::device::committed(d, Commit::TxSent(len)).stats.transmitted == (d.stats.transmitted
            + len) % 0x1_0000_0000,
{
}

/// A data packet that arrives joins the end of the queue, in order.
pub proof fn law_a_packet_joins_the_queue(d: DeviceView, packet: Seq<u8>, halted: Halted)
    requires
        d.configuration != 0,
        d.rx.len() + packet.len() <= 512,
    ensures
        ({
            let (d1, step) = super::device::after_event(d, Event::Out(2), packet, halted);
            &&& d1.rx == d.rx + packet
            &&& !d1.rx_armed
            &&& d1.tx == d.tx
            &&& step is Ok
        }),
{
    assert(packet.take(packet.len() as int) =~= packet);
}

/// Before a device has an address it cannot be configured, and once configured it keeps
/// its address.
pub proof fn law_address_before_configuration(
    d: DeviceView,
    v: u8,
    bytes: [u8; 8],
    halted: Halted,
)
    requires
        v <= 127,
    ensures
        bytes@ == seq![0u8, 9, v, 0, 0, 0, 0, 0] && d.address == 0 ==> asked(d, bytes, halted)
            == refused(),
        bytes@ == seq![0u8, 5, v, 0, 0, 0, 0, 0] && d.configuration != 0 ==> asked(
            d,
            bytes,
            halted,
        ) == refused(),
        bytes@ == seq![0u8, 9, v, 0, 0, 0, 0, 0] && v > 1 ==> asked(d, bytes, halted) == refused(),
{
    let s = super::device::setup_of(bytes@);
    if bytes@ == seq![0u8, 9, v, 0, 0, 0, 0, 0] || bytes@ == seq![0u8, 5, v, 0, 0, 0, 0, 0] {
        assert(s.value == v && s.index == 0 && s.length == 0);
    }
}

/// Nothing of the serial port is to be had before the device is configured.
pub proof fn law_class_requests_need_a_configuration(
    d: DeviceView,
    bytes: [u8; 8],
    halted: Halted,
)
    requires
        d.configuration == 0,
        bytes@[0] == 0x21 || bytes@[0] == 0xa1 || bytes@[0] == 0x41 || bytes@[0] == 0x01
            || bytes@[0] == 0x81,
    ensures
        asked(d, bytes, halted) == refused(),
{
}

/// A line coding is taken that is whole, with one, one and a half or two stop bits, one of five
/// parities, five to eight data bits and any speed but none; its speed is its first four bytes,
/// low one first.
pub proof fn law_a_line_coding_is_checked(baud: u32, stop: u8, parity: u8, bits: u8)
    ensures
        ({
            let p = seq![
                (baud % 256) as u8,
                (baud / 256 % 256) as u8,
                (baud / 65536 % 256) as u8,
                (baud / 16777216) as u8,
                stop,
                parity,
                bits,
            ];
            &&& super::device::baud_of(p) == baud
            &&& super::device::line_coding_valid(p) == (stop <= 2 && parity <= 4 && 5 <= bits <= 8
                && baud != 0)
            &&& !super::device::line_coding_valid(p.drop_last())
            &&& !super::device::line_coding_valid(p.push(bits))
        }),
{
}

/// A configured device has three interfaces with one setting each: it says so, and takes the
/// choice of it without effect.
pub proof fn law_an_interface_has_one_setting(d: DeviceView, interface: u8, halted: Halted)
    requires
        d.configuration != 0,
        interface < 3,
    ensures
        asked(d, [0x81, 10, 0, 0, interface, 0, 1, 0], halted) == answered(seq![0u8]),
        asked(d, [0x81, 0, 0, 0, interface, 0, 2, 0], halted) == answered(seq![0u8, 0]),
        asked(d, [1, 11, 0, 0, interface, 0, 0, 0], halted) == Ok::<StepView, Error>(
            StepView {
                commands: seq![CommandView::WriteIn { ep: 0x80, data: Seq::empty() }],
                commit: Commit::AwaitAck(super::device::Action::Nothing),
            },
        ),
        asked(d, [0x21, 0x23, 0, 0, 0, 0, 0, 0], halted) == Ok::<StepView, Error>(
            StepView {
                commands: seq![CommandView::WriteIn { ep: 0x80, data: Seq::empty() }],
                commit: Commit::AwaitAck(super::device::Action::Nothing),
            },
        ),
{
    let one = super::device::setup_of([0x81u8, 10, 0, 0, interface, 0, 1, 0]@);
    assert(one.kind == 0x81 && one.request == 10 && one.value == 0 && one.length == 1);
    assert(one.index == interface as u16);
    let two = super::device::setup_of([0x81u8, 0, 0, 0, interface, 0, 2, 0]@);
    assert(two.kind == 0x81 && two.request == 0 && two.value == 0 && two.length == 2);
    assert(two.index == interface as u16);
    let a = seq![0u8];
    assert(a.take(1) =~= a);
    assert(a.subrange(0, 1) =~= a);
    let b = seq![0u8, 0];
    assert(b.take(2) =~= b);
    assert(b.subrange(0, 2) =~= b);
}

/// Endpoint 0 is always there, in both directions; the three of the interfaces are once the
/// device is configured, and no other ever is.
pub proof fn law_the_endpoints_are_those_declared(configuration: u8, index: u16)
    ensures
        super::device::endpoint_exists(configuration, 0),
        super::device::endpoint_exists(configuration, 0x80),
        super::device::endpoint_exists(configuration, index) ==> index == 0 || index == 0x80
            || index == 2 || index == 0x81 || index == 0x82,
        (index == 2 || index == 0x81 || index == 0x82) ==> super::device::endpoint_exists(
            configuration,
            index,
        ) == (configuration != 0),
{
}

/// The binary object store says how long the vendor's descriptor set is and by which request it
/// is had, and that request gets a set of that length, which says so too.
pub proof fn law_the_vendor_set_is_as_long_as_it_says(d: DeviceView, halted: Halted)
    ensures
        ({
            let bos = super::descriptors::descriptor_bytes(d.identity, 0x0F00, 0)->0;
            let set = super::descriptors::microsoft_bytes();
            let bytes = [0xC0u8, bos[31], 0, 0, 7, 0, 255, 0];
            &&& super::descriptors::descriptor_bytes(d.identity, 0x0F00, 0) is Some
            &&& bos.len() == 33
            &&& bos[2] + 256 * bos[3] == 33
            &&& set.len() == bos[29] + 256 * bos[30]
            &&& set.len() == set[8] + 256 * set[9]
            &&& super::device::answer(d, super::device::setup_of(bytes@), halted)
                == super::device::Answer::Data(set)
        }),
{
    reveal_strlit("DeviceInterfaceGUID\0");
    reveal_strlit("{bc7398c1-73cd-4cb7-98b8-913a8fca7bf6}\0");
    super::descriptors::lemma_utf16le_len(super::descriptors::property_name());
    super::descriptors::lemma_utf16le_len(super::descriptors::property_value());
}

/// A data packet means nothing to a device without a configuration, and a packet on an
/// endpoint that takes none means nothing to any.
pub proof fn law_a_packet_nobody_asked_for_is_ignored(
    d: DeviceView,
    ep: u8,
    packet: Seq<u8>,
    halted: Halted,
)
    requires
        ep != 0,
        ep == 2 ==> !super::device::status_of(d).configured,
    ensures
        super::device::after_event(d, Event::Out(ep), packet, halted) == (
            d,
            Ok::<StepView, Error>(
                StepView { commands: Seq::empty(), commit: Commit::Nothing },
            ),
        ),
{
}

/// A data packet that does not fit is an error. The queue takes the front of it up to
/// 512 bytes, and loses nothing that it held; the packet does not count as received.
pub proof fn law_a_packet_too_long_is_an_error(d: DeviceView, packet: Seq<u8>, halted: Halted)
    requires
        d.configuration != 0,
        d.rx.len() <= 512,
        d.rx.len() + packet.len() > 512,
    ensures
        ({
            let (d1, step) = super::device::after_event(d, Event::Out(2), packet, halted);
            &&& step == Err::<StepView, Error>(Error::Hardware)
            &&& d1.rx.len() == 512
            &&& d1.rx == (d.rx + packet).take(512)
            &&& d1 == (DeviceView { rx: d1.rx, ..d })
        }),
{
    let d1 = super::device::after_event(d, Event::Out(2), packet, halted).0;
    assert(d1.rx =~= (d.rx + packet).take(512));
}

} // verus!
