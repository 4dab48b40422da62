//! What holds of the serial device as a whole.

use vstd::prelude::*;

use super::descriptors::Identity;
use super::device::{
    Action, CommandView, Commit, ControlView, DeviceView, EndpointType, Error, Event, Halted,
    Status, StepView,
};
use super::serial::{PortView, ReplyView, RequestView, Stage, EVENT_BUDGET};

verus! {

/// The device's address changes only on a bus reset, or when the status stage of
/// the request that set it is acknowledged.
pub proof fn law_address_waits_for_acknowledgement(
    d: DeviceView,
    event: Event,
    packet: Seq<u8>,
    halted: Halted,
)
    ensures
        ({
            let d1 = super::device::after_event(d, event, packet, halted).0;
            d1.address != d.address ==> event is Reset || event == Event::InComplete(0x80)
                && d.control == ControlView::StatusIn(Action::Address(d1.address))
        }),
        forall|commit: Commit| #[trigger]
            super::device::committed(d, commit).address == d.address,
{
}

/// The configuration changes only on a bus reset, or when the status stage of the
/// request that set it is acknowledged.
pub proof fn law_configuration_waits_for_acknowledgement(
    d: DeviceView,
    event: Event,
    packet: Seq<u8>,
    halted: Halted,
)
    ensures
        ({
            let d1 = super::device::after_event(d, event, packet, halted).0;
            d1.configuration != d.configuration ==> event is Reset || event == Event::InComplete(
                0x80,
            ) && d.control == ControlView::StatusIn(Action::Configuration(d1.configuration))
        }),
        forall|commit: Commit| #[trigger]
            super::device::committed(d, commit).configuration == d.configuration,
{
}

/// A reboot is published only when the status stage of the request for it is
/// acknowledged, and a bus reset withdraws it.
pub proof fn law_reboot_waits_for_acknowledgement(
    d: DeviceView,
    event: Event,
    packet: Seq<u8>,
    halted: Halted,
)
    ensures
        ({
            let d1 = super::device::after_event(d, event, packet, halted).0;
            d1.reset != d.reset ==> event is Reset && d1.reset is None || event
                == Event::InComplete(0x80) && d1.reset is Some && d.control
                == ControlView::StatusIn(Action::Reset(d1.reset->0))
        }),
        event is Reset ==> super::device::after_event(d, event, packet, halted).0.reset is None,
        forall|commit: Commit| #[trigger]
            super::device::committed(d, commit).reset == d.reset,
{
}

/// No reboot is pending, awaited or about to be awaited unless the board allows
/// reboots.
pub open spec fn reboot_allowed(p: PortView) -> bool {
    let asked = {
        ||| p.device.reset is Some
        ||| p.device.control matches ControlView::StatusIn(action) && action is Reset
        ||| p.service.commit matches Commit::AwaitAck(action) && action is Reset
    };
    asked ==> p.device.identity.allow_reset
}

/// The same of the device and a commit alone.
spec fn reboot_allowed_in(d: DeviceView, commit: Commit) -> bool {
    let asked = {
        ||| d.reset is Some
        ||| d.control matches ControlView::StatusIn(action) && action is Reset
        ||| commit matches Commit::AwaitAck(action) && action is Reset
    };
    asked ==> d.identity.allow_reset
}

proof fn lemma_event_obeys_policy(d: DeviceView, event: Event, packet: Seq<u8>, halted: Halted)
    requires
        reboot_allowed_in(d, Commit::Nothing),
    ensures
        ({
            let (d1, result) = super::device::after_event(d, event, packet, halted);
            &&& d1.identity == d.identity
            &&& reboot_allowed_in(d1, Commit::Nothing)
            &&& result matches Ok(step) ==> reboot_allowed_in(d1, step.commit)
        }),
{
}

/// The reboot policy holds at the start and through every step of the service.
pub proof fn law_reboot_obeys_policy(
    identity: Identity,
    p: PortView,
    reply: ReplyView,
    halted: Halted,
)
    requires
        reboot_allowed(p),
    ensures
        reboot_allowed(super::serial::serviced(p, reply, halted).0),
        super::serial::serviced(p, reply, halted).0.device.identity == p.device.identity,
        reboot_allowed(
            PortView {
                device: super::device::fresh(identity),
                service: super::serial::resting(0),
            },
        ),
{
    match reply {
        ReplyView::Event(event) => {
            if event is Some {
                lemma_event_obeys_policy(p.device, event->0, Seq::empty(), halted);
            }
        },
        ReplyView::Packet(bytes) => {
            if let Stage::Reading(ep) = p.service.stage {
                lemma_event_obeys_policy(p.device, Event::Out(ep), bytes, halted);
            }
        },
        _ => {},
    }
}

/// While a data packet is awaited, or about to be, there is room for one.
pub open spec fn room_when_armed(p: PortView) -> bool {
    p.device.rx_armed || p.service.commit is RxArmed ==> p.device.rx.len() <= 448
}

/// Room for the awaited packet is kept through every step of the service, and
/// reading never takes it away.
pub proof fn law_armed_means_room(p: PortView, reply: ReplyView, halted: Halted, read: int)
    requires
        room_when_armed(p),
        0 <= read <= p.device.rx.len(),
        reply matches ReplyView::Packet(bytes) ==> bytes.len() <= 64,
    ensures
        room_when_armed(super::serial::serviced(p, reply, halted).0),
        room_when_armed(
            PortView { device: DeviceView { rx: p.device.rx.skip(read), ..p.device }, ..p },
        ),
{
}

/// A packet that was asked for is queued whole behind the unread bytes, which it
/// leaves as they are.
pub proof fn law_awaited_packet_overwrites_nothing(
    p: PortView,
    packet: Seq<u8>,
    halted: Halted,
)
    requires
        room_when_armed(p),
        p.device.rx_armed,
        p.device.configuration != 0,
        packet.len() <= 64,
    ensures
        ({
            let (d1, result) = super::device::after_event(
                p.device,
                Event::Out(2),
                packet,
                halted,
            );
            &&& result is Ok
            &&& d1.rx == p.device.rx + packet
            &&& !d1.rx_armed
        }),
{
    assert(packet.take(packet.len() as int) =~= packet);
}

/// A new setup packet is answered the same whatever the control transfer before
/// it had come to.
pub proof fn law_setup_forgets_the_transfer_before(
    d: DeviceView,
    control: ControlView,
    bytes: [u8; 8],
    halted: Halted,
)
    ensures
        super::device::after_event(d, Event::Setup(bytes), Seq::empty(), halted)
            == super::device::after_event(
            DeviceView { control, ..d },
            Event::Setup(bytes),
            Seq::empty(),
            halted,
        ),
{
}

/// In every state a request for the device descriptor is answered with it.
pub proof fn law_device_descriptor_is_always_sent(d: DeviceView, bytes: [u8; 8], halted: Halted)
    requires
        bytes@ == seq![0x80u8, 6, 0, 1, 0, 0, 18, 0],
    ensures
        super::device::after_event(d, Event::Setup(bytes), Seq::empty(), halted).1 == Ok::<
            StepView,
            Error,
        >(
            StepView {
                commands: seq![
                    CommandView::WriteIn {
                        ep: 0x80,
                        data: super::descriptors::device_descriptor(d.identity),
                    },
                ],
                commit: Commit::ReplySent { to: 18, zlp: false },
            },
        ),
{
    let s = super::device::setup_of(bytes@);
    assert(s.value == 0x100 && s.index == 0 && s.length == 18);
    let data = super::descriptors::device_descriptor(d.identity);
    assert(data.len() == 18);
    assert(data.take(18) =~= data);
    assert(data.subrange(0, 18) =~= data);
}

/// A request the device does not know changes nothing but its counters and halts
/// endpoint 0.
pub proof fn law_refused_request_changes_nothing(d: DeviceView, bytes: [u8; 8], halted: Halted)
    requires
        super::device::answer(d, super::device::setup_of(bytes@), halted) is Refuse,
    ensures
        ({
            let (d1, result) = super::device::after_event(
                d,
                Event::Setup(bytes),
                Seq::empty(),
                halted,
            );
            &&& d1 == DeviceView {
                control: ControlView::Idle,
                stats: Status {
                    setups: d.stats.setups.wrapping_add(1),
                    stalls: d.stats.stalls.wrapping_add(1),
                    ..d.stats
                },
                ..d
            }
            &&& result == Ok::<StepView, Error>(
                StepView {
                    commands: seq![
                        CommandView::SetStall { ep: 0, halt: true },
                        CommandView::SetStall { ep: 0x80, halt: true },
                    ],
                    commit: Commit::Nothing,
                },
            )
        }),
{
}

/// Queued bytes leave in order: the packet sent is the front of the queue, and
/// recording it leaves the rest. A full packet is followed by another, if only an
/// empty one.
pub proof fn law_bytes_leave_in_order(d: DeviceView, halted: Halted)
    ensures
        ({
            let step = super::device::sending(d, halted);
            step.commands.len() > 0 ==> {
                let d1 = super::device::committed(d, step.commit);
                &&& step.commands.len() == 1
                &&& step.commands[0] matches CommandView::WriteIn { ep, data }
                &&& ep == 0x82
                &&& data.len() <= 64
                &&& d.tx == data + d1.tx
                &&& d1.tx_busy
                &&& d1.tx_zlp == (data.len() == 64)
            }
        }),
{
    let step = super::device::sending(d, halted);
    if step.commands.len() > 0 {
        let len = if d.tx.len() <= 64 { d.tx.len() as int } else { 64 };
        assert(d.tx =~= d.tx.take(len) + d.tx.skip(len));
    }
}

/// A sleeping or unconfigured host, or one without DTR, is sent nothing, and what
/// is queued for it stays.
pub proof fn law_unconnected_host_is_sent_nothing(d: DeviceView, halted: Halted)
    requires
        !super::device::connected(d),
    ensures
        super::device::sending(d, halted) == super::device::quiet(),
        super::device::committed(d, super::device::sending(d, halted).commit) == d,
{
}

/// A bus reset discards queued data, whatever was under way and a pending reboot, and
/// unconfigures an awake device without an address. The line coding outlasts it.
pub proof fn law_bus_reset_discards(d: DeviceView, halted: Halted)
    ensures
        ({
            let d1 = super::device::after_event(d, Event::Reset, Seq::empty(), halted).0;
            &&& d1.rx.len() == 0 && d1.tx.len() == 0
            &&& d1.reset is None
            &&& !super::device::status_of(d1).configured
            &&& !super::device::status_of(d1).connected
            &&& d1.stats.resets == d.stats.resets.wrapping_add(1)
            &&& d1.address == 0 && d1.configuration == 0 && d1.lines == 0
            &&& !d1.suspended && !d1.rx_armed && !d1.tx_busy && !d1.tx_zlp
            &&& d1.control is Idle
            &&& super::device::status_of(d1).transmit_idle
            &&& d1.line_coding == d.line_coding && d1.identity == d.identity
        }),
{
}

/// The packets in which a reply still goes out.
pub open spec fn packets(data: Seq<u8>, sent: int, zlp: bool) -> Seq<Seq<u8>>
    decreases data.len() - sent,
{
    if 0 <= sent < data.len() {
        let end = if sent + 64 <= data.len() { sent + 64 } else { data.len() as int };
        seq![data.subrange(sent, end)] + packets(data, end, zlp)
    } else if zlp {
        seq![Seq::empty()]
    } else {
        Seq::empty()
    }
}

/// The bytes of a run of packets.
pub open spec fn joined(run: Seq<Seq<u8>>) -> Seq<u8>
    decreases run.len(),
{
    if run.len() == 0 {
        Seq::empty()
    } else {
        run[0] + joined(run.skip(1))
    }
}

/// The device sends exactly these packets: each step is the next of them, and
/// when none is left it turns to the host's status stage.
pub proof fn law_reply_goes_out_in_packets(d: DeviceView)
    requires
        d.control matches ControlView::In { data, sent, zlp } && 0 <= sent <= data.len() <= 256,
    ensures
        d.control matches ControlView::In { data, sent, zlp } && {
            let step = super::device::next_packet(d);
            let left = packets(data, sent, zlp);
            if left.len() == 0 {
                step.commands == seq![CommandView::ArmOut { ep: 0 }]
            } else {
                &&& step.commands == seq![CommandView::WriteIn { ep: 0x80, data: left[0] }]
                &&& super::device::committed(d, step.commit).control matches ControlView::In {
                    data: data1,
                    sent: sent1,
                    zlp: zlp1,
                }
                &&& data1 == data
                &&& packets(data1, sent1, zlp1) == left.skip(1)
            }
        },
{
    if let ControlView::In { data, sent, zlp } = d.control {
        let left = packets(data, sent, zlp);
        if sent < data.len() {
            let end = if sent + 64 <= data.len() { sent + 64 } else { data.len() as int };
            assert(left.skip(1) =~= packets(data, end, zlp));
        } else if zlp {
            assert(left.skip(1) =~= packets(data, sent, false));
        }
    }
}

/// Put together, the packets are the bytes not sent yet; every packet before the
/// last is full, and the last is short when an empty packet was owed or the data
/// do not end on a packet boundary. An empty packet is only owed to data that do.
pub proof fn law_reply_is_whole(data: Seq<u8>, sent: int, zlp: bool)
    requires
        0 <= sent <= data.len(),
        sent % 64 == 0,
        zlp ==> data.len() % 64 == 0,
    ensures
        joined(packets(data, sent, zlp)) == data.skip(sent),
        forall|i: int|
            0 <= i < packets(data, sent, zlp).len() - 1 ==> (#[trigger] packets(
                data,
                sent,
                zlp,
            )[i]).len() == 64,
        packets(data, sent, zlp).len() > 0 ==> packets(data, sent, zlp).last().len() <= 64,
        zlp || sent < data.len() && data.len() % 64 != 0 ==> packets(data, sent, zlp).len() > 0
            && packets(data, sent, zlp).last().len() < 64,
    decreases data.len() - sent,
{
    let run = packets(data, sent, zlp);
    if sent < data.len() {
        let end = if sent + 64 <= data.len() { sent + 64 } else { data.len() as int };
        let rest = packets(data, end, zlp);
        assert(run.skip(1) =~= rest);
        if end % 64 == 0 {
            law_reply_is_whole(data, end, zlp);
        } else {
            assert(rest =~= Seq::empty());
            assert(joined(rest) =~= data.skip(end));
        }
        assert(data.subrange(sent, end) + data.skip(end) =~= data.skip(sent));
        assert forall|i: int| 0 <= i < run.len() - 1 implies (#[trigger] run[i]).len() == 64 by {
            if i > 0 {
                assert(run[i] == rest[i - 1]);
            }
        }
        if rest.len() > 0 {
            assert(run.last() == rest.last());
        }
    } else {
        assert(run.skip(1) =~= Seq::empty() || run.len() == 0);
        assert(joined(run) =~= data.skip(sent)) by {
            reveal_with_fuel(joined, 2);
        }
    }
}

/// A host that asks for `requested` bytes gets as many of the reply as that, and
/// where the reply falls short a short packet tells it so.
pub proof fn law_host_sees_where_the_reply_ends(d: DeviceView, data: Seq<u8>, requested: u16)
    requires
        requested > 0,
    ensures
        super::device::replied(d, data, requested).0.control matches ControlView::In {
            data: reply,
            sent,
            zlp,
        } && {
            let run = packets(reply, sent, zlp);
            &&& sent == 0
            &&& joined(run) == data.take(
                if data.len() <= requested {
                    data.len() as int
                } else {
                    requested as int
                },
            )
            &&& data.len() < requested ==> run.len() > 0 && run.last().len() < 64
        },
{
    if let ControlView::In { data: reply, sent, zlp } = super::device::replied(
        d,
        data,
        requested,
    ).0.control {
        law_reply_is_whole(reply, 0, zlp);
        assert(reply.skip(0) =~= reply);
    }
}

/// A device after some setup packets, each with the halted endpoints it met and whether
/// what it called for succeeded.
pub open spec fn set_up(d: DeviceView, given: Seq<([u8; 8], Halted, bool)>) -> DeviceView
    decreases given.len(),
{
    if given.len() == 0 {
        d
    } else {
        let (bytes, halted, succeeded) = given.last();
        let (d1, result) = super::device::after_event(
            set_up(d, given.drop_last()),
            Event::Setup(bytes),
            Seq::empty(),
            halted,
        );
        match result {
            Ok(step) => if succeeded {
                super::device::committed(d1, step.commit)
            } else {
                d1
            },
            Err(e) => d1,
        }
    }
}

/// Setup packets alone, however many and whatever they ask for, granted or refused,
/// change nothing of a device but its control transfer and its counters.
pub proof fn law_setups_alone_change_nothing(d: DeviceView, given: Seq<([u8; 8], Halted, bool)>)
    ensures
        set_up(d, given) == (DeviceView {
            control: set_up(d, given).control,
            stats: set_up(d, given).stats,
            ..d
        }),
    decreases given.len(),
{
    if given.len() > 0 {
        law_setups_alone_change_nothing(d, given.drop_last());
    }
}

/// A request to set the address takes effect when its status stage is acknowledged and
/// only then: the controller is given the address once, and the next acknowledgement
/// is refused.
pub proof fn law_an_address_is_set_once(d: DeviceView, bytes: [u8; 8], halted: Halted)
    requires
        ({
            let s = super::device::setup_of(bytes@);
            &&& s.kind == 0 && s.request == 5 && s.index == 0 && s.length == 0 && s.value <= 127
            &&& d.configuration == 0
        }),
    ensures
        ({
            let a = super::device::setup_of(bytes@).value as u8;
            let ack = Event::InComplete(0x80);
            let asked = super::device::after_event(d, Event::Setup(bytes), Seq::empty(), halted);
            let step = super::device::accepted(Action::Address(a));
            let waiting = super::device::committed(asked.0, step.commit);
            let done = super::device::after_event(waiting, ack, Seq::empty(), halted);
            let again = super::device::after_event(done.0, ack, Seq::empty(), halted);
            &&& asked.1 == Ok::<StepView, Error>(step)
            &&& waiting.address == d.address
            &&& done.0 == DeviceView { control: ControlView::Idle, address: a, ..waiting }
            &&& done.1 == Ok::<StepView, Error>(
                StepView {
                    commands: seq![CommandView::SetAddress { address: a }],
                    commit: Commit::Nothing,
                },
            )
            &&& again.0.address == a
            &&& again.1 == Ok::<StepView, Error>(super::device::stalled(done.0).1)
        }),
{
}

/// A request to set the configuration takes effect when its status stage is
/// acknowledged and only then: the data endpoints are closed and, for a configuration
/// there is, set up in order; lines and queues start over. The next acknowledgement is
/// refused.
pub proof fn law_a_configuration_is_set_once(d: DeviceView, bytes: [u8; 8], halted: Halted)
    requires
        ({
            let s = super::device::setup_of(bytes@);
            &&& s.kind == 0 && s.request == 9 && s.index == 0 && s.length == 0 && s.value <= 1
            &&& d.address != 0
        }),
    ensures
        ({
            let c = super::device::setup_of(bytes@).value as u8;
            let ack = Event::InComplete(0x80);
            let asked = super::device::after_event(d, Event::Setup(bytes), Seq::empty(), halted);
            let step = super::device::accepted(Action::Configuration(c));
            let waiting = super::device::committed(asked.0, step.commit);
            let done = super::device::after_event(waiting, ack, Seq::empty(), halted);
            let again = super::device::after_event(done.0, ack, Seq::empty(), halted);
            &&& asked.1 == Ok::<StepView, Error>(step)
            &&& waiting.configuration == d.configuration && waiting.lines == d.lines
            &&& waiting.rx == d.rx && waiting.tx == d.tx
            &&& done.0 == DeviceView {
                control: ControlView::Idle,
                configuration: c,
                lines: 0,
                rx: Seq::empty(),
                tx: Seq::empty(),
                rx_armed: false,
                tx_busy: false,
                tx_zlp: false,
                ..waiting
            }
            &&& done.1 == Ok::<StepView, Error>(
                StepView {
                    commands: seq![CommandView::CloseDataEndpoints] + (if c != 0 {
                        seq![
                            CommandView::Configure { ep: 0x81, kind: EndpointType::Interrupt },
                            CommandView::Configure { ep: 2, kind: EndpointType::Bulk },
                            CommandView::Configure { ep: 0x82, kind: EndpointType::Bulk },
                        ]
                    } else {
                        Seq::empty()
                    }),
                    commit: Commit::Nothing,
                },
            )
            &&& again.0.configuration == c && again.0.lines == 0
            &&& again.1 == Ok::<StepView, Error>(super::device::stalled(done.0).1)
        }),
{
    let c = super::device::setup_of(bytes@).value as u8;
    let none = Seq::<CommandView>::empty();
    assert(seq![CommandView::CloseDataEndpoints] + none =~= seq![CommandView::CloseDataEndpoints]);
    assert(seq![CommandView::CloseDataEndpoints] + seq![
        CommandView::Configure { ep: 0x81, kind: EndpointType::Interrupt },
        CommandView::Configure { ep: 2, kind: EndpointType::Bulk },
        CommandView::Configure { ep: 0x82, kind: EndpointType::Bulk },
    ] =~= seq![
        CommandView::CloseDataEndpoints,
        CommandView::Configure { ep: 0x81, kind: EndpointType::Interrupt },
        CommandView::Configure { ep: 2, kind: EndpointType::Bulk },
        CommandView::Configure { ep: 0x82, kind: EndpointType::Bulk },
    ]);
}

/// A device that took `step` and then saw so many acknowledgements on endpoint 0, all
/// commands succeeding; and the commands.
pub open spec fn acknowledged(d: DeviceView, step: StepView, acks: nat, halted: Halted) -> (
    DeviceView,
    Seq<CommandView>,
)
    decreases acks,
{
    if acks == 0 {
        (super::device::committed(d, step.commit), step.commands)
    } else {
        let (d0, commands) = acknowledged(d, step, (acks - 1) as nat, halted);
        let (d1, result) = super::device::after_event(
            d0,
            Event::InComplete(0x80),
            Seq::empty(),
            halted,
        );
        match result {
            Ok(next) => (super::device::committed(d1, next.commit), commands + next.commands),
            Err(e) => (d1, commands),
        }
    }
}

/// Packets as the commands that send them to the host's end of endpoint 0.
pub open spec fn sent_to_host(run: Seq<Seq<u8>>) -> Seq<CommandView> {
    run.map_values(|data: Seq<u8>| CommandView::WriteIn { ep: 0x80, data })
}

proof fn lemma_acknowledged(d: DeviceView, acks: nat, halted: Halted)
    requires
        d.control matches ControlView::In { data, sent, zlp } && 0 <= sent <= data.len() <= 256
            && acks <= packets(data, sent, zlp).len(),
    ensures
        d.control matches ControlView::In { data, sent, zlp } && {
            let left = packets(data, sent, zlp);
            let (d1, commands) = acknowledged(d, super::device::next_packet(d), acks, halted);
            &&& d1 == DeviceView { control: d1.control, ..d }
            &&& if acks < left.len() {
                &&& commands == sent_to_host(left.take(acks as int + 1))
                &&& d1.control matches ControlView::In { data: data1, sent: sent1, zlp: zlp1 }
                &&& data1 == data
                &&& 0 <= sent1 <= data.len()
                &&& packets(data, sent1, zlp1) == left.skip(acks as int + 1)
            } else {
                &&& commands == sent_to_host(left).push(CommandView::ArmOut { ep: 0 })
                &&& d1.control is StatusOut
            }
        },
    decreases acks,
{
    if let ControlView::In { data, sent, zlp } = d.control {
        let left = packets(data, sent, zlp);
        if acks == 0 {
            law_reply_goes_out_in_packets(d);
            let step = super::device::next_packet(d);
            if left.len() > 0 {
                assert(step.commands =~= sent_to_host(left.take(1)));
            } else {
                assert(step.commands =~= sent_to_host(left).push(CommandView::ArmOut { ep: 0 }));
            }
        } else {
            let before = (acks - 1) as nat;
            lemma_acknowledged(d, before, halted);
            let (d0, commands) = acknowledged(
                d,
                super::device::next_packet(d),
                before,
                halted,
            );
            law_reply_goes_out_in_packets(d0);
            let next = super::device::next_packet(d0);
            let rest = left.skip(acks as int);
            if acks < left.len() {
                assert(rest[0] == left[acks as int]);
                assert(rest.skip(1) =~= left.skip(acks as int + 1));
                assert(commands + next.commands =~= sent_to_host(left.take(acks as int + 1)));
            } else {
                assert(rest.len() == 0);
                assert(left.take(acks as int) =~= left);
                assert(commands + next.commands =~= sent_to_host(left).push(
                    CommandView::ArmOut { ep: 0 },
                ));
            }
        }
    }
}

proof fn lemma_pieces(data: Seq<u8>, sent: int, zlp: bool)
    requires
        0 <= sent <= data.len(),
        sent % 64 == 0,
    ensures
        ({
            let run = packets(data, sent, zlp);
            let count = (data.len() - sent + 63) / 64;
            &&& run.len() == count + if zlp {
                1int
            } else {
                0
            }
            &&& forall|i: int|
                0 <= i < count ==> #[trigger] run[i] == data.subrange(
                    sent + 64 * i,
                    if sent + 64 * (i + 1) <= data.len() {
                        sent + 64 * (i + 1)
                    } else {
                        data.len() as int
                    },
                )
            &&& zlp ==> run[count] == Seq::<u8>::empty()
        }),
    decreases data.len() - sent,
{
    let run = packets(data, sent, zlp);
    if sent < data.len() {
        let end = if sent + 64 <= data.len() { sent + 64 } else { data.len() as int };
        let rest = packets(data, end, zlp);
        let count = (data.len() - sent + 63) / 64;
        if sent + 64 <= data.len() {
            lemma_pieces(data, end, zlp);
        }
        assert forall|i: int| 0 <= i < count implies #[trigger] run[i] == data.subrange(
            sent + 64 * i,
            if sent + 64 * (i + 1) <= data.len() {
                sent + 64 * (i + 1)
            } else {
                data.len() as int
            },
        ) by {
            if i > 0 {
                assert(run[i] == rest[i - 1]);
            }
        }
        if zlp {
            assert(run[count] == rest[count - 1]);
        }
    }
}

/// A reply goes out whole and in order, acknowledgement by acknowledgement: what the
/// host asked for and the device has, in consecutive packets of 64 bytes of which only
/// the last may be shorter, then an empty packet exactly where the reply falls short on
/// a packet boundary, and then the host's status stage is opened, once. Nothing else of
/// the device changes.
pub proof fn law_a_reply_goes_out_whole(
    d: DeviceView,
    data: Seq<u8>,
    requested: u16,
    halted: Halted,
)
    requires
        requested >= 1,
        data.len() <= 256,
    ensures
        ({
            let n = if data.len() <= requested { data.len() as int } else { requested as int };
            let zlp = n < requested && n % 64 == 0;
            let count = (n + 63) / 64;
            let run = packets(data.take(n), 0, zlp);
            let (d1, step) = super::device::replied(d, data, requested);
            let (end, commands) = acknowledged(d1, step, run.len(), halted);
            &&& commands == sent_to_host(run).push(CommandView::ArmOut { ep: 0 })
            &&& run.len() == count + if zlp {
                1int
            } else {
                0
            }
            &&& forall|i: int|
                0 <= i < count ==> #[trigger] run[i] == data.subrange(
                    64 * i,
                    if 64 * (i + 1) <= n {
                        64 * (i + 1)
                    } else {
                        n
                    },
                )
            &&& zlp ==> run[count] == Seq::<u8>::empty()
            &&& end == DeviceView { control: ControlView::StatusOut, ..d }
        }),
{
    let n = if data.len() <= requested { data.len() as int } else { requested as int };
    let zlp = n < requested && n % 64 == 0;
    let count = (n + 63) / 64;
    let run = packets(data.take(n), 0, zlp);
    let d1 = super::device::replied(d, data, requested).0;
    lemma_acknowledged(d1, run.len(), halted);
    lemma_pieces(data.take(n), 0, zlp);
    assert forall|i: int| 0 <= i < count implies #[trigger] run[i] == data.subrange(
        64 * i,
        if 64 * (i + 1) <= n {
            64 * (i + 1)
        } else {
            n
        },
    ) by {
        let end = if 64 * (i + 1) <= n { 64 * (i + 1) } else { n };
        assert(run[i] == data.take(n).subrange(0 + 64 * i, end));
        assert(data.take(n).subrange(64 * i, end) =~= data.subrange(64 * i, end));
    }
}

/// How often a run of requests polled.
pub open spec fn polls(requests: Seq<RequestView>) -> int
    decreases requests.len(),
{
    if requests.len() == 0 {
        0
    } else {
        polls(requests.drop_last()) + if requests.last() is Poll { 1int } else { 0 }
    }
}

/// This request sends a data packet.
pub open spec fn sends_data(request: RequestView) -> bool {
    request matches RequestView::Run(command) && command matches CommandView::WriteIn { ep, data }
        && ep == 0x82
}

/// How many data packets a run of requests sent.
pub open spec fn data_packets(requests: Seq<RequestView>) -> int
    decreases requests.len(),
{
    if requests.len() == 0 {
        0
    } else {
        data_packets(requests.drop_last()) + if sends_data(requests.last()) { 1int } else { 0 }
    }
}

/// One call of the service: begun on `p`, then carried on by `replies`.
pub open spec fn call(p: PortView, halted: Halted, replies: Seq<(ReplyView, Halted)>) -> (
    PortView,
    Seq<RequestView>,
)
    decreases replies.len(),
{
    if replies.len() == 0 {
        let (p1, request) = super::serial::serviced(p, ReplyView::Start, halted);
        (p1, seq![request])
    } else {
        let (p0, requests) = call(p, halted, replies.drop_last());
        let (p1, request) = super::serial::serviced(p0, replies.last().0, replies.last().1);
        (p1, requests.push(request))
    }
}

/// No command of the list sends a data packet.
spec fn no_data(queue: Seq<CommandView>) -> bool {
    forall|i: int|
        0 <= i < queue.len() ==> (#[trigger] queue[i] matches CommandView::WriteIn { ep, data }
            ==> ep != 0x82)
}

proof fn lemma_event_sends_no_data(d: DeviceView, event: Event, packet: Seq<u8>, halted: Halted)
    ensures
        super::device::after_event(d, event, packet, halted).1 matches Ok(step) ==> no_data(
            step.commands,
        ),
{
}

/// One call of the service takes in at most 16 events and sends at most one data
/// packet, whatever the controller answers.
pub proof fn law_service_is_bounded(
    p: PortView,
    halted: Halted,
    replies: Seq<(ReplyView, Halted)>,
)
    requires
        forall|i: int| 0 <= i < replies.len() ==> !(#[trigger] replies[i].0 is Start),
    ensures
        polls(call(p, halted, replies).1) <= EVENT_BUDGET,
        data_packets(call(p, halted, replies).1) <= 1,
{
    lemma_call(p, halted, replies);
}

proof fn lemma_call(p: PortView, halted: Halted, replies: Seq<(ReplyView, Halted)>)
    requires
        forall|i: int| 0 <= i < replies.len() ==> !(#[trigger] replies[i].0 is Start),
    ensures
        ({
            let (p1, requests) = call(p, halted, replies);
            let s = p1.service;
            &&& s.left >= 0
            &&& polls(requests) == EVENT_BUDGET - s.left
            &&& data_packets(requests) <= 1
            &&& !(s.stage is Sending || s.stage is Finished) ==> data_packets(requests) == 0
                && no_data(s.queue)
            &&& s.stage is Sending ==> s.queue.len() == 0
        }),
    decreases replies.len(),
{
    reveal_with_fuel(polls, 2);
    reveal_with_fuel(data_packets, 2);
    if replies.len() == 0 {
        let (p1, request) = super::serial::serviced(p, ReplyView::Start, halted);
        assert(seq![request].drop_last() =~= Seq::empty());
        assert(seq![request].last() == request);
    } else {
        let before = replies.drop_last();
        assert forall|i: int| 0 <= i < before.len() implies !(#[trigger] before[i].0 is Start) by {
            assert(before[i] == replies[i]);
        }
        lemma_call(p, halted, before);
        let (p0, requests) = call(p, halted, before);
        let (reply, h) = replies.last();
        assert(!(replies[replies.len() - 1].0 is Start));
        let (p1, request) = super::serial::serviced(p0, reply, h);
        assert(requests.push(request).drop_last() =~= requests);
        match reply {
            ReplyView::Event(event) => {
                if event is Some {
                    lemma_event_sends_no_data(p0.device, event->0, Seq::empty(), h);
                }
            },
            ReplyView::Packet(bytes) => {
                if let Stage::Reading(ep) = p0.service.stage {
                    lemma_event_sends_no_data(p0.device, Event::Out(ep), bytes, h);
                }
            },
            _ => {},
        }
    }
}

} // verus!
