//! The CDC device's state and its reaction to what happens on the bus.
//!
//! The device never touches a controller. Each event yields a [`Step`]: the
//! commands to run, in order and only until one fails, and what to record once
//! all of them succeeded.

use vstd::prelude::*;

use super::descriptors::{descriptor, microsoft, Identity};
use super::ring::Ring;

verus! {

/// Where a requested reboot should lead.
#[derive(Clone, Copy, Debug, PartialEq, Eq, Structural)]
pub enum ResetTarget {
    Bootloader,
    Application,
}

/// Why servicing the bus stopped early.
#[derive(Clone, Copy, Debug, PartialEq, Eq, Structural)]
pub enum Error {
    /// The controller delivered more than there was room for.
    Hardware,
    /// The controller refused a command or a read.
    Controller,
}

/// What the controller can report.
#[derive(Clone, Copy, Debug)]
pub enum Event {
    Reset,
    /// A setup packet arrived on endpoint 0.
    Setup([u8; 8]),
    /// A packet waits on this OUT endpoint.
    Out(u8),
    /// This IN endpoint's packet was acknowledged.
    InComplete(u8),
    Suspend,
    Resume,
}

/// How an endpoint transfers.
#[derive(Clone, Copy, Debug, PartialEq, Eq, Structural)]
pub enum EndpointType {
    Interrupt,
    Bulk,
}

/// One thing to have the controller do.
#[derive(Debug)]
pub enum Command {
    SetStall { ep: u8, halt: bool },
    WriteIn { ep: u8, data: Vec<u8> },
    ArmOut { ep: u8 },
    SetAddress { address: u8 },
    CloseDataEndpoints,
    Configure { ep: u8, kind: EndpointType },
}

/// A [`Command`] with its data as a sequence.
pub enum CommandView {
    SetStall { ep: u8, halt: bool },
    WriteIn { ep: u8, data: Seq<u8> },
    ArmOut { ep: u8 },
    SetAddress { address: u8 },
    CloseDataEndpoints,
    Configure { ep: u8, kind: EndpointType },
}

impl View for Command {
    type V = CommandView;

    open spec fn view(&self) -> CommandView {
        match *self {
            Command::SetStall { ep, halt } => CommandView::SetStall { ep, halt },
            Command::WriteIn { ep, data } => CommandView::WriteIn { ep, data: data@ },
            Command::ArmOut { ep } => CommandView::ArmOut { ep },
            Command::SetAddress { address } => CommandView::SetAddress { address },
            Command::CloseDataEndpoints => CommandView::CloseDataEndpoints,
            Command::Configure { ep, kind } => CommandView::Configure { ep, kind },
        }
    }
}

/// The commands of a list, each by its view.
pub open spec fn command_views(commands: Seq<Command>) -> Seq<CommandView> {
    commands.map_values(|c: Command| c@)
}

/// What a status stage, once acknowledged, puts into effect.
#[derive(Clone, Copy, Debug, PartialEq, Eq, Structural)]
pub enum Action {
    Nothing,
    Address(u8),
    Configuration(u8),
    Lines(u16),
    Halt(u8, bool),
    Reset(ResetTarget),
}

/// Where the control transfer on endpoint 0 stands.
#[derive(Clone, Copy, Debug, PartialEq, Eq, Structural)]
pub enum Control {
    Idle,
    /// A reply of `len` bytes is on its way, `sent` of them are out; `zlp`
    /// says that an empty packet still has to end it.
    In { len: usize, sent: usize, zlp: bool },
    StatusOut,
    LineCoding,
    StatusIn(Action),
}

/// [`Control`] with the bytes of the reply in it.
pub enum ControlView {
    Idle,
    In { data: Seq<u8>, sent: int, zlp: bool },
    StatusOut,
    LineCoding,
    StatusIn(Action),
}

/// What to record once a step's commands have all succeeded.
#[derive(Clone, Copy, Debug, PartialEq, Eq, Structural)]
pub enum Commit {
    Nothing,
    /// The reply is out up to `to`.
    ReplySent { to: usize, zlp: bool },
    AwaitStatus,
    AwaitLineCoding,
    AwaitAck(Action),
    RxArmed,
    /// A data packet of this many bytes is under way.
    TxSent(usize),
    /// This endpoint's halt was set or cleared.
    HaltChanged(u8),
}

/// The device's answer to an event.
pub struct Step {
    pub commands: Vec<Command>,
    pub commit: Commit,
}

/// A [`Step`] with its commands by their views.
pub struct StepView {
    pub commands: Seq<CommandView>,
    pub commit: Commit,
}

impl View for Step {
    type V = StepView;

    open spec fn view(&self) -> StepView {
        StepView { commands: command_views(self.commands@), commit: self.commit }
    }
}

/// A snapshot of the device for its users.
#[derive(Clone, Copy, Debug)]
pub struct Status {
    pub configured: bool,
    pub connected: bool,
    pub resets: u32,
    pub stalls: u32,
    pub setups: u32,
    pub received: u32,
    pub transmitted: u32,
    /// Every queued byte and the final packet have been acknowledged.
    pub transmit_idle: bool,
}

/// The status before anything has happened.
pub open spec fn no_status() -> Status {
    Status {
        configured: false,
        connected: false,
        resets: 0,
        stalls: 0,
        setups: 0,
        received: 0,
        transmitted: 0,
        transmit_idle: false,
    }
}

impl Default for Status {
    fn default() -> (s: Self)
        ensures
            s == no_status(),
    {
        Status {
            configured: false,
            connected: false,
            resets: 0,
            stalls: 0,
            setups: 0,
            received: 0,
            transmitted: 0,
            transmit_idle: false,
        }
    }
}

/// A decoded setup packet.
#[derive(Clone, Copy, Debug, PartialEq, Eq, Structural)]
pub struct Setup {
    pub kind: u8,
    pub request: u8,
    pub value: u16,
    pub index: u16,
    pub length: u16,
}

/// The setup packet's layout: two bytes, then three little-endian words.
pub open spec fn setup_of(p: Seq<u8>) -> Setup {
    Setup {
        kind: p[0],
        request: p[1],
        value: (p[2] + 256 * p[3]) as u16,
        index: (p[4] + 256 * p[5]) as u16,
        length: (p[6] + 256 * p[7]) as u16,
    }
}

impl From<[u8; 8]> for Setup {
    fn from(p: [u8; 8]) -> (s: Self) {
        Setup {
            kind: p[0],
            request: p[1],
            value: p[2] as u16 + 256 * (p[3] as u16),
            index: p[4] as u16 + 256 * (p[5] as u16),
            length: p[6] as u16 + 256 * (p[7] as u16),
        }
    }
}

impl vstd::std_specs::convert::FromSpecImpl<[u8; 8]> for Setup {
    open spec fn obeys_from_spec() -> bool {
        true
    }

    open spec fn from_spec(p: [u8; 8]) -> Setup {
        setup_of(p@)
    }
}

/// Which of the device's endpoints the controller holds halted.
#[derive(Clone, Copy, Debug, PartialEq, Eq, Structural)]
pub struct Halted {
    pub control_out: bool,
    pub control_in: bool,
    pub notify: bool,
    pub rx: bool,
    pub tx: bool,
}

impl Halted {
    /// Whether the endpoint that `index` names is halted.
    pub open spec fn of(self, index: int) -> bool {
        if index == 0 {
            self.control_out
        } else if index == 0x80 {
            self.control_in
        } else if index == 0x81 {
            self.notify
        } else if index == 2 {
            self.rx
        } else {
            index == 0x82 && self.tx
        }
    }

    fn get(&self, index: u16) -> (b: bool)
        ensures
            b == self.of(index as int),
    {
        if index == 0 {
            self.control_out
        } else if index == 0x80 {
            self.control_in
        } else if index == 0x81 {
            self.notify
        } else if index == 2 {
            self.rx
        } else {
            index == 0x82 && self.tx
        }
    }
}

/// The CDC device.
pub struct Device {
    pub identity: Identity,
    pub control: Control,
    pub reply: [u8; 256],
    pub line_coding: [u8; 7],
    pub address: u8,
    pub configuration: u8,
    pub lines: u16,
    pub suspended: bool,
    pub rx: Ring,
    pub tx: Ring,
    pub rx_armed: bool,
    pub tx_busy: bool,
    pub tx_zlp: bool,
    pub reset: Option<ResetTarget>,
    pub stats: Status,
}

/// The device as a value: its queues as sequences, and of the reply buffer only
/// what a transfer in progress still owns.
pub struct DeviceView {
    pub identity: Identity,
    pub control: ControlView,
    pub line_coding: Seq<u8>,
    pub address: u8,
    pub configuration: u8,
    pub lines: u16,
    pub suspended: bool,
    pub rx: Seq<u8>,
    pub tx: Seq<u8>,
    pub rx_armed: bool,
    pub tx_busy: bool,
    pub tx_zlp: bool,
    pub reset: Option<ResetTarget>,
    pub stats: Status,
}

impl View for Device {
    type V = DeviceView;

    open spec fn view(&self) -> DeviceView {
        DeviceView {
            identity: self.identity,
            control: match self.control {
                Control::Idle => ControlView::Idle,
                Control::In { len, sent, zlp } => ControlView::In {
                    data: self.reply@.take(len as int),
                    sent: sent as int,
                    zlp,
                },
                Control::StatusOut => ControlView::StatusOut,
                Control::LineCoding => ControlView::LineCoding,
                Control::StatusIn(action) => ControlView::StatusIn(action),
            },
            line_coding: self.line_coding@,
            address: self.address,
            configuration: self.configuration,
            lines: self.lines,
            suspended: self.suspended,
            rx: self.rx@,
            tx: self.tx@,
            rx_armed: self.rx_armed,
            tx_busy: self.tx_busy,
            tx_zlp: self.tx_zlp,
            reset: self.reset,
            stats: self.stats,
        }
    }
}

/// A freshly attached device: 115200 baud, 8N1, nothing configured.
pub open spec fn fresh(identity: Identity) -> DeviceView {
    DeviceView {
        identity,
        control: ControlView::Idle,
        line_coding: seq![0u8, 0xc2, 1, 0, 0, 0, 8],
        address: 0,
        configuration: 0,
        lines: 0,
        suspended: false,
        rx: Seq::empty(),
        tx: Seq::empty(),
        rx_armed: false,
        tx_busy: false,
        tx_zlp: false,
        reset: None,
        stats: no_status(),
    }
}

/// A host is configured, has raised DTR and is not asleep.
pub open spec fn connected(d: DeviceView) -> bool {
    d.configuration != 0 && d.lines & 1 != 0 && !d.suspended
}

/// What [`Device::status`] reports.
pub open spec fn status_of(d: DeviceView) -> Status {
    Status {
        transmit_idle: d.tx.len() == 0 && !d.tx_busy && !d.tx_zlp,
        configured: d.configuration != 0,
        connected: connected(d),
        ..d.stats
    }
}

/// The data path back at its start: nothing queued, nothing under way.
pub open spec fn data_cleared(d: DeviceView) -> DeviceView {
    DeviceView {
        rx: Seq::empty(),
        tx: Seq::empty(),
        rx_armed: false,
        tx_busy: false,
        tx_zlp: false,
        ..d
    }
}

/// Nothing to do and nothing to record.
pub open spec fn quiet() -> StepView {
    StepView { commands: Seq::empty(), commit: Commit::Nothing }
}

/// Refuses the control transfer: both directions of endpoint 0 are halted.
pub open spec fn stalled(d: DeviceView) -> (DeviceView, StepView) {
    (
        DeviceView {
            control: ControlView::Idle,
            stats: Status { stalls: d.stats.stalls.wrapping_add(1), ..d.stats },
            ..d
        },
        StepView {
            commands: seq![
                CommandView::SetStall { ep: 0, halt: true },
                CommandView::SetStall { ep: 0x80, halt: true },
            ],
            commit: Commit::Nothing,
        },
    )
}

/// The next packet of a reply under way: 64 bytes at a time, then the empty
/// packet if one is owed, then the host's status stage.
pub open spec fn next_packet(d: DeviceView) -> StepView {
    match d.control {
        ControlView::In { data, sent, zlp } => if sent < data.len() {
            let end = if sent + 64 <= data.len() { sent + 64 } else { data.len() as int };
            StepView {
                commands: seq![CommandView::WriteIn { ep: 0x80, data: data.subrange(sent, end) }],
                commit: Commit::ReplySent { to: end as usize, zlp },
            }
        } else if zlp {
            StepView {
                commands: seq![CommandView::WriteIn { ep: 0x80, data: Seq::empty() }],
                commit: Commit::ReplySent { to: sent as usize, zlp: false },
            }
        } else {
            StepView {
                commands: seq![CommandView::ArmOut { ep: 0 }],
                commit: Commit::AwaitStatus,
            }
        },
        _ => quiet(),
    }
}

/// Starts answering with as much of `data` as the host asked for. A reply that
/// falls short of that on a packet boundary is ended by an empty packet. A host
/// that asked for nothing is refused.
pub open spec fn replied(d: DeviceView, data: Seq<u8>, requested: u16) -> (DeviceView, StepView) {
    if requested == 0 {
        stalled(d)
    } else {
        let len = if data.len() <= requested { data.len() as int } else { requested as int };
        let d1 = DeviceView {
            control: ControlView::In {
                data: data.take(len),
                sent: 0,
                zlp: len < requested && len % 64 == 0,
            },
            ..d
        };
        (d1, next_packet(d1))
    }
}

/// Opens the status stage; `action` waits for its acknowledgement.
pub open spec fn accepted(action: Action) -> StepView {
    StepView {
        commands: seq![CommandView::WriteIn { ep: 0x80, data: Seq::empty() }],
        commit: Commit::AwaitAck(action),
    }
}

/// Endpoint 0 always exists, the data endpoints once configured.
pub open spec fn endpoint_exists(configuration: u8, index: u16) -> bool {
    ||| index == 0 || index == 0x80
    ||| configuration != 0 && (index == 2 || index == 0x81 || index == 0x82)
}

/// The answers a setup packet can get.
pub enum Answer {
    Refuse,
    Data(Seq<u8>),
    Accept(Action),
    LineCoding,
}

/// The table of requests: standard ones first, then those of the CDC class,
/// then the two vendor ones. Whatever is not in it is refused.
pub open spec fn answer(d: DeviceView, s: Setup, halted: Halted) -> Answer {
    let configured = d.configuration != 0;
    if s.kind == 0x80 && s.request == 6 {
        match super::descriptors::descriptor_bytes(d.identity, s.value, s.index) {
            Some(bytes) => Answer::Data(bytes),
            None => Answer::Refuse,
        }
    } else if s.kind == 0 && s.request == 5 && s.index == 0 && s.length == 0 && s.value <= 127
        && !configured {
        Answer::Accept(Action::Address(s.value as u8))
    } else if s.kind == 0 && s.request == 9 && s.index == 0 && s.length == 0 && s.value <= 1
        && d.address != 0 {
        Answer::Accept(Action::Configuration(s.value as u8))
    } else if s.kind == 0x80 && s.request == 8 && s.index == 0 && s.value == 0 && s.length == 1 {
        Answer::Data(seq![d.configuration])
    } else if s.kind == 0x80 && s.request == 0 && s.index == 0 && s.value == 0 && s.length == 2 {
        Answer::Data(seq![0u8, 0])
    } else if s.kind == 0x81 && s.request == 0 && s.index < 3 && s.value == 0 && s.length == 2
        && configured {
        Answer::Data(seq![0u8, 0])
    } else if s.kind == 0x82 && s.request == 0 && s.value == 0 && s.length == 2
        && endpoint_exists(d.configuration, s.index) {
        Answer::Data(seq![if halted.of(s.index as int) { 1u8 } else { 0u8 }, 0])
    } else if s.kind == 2 && (s.request == 1 || s.request == 3) && s.value == 0 && s.length == 0
        && s.index & 15 != 0 && endpoint_exists(d.configuration, s.index) {
        Answer::Accept(Action::Halt(s.index as u8, s.request == 3))
    } else if s.kind == 0x81 && s.request == 10 && s.index < 3 && s.value == 0 && s.length == 1
        && configured {
        Answer::Data(seq![0u8])
    } else if s.kind == 1 && s.request == 11 && s.index < 3 && s.value == 0 && s.length == 0
        && configured {
        Answer::Accept(Action::Nothing)
    } else if s.kind == 0xa1 && s.request == 0x21 && s.index == 0 && s.value == 0 && s.length == 7
        && configured {
        Answer::Data(d.line_coding)
    } else if s.kind == 0x21 && s.request == 0x20 && s.index == 0 && s.value == 0 && s.length == 7
        && configured {
        Answer::LineCoding
    } else if s.kind == 0x21 && s.request == 0x22 && s.index == 0 && s.length == 0 && s.value <= 3
        && configured {
        Answer::Accept(Action::Lines(s.value))
    } else if s.kind == 0x21 && s.request == 0x23 && s.index == 0 && s.length == 0 && configured {
        Answer::Accept(Action::Nothing)
    } else if s.kind == 0xc0 && s.request == 1 && s.index == 7 && s.value == 0 {
        Answer::Data(super::descriptors::microsoft_bytes())
    } else if s.kind == 0x41 && (s.request == 1 || s.request == 2) && s.index == 2 && s.value == 0
        && s.length == 0 && configured && d.identity.allow_reset {
        Answer::Accept(
            Action::Reset(
                if s.request == 1 {
                    ResetTarget::Bootloader
                } else {
                    ResetTarget::Application
                },
            ),
        )
    } else {
        Answer::Refuse
    }
}

/// The device after a setup packet, and the step it takes.
pub open spec fn after_setup(d: DeviceView, s: Setup, halted: Halted) -> (DeviceView, StepView) {
    match answer(d, s, halted) {
        Answer::Refuse => stalled(d),
        Answer::Data(data) => replied(d, data, s.length),
        Answer::Accept(action) => (d, accepted(action)),
        Answer::LineCoding => (
            d,
            StepView {
                commands: seq![CommandView::ArmOut { ep: 0 }],
                commit: Commit::AwaitLineCoding,
            },
        ),
    }
}

/// The baud rate of a line coding.
pub open spec fn baud_of(p: Seq<u8>) -> int {
    p[0] + 0x100 * p[1] + 0x1_0000 * p[2] + 0x100_0000 * p[3]
}

/// A line coding the device takes: whole, with known stop bits and parity, five
/// to eight data bits, and a speed.
pub open spec fn line_coding_valid(p: Seq<u8>) -> bool {
    p.len() == 7 && p[4] <= 2 && p[5] <= 4 && 5 <= p[6] <= 8 && baud_of(p) != 0
}

/// After a packet on endpoint 0: it ends a reply, or it is the line coding that
/// was announced. 1200 baud asks for the bootloader where that is allowed.
pub open spec fn after_control_out(d: DeviceView, packet: Seq<u8>) -> (DeviceView, StepView) {
    if d.control is StatusOut && packet.len() == 0 {
        (DeviceView { control: ControlView::Idle, ..d }, quiet())
    } else if d.control is LineCoding && line_coding_valid(packet) {
        (
            DeviceView { line_coding: packet, ..d },
            accepted(
                if baud_of(packet) == 1200 && d.identity.allow_reset {
                    Action::Reset(ResetTarget::Bootloader)
                } else {
                    Action::Nothing
                },
            ),
        )
    } else {
        stalled(d)
    }
}

/// A status stage was acknowledged: its action takes effect.
pub open spec fn applied(d: DeviceView, action: Action) -> (DeviceView, StepView) {
    match action {
        Action::Nothing => (d, quiet()),
        Action::Address(address) => (
            DeviceView { address, ..d },
            StepView {
                commands: seq![CommandView::SetAddress { address }],
                commit: Commit::Nothing,
            },
        ),
        Action::Configuration(config) => (
            data_cleared(DeviceView { configuration: config, lines: 0, ..d }),
            StepView {
                commands: if config != 0 {
                    seq![
                        CommandView::CloseDataEndpoints,
                        CommandView::Configure { ep: 0x81, kind: EndpointType::Interrupt },
                        CommandView::Configure { ep: 2, kind: EndpointType::Bulk },
                        CommandView::Configure { ep: 0x82, kind: EndpointType::Bulk },
                    ]
                } else {
                    seq![CommandView::CloseDataEndpoints]
                },
                commit: Commit::Nothing,
            },
        ),
        Action::Lines(lines) => (DeviceView { lines, ..d }, quiet()),
        Action::Halt(ep, halt) => (
            d,
            StepView {
                commands: seq![CommandView::SetStall { ep, halt }],
                commit: Commit::HaltChanged(ep),
            },
        ),
        Action::Reset(target) => (DeviceView { reset: Some(target), ..d }, quiet()),
    }
}

/// After an acknowledgement on endpoint 0.
pub open spec fn after_control_in(d: DeviceView) -> (DeviceView, StepView) {
    match d.control {
        ControlView::In { .. } => (d, next_packet(d)),
        ControlView::StatusIn(action) => applied(
            DeviceView { control: ControlView::Idle, ..d },
            action,
        ),
        _ => stalled(d),
    }
}

/// A bus reset: everything but the line coding and the counters starts over.
pub open spec fn after_reset(d: DeviceView) -> DeviceView {
    data_cleared(
        DeviceView {
            configuration: 0,
            address: 0,
            lines: 0,
            suspended: false,
            control: ControlView::Idle,
            reset: None,
            stats: Status { resets: d.stats.resets.wrapping_add(1), ..d.stats },
            ..d
        },
    )
}

/// How much of a packet of `len` bytes a queue holding `held` takes.
pub open spec fn room_for(held: nat, len: nat) -> int {
    if len <= 512 - held {
        len as int
    } else {
        512 - held
    }
}

/// Whether this event means a data packet for the device.
pub open spec fn is_data_out(d: DeviceView, event: Event) -> bool {
    event == Event::Out(2) && d.configuration != 0
}

/// The device after an event and the step it takes; `packet` is what came with
/// an OUT event. Only a data packet without room for it is an error.
pub open spec fn after_event(d: DeviceView, event: Event, packet: Seq<u8>, halted: Halted) -> (
    DeviceView,
    Result<StepView, Error>,
) {
    match event {
        Event::Reset => (after_reset(d), Ok(quiet())),
        Event::Setup(bytes) => {
            let (d1, step) = after_setup(
                DeviceView {
                    control: ControlView::Idle,
                    stats: Status { setups: d.stats.setups.wrapping_add(1), ..d.stats },
                    ..d
                },
                setup_of(bytes@),
                halted,
            );
            (d1, Ok(step))
        },
        Event::Out(ep) => if ep == 0 {
            let (d1, step) = after_control_out(d, packet);
            (d1, Ok(step))
        } else if ep == 2 && d.configuration != 0 {
            let taken = room_for(d.rx.len(), packet.len());
            let d1 = DeviceView { rx: d.rx + packet.take(taken), ..d };
            if taken == packet.len() {
                (
                    DeviceView {
                        rx_armed: false,
                        stats: Status {
                            received: d.stats.received.wrapping_add(packet.len() as u32),
                            ..d.stats
                        },
                        ..d1
                    },
                    Ok(quiet()),
                )
            } else {
                (d1, Err(Error::Hardware))
            }
        } else {
            (d, Ok(quiet()))
        },
        Event::InComplete(ep) => if ep == 0x80 {
            let (d1, step) = after_control_in(d);
            (d1, Ok(step))
        } else if ep == 0x82 {
            (DeviceView { tx_busy: false, ..d }, Ok(quiet()))
        } else {
            (d, Ok(quiet()))
        },
        Event::Suspend => (DeviceView { suspended: true, ..d }, Ok(quiet())),
        Event::Resume => (DeviceView { suspended: false, ..d }, Ok(quiet())),
    }
}

/// The most that may be queued for a reader while a packet is awaited: one
/// packet always fits on top of it.
pub const RX_ARM_LIMIT: usize = 448;

/// Asks for the next data packet, if one may come.
pub open spec fn arming(d: DeviceView, halted: Halted) -> StepView {
    if d.configuration != 0 && !d.rx_armed && d.rx.len() <= RX_ARM_LIMIT && !halted.rx {
        StepView { commands: seq![CommandView::ArmOut { ep: 2 }], commit: Commit::RxArmed }
    } else {
        quiet()
    }
}

/// The data packet to send next: up to 64 queued bytes, or the empty packet that
/// ends a burst of full ones.
pub open spec fn sending(d: DeviceView, halted: Halted) -> StepView {
    let len = if d.tx.len() <= 64 { d.tx.len() as int } else { 64 };
    if connected(d) && !d.tx_busy && !halted.tx && (len != 0 || d.tx_zlp) {
        StepView {
            commands: seq![CommandView::WriteIn { ep: 0x82, data: d.tx.take(len) }],
            commit: Commit::TxSent(len as usize),
        }
    } else {
        quiet()
    }
}

/// Whether this commit belongs to what the device is doing.
pub open spec fn committable(d: DeviceView, commit: Commit) -> bool {
    match commit {
        Commit::ReplySent { to, zlp } => match d.control {
            ControlView::In { data, sent, zlp: z } => sent <= to <= data.len(),
            _ => false,
        },
        Commit::TxSent(len) => len <= d.tx.len() && len <= 64,
        _ => true,
    }
}

/// The device once a step's commands have all succeeded.
pub open spec fn committed(d: DeviceView, commit: Commit) -> DeviceView {
    match commit {
        Commit::Nothing => d,
        Commit::ReplySent { to, zlp } => match d.control {
            ControlView::In { data, sent, zlp: z } => DeviceView {
                control: ControlView::In { data, sent: to as int, zlp },
                ..d
            },
            _ => d,
        },
        Commit::AwaitStatus => DeviceView { control: ControlView::StatusOut, ..d },
        Commit::AwaitLineCoding => DeviceView { control: ControlView::LineCoding, ..d },
        Commit::AwaitAck(action) => DeviceView { control: ControlView::StatusIn(action), ..d },
        Commit::RxArmed => DeviceView { rx_armed: true, ..d },
        Commit::TxSent(len) => DeviceView {
            tx: d.tx.skip(len as int),
            tx_busy: true,
            tx_zlp: len == 64,
            stats: Status {
                transmitted: d.stats.transmitted.wrapping_add(len as u32),
                ..d.stats
            },
            ..d
        },
        Commit::HaltChanged(ep) => DeviceView {
            rx_armed: d.rx_armed && ep != 2,
            tx_busy: d.tx_busy && ep != 0x82,
            tx_zlp: d.tx_zlp && ep != 0x82,
            ..d
        },
    }
}

/// What the code decides about a setup packet; the reply's bytes are in the
/// reply buffer.
enum Decision {
    Refuse,
    Data(usize),
    Accept(Action),
    LineCoding,
}

impl Device {
    /// The queues are sound and a reply in progress lies inside its buffer.
    pub open spec fn wf(&self) -> bool {
        &&& self.rx.wf()
        &&& self.tx.wf()
        &&& match self.control {
            Control::In { len, sent, zlp } => sent <= len <= 256,
            _ => true,
        }
    }

    /// A device that has just been attached.
    pub fn new(identity: Identity) -> (d: Self)
        ensures
            d.wf(),
            d@ == fresh(identity),
    {
        let d = Device {
            identity,
            control: Control::Idle,
            reply: [0; 256],
            line_coding: [0, 0xc2, 1, 0, 0, 0, 8],
            address: 0,
            configuration: 0,
            lines: 0,
            suspended: false,
            rx: Ring::new(),
            tx: Ring::new(),
            rx_armed: false,
            tx_busy: false,
            tx_zlp: false,
            reset: None,
            stats: Status::default(),
        };
        assert(d.line_coding@ =~= seq![0u8, 0xc2, 1, 0, 0, 0, 8]);
        d
    }

    /// The device's status now.
    pub fn status(&self) -> (s: Status)
        ensures
            s == status_of(self@),
    {
        Status {
            transmit_idle: self.tx.len == 0 && !self.tx_busy && !self.tx_zlp,
            configured: self.configuration != 0,
            connected: self.configuration != 0 && self.lines & 1 != 0 && !self.suspended,
            resets: self.stats.resets,
            stalls: self.stats.stalls,
            setups: self.stats.setups,
            received: self.stats.received,
            transmitted: self.stats.transmitted,
        }
    }

    fn clear_data(&mut self)
        requires
            old(self).wf(),
        ensures
            final(self).wf(),
            final(self)@ == data_cleared(old(self)@),
    {
        self.rx.clear();
        self.tx.clear();
        self.rx_armed = false;
        self.tx_busy = false;
        self.tx_zlp = false;
    }

    fn stall(&mut self) -> (step: Step)
        requires
            old(self).wf(),
        ensures
            final(self).wf(),
            (final(self)@, step@) == stalled(old(self)@),
    {
        self.stats.stalls = self.stats.stalls.wrapping_add(1);
        self.control = Control::Idle;
        let step = two(
            Command::SetStall { ep: 0, halt: true },
            Command::SetStall { ep: 0x80, halt: true },
        );
        assert(step@.commands =~= stalled(old(self)@).1.commands);
        step
    }

    /// Starts sending the first `available` bytes of the reply buffer to a host
    /// that asked for `requested`.
    pub fn send_reply(&mut self, available: usize, requested: u16) -> (step: Step)
        requires
            old(self).wf(),
            available <= 256,
        ensures
            final(self).wf(),
            (final(self)@, step@) == replied(
                old(self)@,
                old(self).reply@.take(available as int),
                requested,
            ),
    {
        if requested == 0 {
            return self.stall();
        }
        let len: usize = if available < requested as usize { available } else {
            requested as usize
        };
        self.control = Control::In {
            len,
            sent: 0,
            zlp: len < requested as usize && len % 64 == 0,
        };
        assert(self.reply@.take(available as int).take(len as int) =~= self.reply@.take(
            len as int,
        ));
        self.next_in()
    }

    fn next_in(&self) -> (step: Step)
        requires
            self.wf(),
        ensures
            step@ == next_packet(self@),
    {
        if let Control::In { len, sent, zlp } = self.control {
            if sent < len {
                let end: usize = if sent + 64 < len { sent + 64 } else { len };
                let data: Vec<u8> = vstd::slice::slice_to_vec(&self.reply[sent..end]);
                assert(data@ =~= self.reply@.take(len as int).subrange(sent as int, end as int));
                one(Command::WriteIn { ep: 0x80, data }, Commit::ReplySent { to: end, zlp })
            } else if zlp {
                one(
                    Command::WriteIn { ep: 0x80, data: Vec::new() },
                    Commit::ReplySent { to: sent, zlp: false },
                )
            } else {
                one(Command::ArmOut { ep: 0 }, Commit::AwaitStatus)
            }
        } else {
            none()
        }
    }

    fn endpoint_valid(&self, index: u16) -> (b: bool)
        ensures
            b == endpoint_exists(self.configuration, index),
    {
        index == 0 || index == 0x80 || self.configuration != 0 && (index == 2 || index == 0x81
            || index == 0x82)
    }

    /// Decides a setup packet by the table of requests, leaving a reply's bytes
    /// at the front of the reply buffer.
    fn decide(&mut self, s: Setup, halted: Halted) -> (decision: Decision)
        requires
            old(self).wf(),
            old(self).control is Idle,
        ensures
            final(self).wf(),
            final(self)@ == old(self)@,
            match answer(old(self)@, s, halted) {
                Answer::Refuse => decision is Refuse,
                Answer::Data(data) => {
                    &&& decision == Decision::Data(data.len() as usize)
                    &&& data.len() <= 256
                    &&& final(self).reply@.take(data.len() as int) == data
                },
                Answer::Accept(action) => decision == Decision::Accept(action),
                Answer::LineCoding => decision is LineCoding,
            },
    {
        let configured = self.configuration != 0;
        if s.kind == 0x80 && s.request == 6 {
            match descriptor(&self.identity, s.value, s.index, &mut self.reply) {
                Some(len) => {
                    let ghost data = super::descriptors::descriptor_bytes(
                        self.identity,
                        s.value,
                        s.index,
                    )->0;
                    assert(self.reply@.take(len as int) =~= data);
                    Decision::Data(len)
                },
                None => Decision::Refuse,
            }
        } else if s.kind == 0 && s.request == 5 && s.index == 0 && s.length == 0 && s.value <= 127
            && !configured {
            Decision::Accept(Action::Address(s.value as u8))
        } else if s.kind == 0 && s.request == 9 && s.index == 0 && s.length == 0 && s.value <= 1
            && self.address != 0 {
            Decision::Accept(Action::Configuration(s.value as u8))
        } else if s.kind == 0x80 && s.request == 8 && s.index == 0 && s.value == 0 && s.length
            == 1 {
            self.reply[0] = self.configuration;
            assert(self.reply@.take(1) =~= seq![self.configuration]);
            Decision::Data(1)
        } else if s.kind == 0x80 && s.request == 0 && s.index == 0 && s.value == 0 && s.length
            == 2 {
            self.reply[0] = 0;
            self.reply[1] = 0;
            assert(self.reply@.take(2) =~= seq![0u8, 0]);
            Decision::Data(2)
        } else if s.kind == 0x81 && s.request == 0 && s.index < 3 && s.value == 0 && s.length == 2
            && configured {
            self.reply[0] = 0;
            self.reply[1] = 0;
            assert(self.reply@.take(2) =~= seq![0u8, 0]);
            Decision::Data(2)
        } else if s.kind == 0x82 && s.request == 0 && s.value == 0 && s.length == 2
            && self.endpoint_valid(s.index) {
            let state: u8 = if halted.get(s.index) { 1 } else { 0 };
            self.reply[0] = state;
            self.reply[1] = 0;
            assert(self.reply@.take(2) =~= seq![state, 0]);
            Decision::Data(2)
        } else if s.kind == 2 && (s.request == 1 || s.request == 3) && s.value == 0 && s.length
            == 0 && s.index & 15 != 0 && self.endpoint_valid(s.index) {
            Decision::Accept(Action::Halt(s.index as u8, s.request == 3))
        } else if s.kind == 0x81 && s.request == 10 && s.index < 3 && s.value == 0 && s.length
            == 1 && configured {
            self.reply[0] = 0;
            assert(self.reply@.take(1) =~= seq![0u8]);
            Decision::Data(1)
        } else if s.kind == 1 && s.request == 11 && s.index < 3 && s.value == 0 && s.length == 0
            && configured {
            Decision::Accept(Action::Nothing)
        } else if s.kind == 0xa1 && s.request == 0x21 && s.index == 0 && s.value == 0 && s.length
            == 7 && configured {
            let coding: [u8; 7] = self.line_coding;
            for i in 0..7usize
                invariant
                    self.control is Idle,
                    self.wf(),
                    self@ == old(self)@,
                    coding@ == self.line_coding@,
                    forall|k: int| 0 <= k < i ==> self.reply@[k] == coding@[k],
            {
                self.reply[i] = coding[i];
            }
            assert(self.reply@.take(7) =~= self.line_coding@);
            Decision::Data(7)
        } else if s.kind == 0x21 && s.request == 0x20 && s.index == 0 && s.value == 0 && s.length
            == 7 && configured {
            Decision::LineCoding
        } else if s.kind == 0x21 && s.request == 0x22 && s.index == 0 && s.length == 0 && s.value
            <= 3 && configured {
            Decision::Accept(Action::Lines(s.value))
        } else if s.kind == 0x21 && s.request == 0x23 && s.index == 0 && s.length == 0
            && configured {
            Decision::Accept(Action::Nothing)
        } else if s.kind == 0xc0 && s.request == 1 && s.index == 7 && s.value == 0 {
            let len: usize = microsoft(&mut self.reply);
            assert(self.reply@.take(166) =~= super::descriptors::microsoft_bytes());
            Decision::Data(len)
        } else if s.kind == 0x41 && (s.request == 1 || s.request == 2) && s.index == 2 && s.value
            == 0 && s.length == 0 && configured && self.identity.allow_reset {
            Decision::Accept(
                Action::Reset(
                    if s.request == 1 {
                        ResetTarget::Bootloader
                    } else {
                        ResetTarget::Application
                    },
                ),
            )
        } else {
            Decision::Refuse
        }
    }

    fn setup(&mut self, s: Setup, halted: Halted) -> (step: Step)
        requires
            old(self).wf(),
            old(self).control is Idle,
        ensures
            final(self).wf(),
            (final(self)@, step@) == after_setup(old(self)@, s, halted),
    {
        match self.decide(s, halted) {
            Decision::Refuse => self.stall(),
            Decision::Data(len) => self.send_reply(len, s.length),
            Decision::Accept(action) => acknowledge(action),
            Decision::LineCoding => one(Command::ArmOut { ep: 0 }, Commit::AwaitLineCoding),
        }
    }

    fn control_out(&mut self, packet: &[u8]) -> (step: Step)
        requires
            old(self).wf(),
        ensures
            final(self).wf(),
            (final(self)@, step@) == after_control_out(old(self)@, packet@),
    {
        match self.control {
            Control::StatusOut if packet.len() == 0 => {
                self.control = Control::Idle;
                none()
            },
            Control::LineCoding if packet.len() == 7 && packet[4] <= 2 && packet[5] <= 4
                && packet[6] >= 5 && packet[6] <= 8 => {
                let baud: u32 = packet[0] as u32 + 0x100 * (packet[1] as u32) + 0x1_0000 * (
                packet[2] as u32) + 0x100_0000 * (packet[3] as u32);
                if baud == 0 {
                    return self.stall();
                }
                self.line_coding = [
                    packet[0],
                    packet[1],
                    packet[2],
                    packet[3],
                    packet[4],
                    packet[5],
                    packet[6],
                ];
                assert(self.line_coding@ =~= packet@);
                acknowledge(
                    if baud == 1200 && self.identity.allow_reset {
                        Action::Reset(ResetTarget::Bootloader)
                    } else {
                        Action::Nothing
                    },
                )
            },
            _ => self.stall(),
        }
    }

    fn control_in(&mut self) -> (step: Step)
        requires
            old(self).wf(),
        ensures
            final(self).wf(),
            (final(self)@, step@) == after_control_in(old(self)@),
    {
        match self.control {
            Control::In { .. } => self.next_in(),
            Control::StatusIn(action) => {
                self.control = Control::Idle;
                match action {
                    Action::Nothing => none(),
                    Action::Address(address) => {
                        self.address = address;
                        one(Command::SetAddress { address }, Commit::Nothing)
                    },
                    Action::Configuration(config) => {
                        self.configuration = config;
                        self.lines = 0;
                        self.clear_data();
                        let mut step = one(Command::CloseDataEndpoints, Commit::Nothing);
                        if config != 0 {
                            step.commands.push(
                                Command::Configure { ep: 0x81, kind: EndpointType::Interrupt },
                            );
                            step.commands.push(
                                Command::Configure { ep: 2, kind: EndpointType::Bulk },
                            );
                            step.commands.push(
                                Command::Configure { ep: 0x82, kind: EndpointType::Bulk },
                            );
                        }
                        assert(step@.commands =~= after_control_in(old(self)@).1.commands);
                        step
                    },
                    Action::Lines(lines) => {
                        self.lines = lines;
                        none()
                    },
                    Action::Halt(ep, halt) => one(
                        Command::SetStall { ep, halt },
                        Commit::HaltChanged(ep),
                    ),
                    Action::Reset(target) => {
                        self.reset = Some(target);
                        none()
                    },
                }
            },
            _ => self.stall(),
        }
    }

    /// Takes an event in. `packet` is what was read from the endpoint of an OUT
    /// event, at most one packet of 64 bytes.
    pub fn handle(&mut self, event: Event, packet: &[u8], halted: Halted) -> (step: Result<
        Step,
        Error,
    >)
        requires
            old(self).wf(),
            packet@.len() <= 64,
        ensures
            final(self).wf(),
            final(self)@ == after_event(old(self)@, event, packet@, halted).0,
            match after_event(old(self)@, event, packet@, halted).1 {
                Ok(view) => step is Ok && step->Ok_0@ == view,
                Err(e) => step == Err::<Step, Error>(e),
            },
    {
        match event {
            Event::Reset => {
                self.configuration = 0;
                self.address = 0;
                self.lines = 0;
                self.suspended = false;
                self.control = Control::Idle;
                self.reset = None;
                self.clear_data();
                self.stats.resets = self.stats.resets.wrapping_add(1);
                Ok(none())
            },
            Event::Setup(bytes) => {
                self.stats.setups = self.stats.setups.wrapping_add(1);
                self.control = Control::Idle;
                Ok(self.setup(Setup::from(bytes), halted))
            },
            Event::Out(ep) => if ep == 0 {
                Ok(self.control_out(packet))
            } else if ep == 2 && self.configuration != 0 {
                let len: usize = packet.len();
                if self.rx.push(packet) != len {
                    return Err(Error::Hardware);
                }
                self.stats.received = self.stats.received.wrapping_add(len as u32);
                self.rx_armed = false;
                Ok(none())
            } else {
                Ok(none())
            },
            Event::InComplete(ep) => if ep == 0x80 {
                Ok(self.control_in())
            } else if ep == 0x82 {
                self.tx_busy = false;
                Ok(none())
            } else {
                Ok(none())
            },
            Event::Suspend => {
                self.suspended = true;
                Ok(none())
            },
            Event::Resume => {
                self.suspended = false;
                Ok(none())
            },
        }
    }

    /// The step that asks for the next data packet, if one may come.
    pub fn arm(&self, halted: Halted) -> (step: Step)
        requires
            self.wf(),
        ensures
            step@ == arming(self@, halted),
    {
        if self.configuration != 0 && !self.rx_armed && self.rx.len <= RX_ARM_LIMIT && !halted.rx {
            one(Command::ArmOut { ep: 2 }, Commit::RxArmed)
        } else {
            none()
        }
    }

    /// The step that sends the next data packet, if there is one to send.
    pub fn transmit(&self, halted: Halted) -> (step: Step)
        requires
            self.wf(),
        ensures
            step@ == sending(self@, halted),
    {
        if self.status().connected && !self.tx_busy && !halted.tx {
            let mut packet: [u8; 64] = [0; 64];
            let len: usize = self.tx.peek(&mut packet);
            if len != 0 || self.tx_zlp {
                let data: Vec<u8> = vstd::slice::slice_to_vec(&packet[0..len]);
                assert(data@ =~= self.tx@.take(len as int));
                return one(Command::WriteIn { ep: 0x82, data }, Commit::TxSent(len));
            }
        }
        none()
    }

    /// Records that a step's commands have all succeeded.
    pub fn commit(&mut self, commit: Commit)
        requires
            old(self).wf(),
            committable(old(self)@, commit),
        ensures
            final(self).wf(),
            final(self)@ == committed(old(self)@, commit),
    {
        match commit {
            Commit::Nothing => {},
            Commit::ReplySent { to, zlp } => {
                if let Control::In { len, sent, zlp: pending } = self.control {
                    self.control = Control::In { len, sent: to, zlp };
                }
            },
            Commit::AwaitStatus => {
                self.control = Control::StatusOut;
            },
            Commit::AwaitLineCoding => {
                self.control = Control::LineCoding;
            },
            Commit::AwaitAck(action) => {
                self.control = Control::StatusIn(action);
            },
            Commit::RxArmed => {
                self.rx_armed = true;
            },
            Commit::TxSent(len) => {
                self.tx.discard(len);
                self.tx_busy = true;
                self.tx_zlp = len == 64;
                self.stats.transmitted = self.stats.transmitted.wrapping_add(len as u32);
            },
            Commit::HaltChanged(ep) => {
                if ep == 2 {
                    self.rx_armed = false;
                }
                if ep == 0x82 {
                    self.tx_busy = false;
                    self.tx_zlp = false;
                }
            },
        }
    }
}

/// The step that opens the status stage.
fn acknowledge(action: Action) -> (step: Step)
    ensures
        step@ == accepted(action),
{
    let step = one(Command::WriteIn { ep: 0x80, data: Vec::new() }, Commit::AwaitAck(action));
    assert(step@.commands =~= accepted(action).commands);
    step
}

/// A step without commands.
fn none() -> (step: Step)
    ensures
        step@ == quiet(),
{
    let step = Step { commands: Vec::new(), commit: Commit::Nothing };
    assert(step@.commands =~= Seq::empty());
    step
}

/// A step of one command.
fn one(command: Command, commit: Commit) -> (step: Step)
    ensures
        step.commands@ == seq![command],
        step@ == (StepView { commands: seq![command@], commit }),
{
    let mut commands: Vec<Command> = Vec::new();
    commands.push(command);
    let step = Step { commands, commit };
    assert(step@.commands =~= seq![command@]);
    step
}

/// A step of two commands with nothing to record.
fn two(first: Command, second: Command) -> (step: Step)
    ensures
        step@ == (StepView { commands: seq![first@, second@], commit: Commit::Nothing }),
{
    let mut commands: Vec<Command> = Vec::new();
    commands.push(first);
    commands.push(second);
    let step = Step { commands, commit: Commit::Nothing };
    assert(step@.commands =~= seq![first@, second@]);
    step
}

} // verus!
