//! The serial port built on the CDC device, and the protocol by which its owner
//! services it: the port says what it needs of the controller, the owner
//! answers, until the port is done.

use vstd::prelude::*;

use super::descriptors::Identity;
use super::device::{Command, Commit, Device, Error, Event, Halted, ResetTarget, Status, Step};

verus! {

/// Events taken in per call of the service.
pub const EVENT_BUDGET: usize = 16;

/// What the port needs next.
#[derive(Debug)]
pub enum Request {
    /// The next event, if there is one.
    Poll,
    /// The packet waiting on this OUT endpoint.
    Read(u8),
    Run(Command),
    /// Nothing; this is how the call ended.
    Return(Result<(), Error>),
}

/// A [`Request`] with its command by its view.
pub enum RequestView {
    Poll,
    Read(u8),
    Run(super::device::CommandView),
    Return(Result<(), Error>),
}

impl View for Request {
    type V = RequestView;

    open spec fn view(&self) -> RequestView {
        match *self {
            Request::Poll => RequestView::Poll,
            Request::Read(ep) => RequestView::Read(ep),
            Request::Run(command) => RequestView::Run(command@),
            Request::Return(result) => RequestView::Return(result),
        }
    }
}

/// What the owner of the port hands back.
#[derive(Debug)]
pub enum Reply {
    /// A new call of the service begins.
    Start,
    /// What polling gave.
    Event(Option<Event>),
    /// What reading gave.
    Packet(Vec<u8>),
    /// The command was run.
    Done,
    /// The controller reported an error.
    Failed(Error),
}

/// A [`Reply`] with its packet as a sequence.
pub enum ReplyView {
    Start,
    Event(Option<Event>),
    Packet(Seq<u8>),
    Done,
    Failed(Error),
}

impl View for Reply {
    type V = ReplyView;

    open spec fn view(&self) -> ReplyView {
        match *self {
            Reply::Start => ReplyView::Start,
            Reply::Event(event) => ReplyView::Event(event),
            Reply::Packet(bytes) => ReplyView::Packet(bytes@),
            Reply::Done => ReplyView::Done,
            Reply::Failed(e) => ReplyView::Failed(e),
        }
    }
}

/// What the port is waiting for.
#[derive(Clone, Copy, Debug, PartialEq, Eq, Structural)]
pub enum Stage {
    /// No call is in progress.
    Finished,
    /// An event.
    Polling,
    /// The packet of an OUT event.
    Reading(u8),
    /// The commands of an event.
    Events,
    /// The command that asks for a data packet.
    Arming,
    /// The command that sends a data packet.
    Sending,
}

/// A call of the service in progress: the polls left in its budget, the
/// commands not run yet, and what to record once they are.
pub struct Service {
    pub stage: Stage,
    pub left: usize,
    pub queue: Vec<Command>,
    pub commit: Commit,
}

/// [`Service`] with its commands by their views.
pub struct ServiceView {
    pub stage: Stage,
    pub left: int,
    pub queue: Seq<super::device::CommandView>,
    pub commit: Commit,
}

impl View for Service {
    type V = ServiceView;

    open spec fn view(&self) -> ServiceView {
        ServiceView {
            stage: self.stage,
            left: self.left as int,
            queue: super::device::command_views(self.queue@),
            commit: self.commit,
        }
    }
}

/// The serial port.
pub struct UsbSerial {
    pub device: Device,
    pub service: Service,
}

/// The port as a value.
pub struct PortView {
    pub device: super::device::DeviceView,
    pub service: ServiceView,
}

impl View for UsbSerial {
    type V = PortView;

    open spec fn view(&self) -> PortView {
        PortView { device: self.device@, service: self.service@ }
    }
}

/// No call in progress, nothing left over.
pub open spec fn resting(left: int) -> ServiceView {
    ServiceView { stage: Stage::Finished, left, queue: Seq::empty(), commit: Commit::Nothing }
}

/// The call is over.
pub open spec fn returned(p: PortView, result: Result<(), Error>) -> (PortView, RequestView) {
    (PortView { service: resting(p.service.left), ..p }, RequestView::Return(result))
}

/// The first command of `step` in `stage`, the others queued.
pub open spec fn issued(p: PortView, stage: Stage, step: super::device::StepView) -> (
    PortView,
    RequestView,
) {
    (
        PortView {
            service: ServiceView {
                stage,
                left: p.service.left,
                queue: step.commands.skip(1),
                commit: step.commit,
            },
            ..p
        },
        RequestView::Run(step.commands[0]),
    )
}

/// The last part of a call: send a data packet if there is one.
pub open spec fn to_send(p: PortView, halted: Halted) -> (PortView, RequestView) {
    let step = super::device::sending(p.device, halted);
    if step.commands.len() == 0 {
        returned(p, Ok(()))
    } else {
        issued(p, Stage::Sending, step)
    }
}

/// After the events: ask for a data packet if one may come.
pub open spec fn to_arm(p: PortView, halted: Halted) -> (PortView, RequestView) {
    let step = super::device::arming(p.device, halted);
    if step.commands.len() == 0 {
        to_send(p, halted)
    } else {
        issued(p, Stage::Arming, step)
    }
}

/// The next event while the budget lasts.
pub open spec fn to_poll(p: PortView, halted: Halted) -> (PortView, RequestView) {
    if p.service.left > 0 {
        (
            PortView {
                service: ServiceView {
                    stage: Stage::Polling,
                    left: p.service.left - 1,
                    queue: Seq::empty(),
                    commit: Commit::Nothing,
                },
                ..p
            },
            RequestView::Poll,
        )
    } else {
        to_arm(p, halted)
    }
}

/// The event is taken in and its commands begin.
pub open spec fn to_event(p: PortView, event: Event, packet: Seq<u8>, halted: Halted) -> (
    PortView,
    RequestView,
) {
    let (device, result) = super::device::after_event(p.device, event, packet, halted);
    let p1 = PortView { device, ..p };
    match result {
        Ok(step) => if step.commands.len() == 0 {
            to_poll(p1, halted)
        } else {
            issued(p1, Stage::Events, step)
        },
        Err(e) => returned(p1, Err(e)),
    }
}

/// A command has been run: the next one, or the commands are all done.
pub open spec fn to_next(p: PortView, halted: Halted) -> (PortView, RequestView) {
    if p.service.queue.len() > 0 {
        (
            PortView {
                service: ServiceView { queue: p.service.queue.skip(1), ..p.service },
                ..p
            },
            RequestView::Run(p.service.queue[0]),
        )
    } else {
        let p1 = PortView {
            device: super::device::committed(p.device, p.service.commit),
            ..p
        };
        match p.service.stage {
            Stage::Events => to_poll(p1, halted),
            Stage::Arming => to_send(p1, halted),
            _ => returned(p1, Ok(())),
        }
    }
}

/// The commands of a stage are being run.
pub open spec fn running(stage: Stage) -> bool {
    stage is Events || stage is Arming || stage is Sending
}

/// The whole of the service's protocol: from what the owner handed back to what
/// the port needs next. A reply that answers another question than the port
/// asked ends the call as a controller error does.
pub open spec fn serviced(p: PortView, reply: ReplyView, halted: Halted) -> (
    PortView,
    RequestView,
) {
    match reply {
        ReplyView::Start => to_poll(
            PortView { service: resting(EVENT_BUDGET as int), ..p },
            halted,
        ),
        ReplyView::Event(event) => if p.service.stage is Polling {
            match event {
                None => to_arm(p, halted),
                Some(event) => match event {
                    Event::Out(ep) => if ep == 0 || super::device::is_data_out(p.device, event) {
                        (
                            PortView {
                                service: ServiceView { stage: Stage::Reading(ep), ..p.service },
                                ..p
                            },
                            RequestView::Read(ep),
                        )
                    } else {
                        to_event(p, event, Seq::empty(), halted)
                    },
                    _ => to_event(p, event, Seq::empty(), halted),
                },
            }
        } else {
            returned(p, Err(Error::Controller))
        },
        ReplyView::Packet(bytes) => match p.service.stage {
            Stage::Reading(ep) => to_event(p, Event::Out(ep), bytes, halted),
            _ => returned(p, Err(Error::Controller)),
        },
        ReplyView::Done => if running(p.service.stage) {
            to_next(p, halted)
        } else {
            returned(p, Err(Error::Controller))
        },
        ReplyView::Failed(e) => returned(p, Err(e)),
    }
}

/// What an event leaves to record belongs to the device it leaves.
proof fn lemma_event_committable(
    d: super::device::DeviceView,
    event: Event,
    packet: Seq<u8>,
    halted: Halted,
)
    requires
        reply_inside(d),
    ensures
        ({
            let (d1, result) = super::device::after_event(d, event, packet, halted);
            result matches Ok(step) ==> super::device::committable(d1, step.commit) && (
            step.commands.len() == 0 ==> super::device::committed(d1, step.commit) == d1)
        }),
{
}

/// A reply in progress lies inside the reply buffer.
pub open spec fn reply_inside(d: super::device::DeviceView) -> bool {
    match d.control {
        super::device::ControlView::In { data, sent, zlp } => 0 <= sent <= data.len() <= 256,
        _ => true,
    }
}

impl UsbSerial {
    /// The device is sound and what waits to be recorded belongs to it.
    pub open spec fn wf(&self) -> bool {
        &&& self.device.wf()
        &&& super::device::committable(self.device@, self.service.commit)
    }

    /// A port that has just been attached.
    pub fn new(identity: Identity) -> (port: Self)
        ensures
            port.wf(),
            port@ == (PortView { device: super::device::fresh(identity), service: resting(0) }),
    {
        let port = UsbSerial {
            device: Device::new(identity),
            service: Service {
                stage: Stage::Finished,
                left: 0,
                queue: Vec::new(),
                commit: Commit::Nothing,
            },
        };
        assert(port.service@.queue =~= Seq::empty());
        port
    }

    fn finish(&mut self, result: Result<(), Error>) -> (request: Request)
        requires
            old(self).wf(),
        ensures
            final(self).wf(),
            (final(self)@, request@) == returned(old(self)@, result),
    {
        self.service.stage = Stage::Finished;
        self.service.queue = Vec::new();
        self.service.commit = Commit::Nothing;
        assert(self.service@.queue =~= Seq::empty());
        Request::Return(result)
    }

    fn issue(&mut self, stage: Stage, step: Step) -> (request: Request)
        requires
            old(self).device.wf(),
            step.commands@.len() > 0,
            super::device::committable(old(self).device@, step.commit),
        ensures
            final(self).wf(),
            (final(self)@, request@) == issued(old(self)@, stage, step@),
    {
        let mut commands: Vec<Command> = step.commands;
        let ghost views = super::device::command_views(commands@);
        let first: Command = commands.remove(0);
        self.service.stage = stage;
        self.service.queue = commands;
        self.service.commit = step.commit;
        assert(self.service@.queue =~= views.skip(1));
        Request::Run(first)
    }

    fn send(&mut self, halted: Halted) -> (request: Request)
        requires
            old(self).device.wf(),
        ensures
            final(self).wf(),
            (final(self)@, request@) == to_send(old(self)@, halted),
    {
        let step: Step = self.device.transmit(halted);
        if step.commands.len() == 0 {
            self.service.commit = Commit::Nothing;
            self.finish(Ok(()))
        } else {
            self.issue(Stage::Sending, step)
        }
    }

    fn arm(&mut self, halted: Halted) -> (request: Request)
        requires
            old(self).device.wf(),
        ensures
            final(self).wf(),
            (final(self)@, request@) == to_arm(old(self)@, halted),
    {
        let step: Step = self.device.arm(halted);
        if step.commands.len() == 0 {
            self.send(halted)
        } else {
            self.issue(Stage::Arming, step)
        }
    }

    fn poll(&mut self, halted: Halted) -> (request: Request)
        requires
            old(self).device.wf(),
        ensures
            final(self).wf(),
            (final(self)@, request@) == to_poll(old(self)@, halted),
    {
        if self.service.left > 0 {
            self.service.stage = Stage::Polling;
            self.service.left = self.service.left - 1;
            self.service.queue = Vec::new();
            self.service.commit = Commit::Nothing;
            assert(self.service@.queue =~= Seq::empty());
            Request::Poll
        } else {
            self.arm(halted)
        }
    }

    fn event(&mut self, event: Event, packet: &[u8], halted: Halted) -> (request: Request)
        requires
            old(self).device.wf(),
            packet@.len() <= 64,
        ensures
            final(self).wf(),
            (final(self)@, request@) == to_event(old(self)@, event, packet@, halted),
    {
        proof {
            lemma_event_committable(self.device@, event, packet@, halted);
        }
        match self.device.handle(event, packet, halted) {
            Ok(step) => if step.commands.len() == 0 {
                self.poll(halted)
            } else {
                self.issue(Stage::Events, step)
            },
            Err(e) => {
                self.service.commit = Commit::Nothing;
                self.finish(Err(e))
            },
        }
    }

    fn next(&mut self, halted: Halted) -> (request: Request)
        requires
            old(self).wf(),
        ensures
            final(self).wf(),
            (final(self)@, request@) == to_next(old(self)@, halted),
    {
        if self.service.queue.len() > 0 {
            let ghost views = super::device::command_views(self.service.queue@);
            let first: Command = self.service.queue.remove(0);
            assert(self.service@.queue =~= views.skip(1));
            Request::Run(first)
        } else {
            self.device.commit(self.service.commit);
            self.service.commit = Commit::Nothing;
            match self.service.stage {
                Stage::Events => self.poll(halted),
                Stage::Arming => self.send(halted),
                _ => self.finish(Ok(())),
            }
        }
    }

    /// Carries a call of the service on. The owner begins it with
    /// [`Reply::Start`] and goes on until [`Request::Return`]; `halted` says how
    /// the endpoints stand now. At most 16 events and one outgoing data packet
    /// are handled per call, and nothing is waited for.
    pub fn service(&mut self, reply: Reply, halted: Halted) -> (request: Request)
        requires
            old(self).wf(),
            reply matches Reply::Packet(bytes) ==> bytes@.len() <= 64,
        ensures
            final(self).wf(),
            (final(self)@, request@) == serviced(old(self)@, reply@, halted),
    {
        match reply {
            Reply::Start => {
                self.service.stage = Stage::Finished;
                self.service.left = EVENT_BUDGET;
                self.service.queue = Vec::new();
                self.service.commit = Commit::Nothing;
                assert(self.service@.queue =~= Seq::empty());
                self.poll(halted)
            },
            Reply::Event(event) => if self.service.stage == Stage::Polling {
                match event {
                    None => self.arm(halted),
                    Some(event) => {
                        let empty: [u8; 0] = [];
                        assert(empty@ =~= Seq::empty());
                        if let Event::Out(ep) = event {
                            if ep == 0 || ep == 2 && self.device.configuration != 0 {
                                self.service.stage = Stage::Reading(ep);
                                return Request::Read(ep);
                            }
                        }
                        self.event(event, &empty, halted)
                    },
                }
            } else {
                self.finish(Err(Error::Controller))
            },
            Reply::Packet(bytes) => match self.service.stage {
                Stage::Reading(ep) => self.event(Event::Out(ep), bytes.as_slice(), halted),
                _ => self.finish(Err(Error::Controller)),
            },
            Reply::Done => match self.service.stage {
                Stage::Events => self.next(halted),
                Stage::Arming => self.next(halted),
                Stage::Sending => self.next(halted),
                _ => self.finish(Err(Error::Controller)),
            },
            Reply::Failed(e) => self.finish(Err(e)),
        }
    }

    /// The port's status now.
    pub fn status(&self) -> (s: Status)
        ensures
            s == super::device::status_of(self@.device),
    {
        self.device.status()
    }

    /// Takes the reboot a host has asked for and has seen acknowledged, if any.
    pub fn take_reset(&mut self) -> (target: Option<ResetTarget>)
        requires
            old(self).wf(),
        ensures
            final(self).wf(),
            target == old(self)@.device.reset,
            final(self)@ == (PortView {
                device: super::device::DeviceView { reset: None, ..old(self)@.device },
                ..old(self)@
            }),
    {
        let target = self.device.reset;
        self.device.reset = None;
        target
    }

    /// Queues bytes for a connected host and says how many were taken.
    pub fn write(&mut self, data: &[u8]) -> (count: usize)
        requires
            old(self).wf(),
        ensures
            final(self).wf(),
            count == (if super::device::connected(old(self)@.device) {
                super::device::room_for(old(self)@.device.tx.len(), data@.len())
            } else {
                0
            }),
            final(self)@ == (PortView {
                device: super::device::DeviceView {
                    tx: old(self)@.device.tx + data@.take(count as int),
                    ..old(self)@.device
                },
                ..old(self)@
            }),
    {
        let ghost before = self@;
        if self.device.status().connected {
            self.device.tx.push(data)
        } else {
            assert(before.device.tx + data@.take(0) =~= before.device.tx);
            0
        }
    }

    /// Moves received bytes into `out` and says how many.
    pub fn read(&mut self, out: &mut [u8]) -> (count: usize)
        requires
            old(self).wf(),
        ensures
            final(self).wf(),
            count == (if old(out)@.len() <= old(self)@.device.rx.len() {
                old(out)@.len()
            } else {
                old(self)@.device.rx.len()
            }),
            final(out)@ == old(self)@.device.rx.take(count as int) + old(out)@.skip(count as int),
            final(self)@ == (PortView {
                device: super::device::DeviceView {
                    rx: old(self)@.device.rx.skip(count as int),
                    ..old(self)@.device
                },
                ..old(self)@
            }),
    {
        self.device.rx.pop(out)
    }
}

} // verus!
