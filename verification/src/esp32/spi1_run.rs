//! How a script of the flash controller is run: what goes before it and after it, how
//! the chip's status is read, waited for, and its write protection lifted once.

use vstd::prelude::*;

use super::flash::FlashError;
use super::spi1::{
    await_unlock, elapsed, ready, restore, status_request, status_restore, status_value, unlock,
    FlashOp, Phases, Saved, CTRL, MISO_DLEN, NEVER_READY, USER, USER1, USER2,
};
use super::{Poll, RegOp};

verus! {

/// What a status read needs next.
#[derive(Debug)]
pub enum StatusAsk {
    /// Wait for both controllers to be at rest.
    AwaitIdle,
    /// Wait for the command to clear itself.
    AwaitCommand,
    /// Read what a status read disturbs.
    Keep,
    /// Perform these accesses.
    Perform(Vec<RegOp>),
    /// Read the first word of the data buffer.
    Fetch,
    /// Nothing; this is the status.
    Return(Result<u32, FlashError>),
}

/// A [`StatusAsk`] with its accesses as a sequence.
pub enum StatusAskView {
    AwaitIdle,
    AwaitCommand,
    Keep,
    Perform(Seq<RegOp>),
    Fetch,
    Return(Result<u32, FlashError>),
}

impl View for StatusAsk {
    type V = StatusAskView;

    open spec fn view(&self) -> StatusAskView {
        match *self {
            StatusAsk::AwaitIdle => StatusAskView::AwaitIdle,
            StatusAsk::AwaitCommand => StatusAskView::AwaitCommand,
            StatusAsk::Keep => StatusAskView::Keep,
            StatusAsk::Perform(ops) => StatusAskView::Perform(ops@),
            StatusAsk::Fetch => StatusAskView::Fetch,
            StatusAsk::Return(r) => StatusAskView::Return(r),
        }
    }
}

/// What a status read is handed back.
#[derive(Clone, Copy, Debug)]
pub enum StatusAnswer {
    /// A read begins.
    Start,
    /// How the wait ended.
    Waited(Result<(), FlashError>),
    /// What the read is going to disturb.
    Kept(Phases),
    /// The accesses were performed.
    Performed,
    /// The first word of the data buffer.
    Word(u32),
}

/// How far a status read has come.
#[derive(Clone, Copy, Debug)]
pub enum StatusStage {
    Resting,
    AwaitingIdle,
    AwaitingCommand,
    Keeping,
    Requesting(Phases),
    Firing(Phases),
    Fetching(Phases, Result<(), FlashError>),
    GivingBack(Result<u32, FlashError>),
}

/// A read of the chip's status.
#[derive(Clone, Copy, Debug)]
pub struct Status {
    pub stage: StatusStage,
}

/// The answers that a stage can be given.
pub open spec fn status_answers(stage: StatusStage, answer: StatusAnswer) -> bool {
    match answer {
        StatusAnswer::Start => stage is Resting,
        StatusAnswer::Waited(r) => stage is AwaitingIdle || stage is AwaitingCommand
            || stage is Firing,
        StatusAnswer::Kept(p) => stage is Keeping,
        StatusAnswer::Performed => stage is Requesting || stage is GivingBack,
        StatusAnswer::Word(w0) => stage is Fetching,
    }
}

/// A read comes to an end, with nothing left to give back.
pub open spec fn status_ended(r: Result<u32, FlashError>) -> (StatusStage, StatusAskView) {
    (StatusStage::Resting, StatusAskView::Return(r))
}

/// A status read: both controllers and the command at rest, the request, and then,
/// whether or not it came off, the byte taken and everything given back.
pub open spec fn status_step(stage: StatusStage, answer: StatusAnswer) -> (
    StatusStage,
    StatusAskView,
) {
    match (stage, answer) {
        (StatusStage::Resting, StatusAnswer::Start) => (
            StatusStage::AwaitingIdle,
            StatusAskView::AwaitIdle,
        ),
        (StatusStage::AwaitingIdle, StatusAnswer::Waited(r)) => match r {
            Ok(()) => (StatusStage::AwaitingCommand, StatusAskView::AwaitCommand),
            Err(e) => status_ended(Err(e)),
        },
        (StatusStage::AwaitingCommand, StatusAnswer::Waited(r)) => match r {
            Ok(()) => (StatusStage::Keeping, StatusAskView::Keep),
            Err(e) => status_ended(Err(e)),
        },
        (StatusStage::Keeping, StatusAnswer::Kept(p)) => (
            StatusStage::Requesting(p),
            StatusAskView::Perform(super::spi1::asking_status(p.user1)),
        ),
        (StatusStage::Requesting(p), StatusAnswer::Performed) => (
            StatusStage::Firing(p),
            StatusAskView::AwaitCommand,
        ),
        (StatusStage::Firing(p), StatusAnswer::Waited(fired)) => (
            StatusStage::Fetching(p, fired),
            StatusAskView::Fetch,
        ),
        (StatusStage::Fetching(p, fired), StatusAnswer::Word(w0)) => (
            StatusStage::GivingBack(
                match fired {
                    Ok(()) => Ok(w0 & 0xFF),
                    Err(e) => Err(e),
                },
            ),
            StatusAskView::Perform(super::spi1::giving_back(p)),
        ),
        (StatusStage::GivingBack(r), StatusAnswer::Performed) => status_ended(r),
        (_, _) => status_ended(Err(FlashError::Timeout)),
    }
}

impl Status {
    /// A read that has not begun.
    pub fn new() -> (s: Self)
        ensures
            s.stage is Resting,
    {
        Status { stage: StatusStage::Resting }
    }

    /// Goes on by what was handed back and says what is needed next, until it says what
    /// the status is.
    pub fn next(&mut self, answer: StatusAnswer) -> (ask: StatusAsk)
        requires
            status_answers(old(self).stage, answer),
        ensures
            (final(self).stage, ask@) == status_step(old(self).stage, answer),
    {
        match (self.stage, answer) {
            (StatusStage::Resting, StatusAnswer::Start) => {
                self.stage = StatusStage::AwaitingIdle;
                StatusAsk::AwaitIdle
            },
            (StatusStage::AwaitingIdle, StatusAnswer::Waited(Ok(()))) => {
                self.stage = StatusStage::AwaitingCommand;
                StatusAsk::AwaitCommand
            },
            (StatusStage::AwaitingCommand, StatusAnswer::Waited(Ok(()))) => {
                self.stage = StatusStage::Keeping;
                StatusAsk::Keep
            },
            (StatusStage::Keeping, StatusAnswer::Kept(p)) => {
                self.stage = StatusStage::Requesting(p);
                StatusAsk::Perform(status_request(p.user1))
            },
            (StatusStage::Requesting(p), StatusAnswer::Performed) => {
                self.stage = StatusStage::Firing(p);
                StatusAsk::AwaitCommand
            },
            (StatusStage::Firing(p), StatusAnswer::Waited(fired)) => {
                self.stage = StatusStage::Fetching(p, fired);
                StatusAsk::Fetch
            },
            (StatusStage::Fetching(p, fired), StatusAnswer::Word(w0)) => {
                let result: Result<u32, FlashError> = match fired {
                    Ok(()) => Ok(status_value(w0)),
                    Err(e) => Err(e),
                };
                self.stage = StatusStage::GivingBack(result);
                StatusAsk::Perform(status_restore(&p))
            },
            (StatusStage::GivingBack(r), StatusAnswer::Performed) => {
                self.stage = StatusStage::Resting;
                StatusAsk::Return(r)
            },
            (_, StatusAnswer::Waited(Err(e))) => {
                self.stage = StatusStage::Resting;
                StatusAsk::Return(Err(e))
            },
            _ => {
                self.stage = StatusStage::Resting;
                StatusAsk::Return(Err(FlashError::Timeout))
            },
        }
    }
}

/// Where a status read is after some answers.
pub open spec fn status_after(given: Seq<StatusAnswer>) -> StatusStage
    decreases given.len(),
{
    if given.len() == 0 {
        StatusStage::Resting
    } else {
        status_step(status_after(given.drop_last()), given.last()).0
    }
}

/// What a status read asks for after some answers.
pub open spec fn status_asked(given: Seq<StatusAnswer>) -> StatusAskView {
    status_step(status_after(given.drop_last()), given.last()).1
}

/// The accesses that a status read has had performed after some answers.
pub open spec fn status_performed(given: Seq<StatusAnswer>) -> Seq<RegOp>
    decreases given.len(),
{
    if given.len() == 0 {
        Seq::empty()
    } else {
        status_performed(given.drop_last()) + (match status_asked(given) {
            StatusAskView::Perform(ops) => ops,
            _ => Seq::empty(),
        })
    }
}

/// The answers of a whole read, by how its waits end and what it finds.
pub open spec fn status_answered(
    idle: Result<(), FlashError>,
    clear: Result<(), FlashError>,
    p: Phases,
    fired: Result<(), FlashError>,
    w0: u32,
) -> Seq<StatusAnswer> {
    if idle is Err {
        seq![StatusAnswer::Start, StatusAnswer::Waited(idle)]
    } else if clear is Err {
        seq![StatusAnswer::Start, StatusAnswer::Waited(idle), StatusAnswer::Waited(clear)]
    } else {
        seq![
            StatusAnswer::Start,
            StatusAnswer::Waited(idle),
            StatusAnswer::Waited(clear),
            StatusAnswer::Kept(p),
            StatusAnswer::Performed,
            StatusAnswer::Waited(fired),
            StatusAnswer::Word(w0),
            StatusAnswer::Performed,
        ]
    }
}

/// What a status read disturbs, as the registers hold it.
pub open spec fn phases_in(r: super::Registers) -> Phases {
    Phases {
        user: r.words[USER],
        user1: r.words[USER1],
        user2: r.words[USER2],
        miso_dlen: r.words[MISO_DLEN],
        ctrl: r.words[CTRL],
    }
}

proof fn lemma_status_step(given: Seq<StatusAnswer>, answer: StatusAnswer)
    ensures
        status_after(given.push(answer)) == status_step(status_after(given), answer).0,
        status_asked(given.push(answer)) == status_step(status_after(given), answer).1,
        status_performed(given.push(answer)) == status_performed(given) + (match status_step(
            status_after(given),
            answer,
        ).1 {
            StatusAskView::Perform(ops) => ops,
            _ => Seq::empty(),
        }),
{
    assert(given.push(answer).drop_last() =~= given);
}

proof fn lemma_status_answered(
    idle: Result<(), FlashError>,
    clear: Result<(), FlashError>,
    p: Phases,
    fired: Result<(), FlashError>,
    w0: u32,
)
    ensures
        ({
            let given = status_answered(idle, clear, p, fired, w0);
            &&& status_after(given) is Resting
            &&& status_asked(given) == StatusAskView::Return(
                match (idle, clear, fired) {
                    (Err(e), _, _) => Err(e),
                    (_, Err(e), _) => Err(e),
                    (_, _, Err(e)) => Err(e),
                    _ => Ok(w0 & 0xFF),
                },
            )
            &&& status_performed(given) == if idle is Err || clear is Err {
                Seq::<RegOp>::empty()
            } else {
                super::spi1::asking_status(p.user1) + super::spi1::giving_back(p)
            }
        }),
{
    let g0 = Seq::<StatusAnswer>::empty();
    let g1 = g0.push(StatusAnswer::Start);
    let g2 = g1.push(StatusAnswer::Waited(idle));
    let g3 = g2.push(StatusAnswer::Waited(clear));
    let g4 = g3.push(StatusAnswer::Kept(p));
    let g5 = g4.push(StatusAnswer::Performed);
    let g6 = g5.push(StatusAnswer::Waited(fired));
    let g7 = g6.push(StatusAnswer::Word(w0));
    let g8 = g7.push(StatusAnswer::Performed);
    lemma_status_step(g0, StatusAnswer::Start);
    lemma_status_step(g1, StatusAnswer::Waited(idle));
    assert(status_performed(g2) =~= Seq::<RegOp>::empty());
    let given = status_answered(idle, clear, p, fired, w0);
    if idle is Err {
        assert(given =~= g2);
    } else {
        lemma_status_step(g2, StatusAnswer::Waited(clear));
        assert(status_performed(g3) =~= Seq::<RegOp>::empty());
        if clear is Err {
            assert(given =~= g3);
        } else {
            lemma_status_step(g3, StatusAnswer::Kept(p));
            lemma_status_step(g4, StatusAnswer::Performed);
            lemma_status_step(g5, StatusAnswer::Waited(fired));
            lemma_status_step(g6, StatusAnswer::Word(w0));
            lemma_status_step(g7, StatusAnswer::Performed);
            assert(given =~= g8);
            assert(status_performed(g8) =~= super::spi1::asking_status(p.user1)
                + super::spi1::giving_back(p));
        }
    }
}

/// However a status read ends, what it disturbed is as it was before; it gives the
/// first of its waits that failed, else the byte it read.
pub proof fn law_a_status_read_gives_back_what_it_took(
    r: super::Registers,
    idle: Result<(), FlashError>,
    clear: Result<(), FlashError>,
    fired: Result<(), FlashError>,
    w0: u32,
)
    ensures
        ({
            let given = status_answered(idle, clear, phases_in(r), fired, w0);
            &&& status_after(given) is Resting
            &&& status_asked(given) == StatusAskView::Return(
                match (idle, clear, fired) {
                    (Err(e), _, _) => Err(e),
                    (_, Err(e), _) => Err(e),
                    (_, _, Err(e)) => Err(e),
                    _ => Ok(w0 & 0xFF),
                },
            )
            &&& phases_in(super::after_all(r, status_performed(given))) == phases_in(r)
        }),
{
    let p = phases_in(r);
    lemma_status_answered(idle, clear, p, fired, w0);
    if idle is Ok && clear is Ok {
        let ops = super::spi1::asking_status(p.user1) + super::spi1::giving_back(p);
        assert(ops.len() == 14);
        assert(ops.take(14) =~= ops);
        super::lemma_after_take(r, ops, 14);
        super::lemma_after_take(r, ops, 13);
        super::lemma_after_take(r, ops, 12);
        super::lemma_after_take(r, ops, 11);
        super::lemma_after_take(r, ops, 10);
    }
}

/// What waiting for the chip needs next.
#[derive(Clone, Copy, Debug)]
pub enum ReadyAsk {
    /// Read the cycle counter.
    Clock,
    /// Read the status, as [`Status`] does.
    Status,
    /// Nothing; this is how the wait ended, and what to leave behind about a chip that
    /// was never ready.
    Return { result: Result<(), FlashError>, trace: Option<u32> },
}

/// What a wait for the chip is handed back.
#[derive(Clone, Copy, Debug)]
pub enum ReadyAnswer {
    /// A wait begins.
    Start,
    /// What the cycle counter said.
    Clock(u32),
    /// What the status is.
    Status(Result<u32, FlashError>),
}

/// How far a wait for the chip has come.
#[derive(Clone, Copy, Debug)]
pub enum ReadyStage {
    Resting,
    Starting,
    /// Since this cycle.
    Asking(u32),
    /// Since this cycle, with this status.
    Timing(u32, u32),
}

/// A wait for the chip to be done with its last program or erase.
#[derive(Clone, Copy, Debug)]
pub struct Readiness {
    pub stage: ReadyStage,
}

/// The answers that a stage can be given.
pub open spec fn ready_answers(stage: ReadyStage, answer: ReadyAnswer) -> bool {
    match answer {
        ReadyAnswer::Start => stage is Resting,
        ReadyAnswer::Clock(now) => stage is Starting || stage is Timing,
        ReadyAnswer::Status(r) => stage is Asking,
    }
}

/// The status is read over and over until it shows the chip ready, cannot be read, or
/// the time is up.
pub open spec fn ready_step(stage: ReadyStage, answer: ReadyAnswer) -> (ReadyStage, ReadyAsk) {
    match (stage, answer) {
        (ReadyStage::Resting, ReadyAnswer::Start) => (ReadyStage::Starting, ReadyAsk::Clock),
        (ReadyStage::Starting, ReadyAnswer::Clock(now)) => (
            ReadyStage::Asking(now),
            ReadyAsk::Status,
        ),
        (ReadyStage::Asking(since), ReadyAnswer::Status(r)) => match r {
            Ok(status) => (ReadyStage::Timing(since, status), ReadyAsk::Clock),
            Err(e) => (ReadyStage::Resting, ReadyAsk::Return { result: Err(e), trace: None }),
        },
        (ReadyStage::Timing(since, status), ReadyAnswer::Clock(now)) => match super::spi1::timed(
            status & super::spi1::STATUS_WIP == 0,
            ((now - since) % 0x1_0000_0000) as u32,
        ) {
            Poll::Done => (
                ReadyStage::Resting,
                ReadyAsk::Return { result: Ok(()), trace: None },
            ),
            Poll::Again => (ReadyStage::Asking(since), ReadyAsk::Status),
            Poll::TimedOut => (
                ReadyStage::Resting,
                ReadyAsk::Return { result: Err(FlashError::Timeout), trace: Some(NEVER_READY) },
            ),
        },
        (_, _) => (
            ReadyStage::Resting,
            ReadyAsk::Return { result: Err(FlashError::Timeout), trace: None },
        ),
    }
}

impl Readiness {
    /// A wait that has not begun.
    pub fn new() -> (w: Self)
        ensures
            w.stage is Resting,
    {
        Readiness { stage: ReadyStage::Resting }
    }

    /// Goes on by what was handed back and says what is needed next, until it says how
    /// the wait ended.
    pub fn next(&mut self, answer: ReadyAnswer) -> (ask: ReadyAsk)
        requires
            ready_answers(old(self).stage, answer),
        ensures
            (final(self).stage, ask) == ready_step(old(self).stage, answer),
    {
        match (self.stage, answer) {
            (ReadyStage::Resting, ReadyAnswer::Start) => {
                self.stage = ReadyStage::Starting;
                ReadyAsk::Clock
            },
            (ReadyStage::Starting, ReadyAnswer::Clock(now)) => {
                self.stage = ReadyStage::Asking(now);
                ReadyAsk::Status
            },
            (ReadyStage::Asking(since), ReadyAnswer::Status(Ok(status))) => {
                self.stage = ReadyStage::Timing(since, status);
                ReadyAsk::Clock
            },
            (ReadyStage::Asking(_), ReadyAnswer::Status(Err(e))) => {
                self.stage = ReadyStage::Resting;
                ReadyAsk::Return { result: Err(e), trace: None }
            },
            (ReadyStage::Timing(since, status), ReadyAnswer::Clock(now)) => match ready(
                status,
                elapsed(now, since),
            ) {
                Poll::Done => {
                    self.stage = ReadyStage::Resting;
                    ReadyAsk::Return { result: Ok(()), trace: None }
                },
                Poll::Again => {
                    self.stage = ReadyStage::Asking(since);
                    ReadyAsk::Status
                },
                Poll::TimedOut => {
                    self.stage = ReadyStage::Resting;
                    ReadyAsk::Return { result: Err(FlashError::Timeout), trace: Some(NEVER_READY) }
                },
            },
            _ => {
                self.stage = ReadyStage::Resting;
                ReadyAsk::Return { result: Err(FlashError::Timeout), trace: None }
            },
        }
    }
}

/// Where a wait is after some answers.
pub open spec fn ready_after(given: Seq<ReadyAnswer>) -> ReadyStage
    decreases given.len(),
{
    if given.len() == 0 {
        ReadyStage::Resting
    } else {
        ready_step(ready_after(given.drop_last()), given.last()).0
    }
}

/// The cycles that a counter which wraps has come on.
pub open spec fn cycles_since(now: u32, since: u32) -> int {
    (now - since) % 0x1_0000_0000
}

/// Looks at a busy chip, each with the cycle it was taken at, while there is time.
pub open spec fn busy_in_time(since: u32, looks: Seq<(u32, u32)>) -> bool {
    forall|i: int|
        0 <= i < looks.len() ==> (#[trigger] looks[i]).0 & super::spi1::STATUS_WIP != 0
            && cycles_since(looks[i].1, since) <= super::spi1::BUSY_CYCLES
}

/// The answers of a wait up to some looks.
pub open spec fn ready_looked(since: u32, looks: Seq<(u32, u32)>) -> Seq<ReadyAnswer>
    decreases looks.len(),
{
    if looks.len() == 0 {
        seq![ReadyAnswer::Start, ReadyAnswer::Clock(since)]
    } else {
        ready_looked(since, looks.drop_last()).push(
            ReadyAnswer::Status(Ok(looks.last().0)),
        ).push(ReadyAnswer::Clock(looks.last().1))
    }
}

proof fn lemma_ready_looked(since: u32, looks: Seq<(u32, u32)>)
    requires
        busy_in_time(since, looks),
    ensures
        ready_after(ready_looked(since, looks)) == ReadyStage::Asking(since),
    decreases looks.len(),
{
    let given = ready_looked(since, looks);
    if looks.len() == 0 {
        reveal_with_fuel(ready_after, 3);
        assert(given.drop_last().drop_last() =~= Seq::empty());
    } else {
        let before = looks.drop_last();
        assert forall|i: int| 0 <= i < before.len() implies (#[trigger] before[i]).0
            & super::spi1::STATUS_WIP != 0 && cycles_since(before[i].1, since)
            <= super::spi1::BUSY_CYCLES by {
            assert(before[i] == looks[i]);
        }
        lemma_ready_looked(since, before);
        let look = looks[looks.len() - 1];
        let asked = ready_looked(since, before).push(ReadyAnswer::Status(Ok(look.0)));
        assert(asked.drop_last() =~= ready_looked(since, before));
        assert(ready_after(asked) == ReadyStage::Timing(since, look.0));
        assert(given =~= asked.push(ReadyAnswer::Clock(look.1)));
        assert(given.drop_last() =~= asked);
    }
}

/// A chip that is busy is looked at again as long as there is time. The wait ends well
/// with the first look that shows it ready, whenever that is taken; it ends badly with
/// a look that shows it busy after the time is up, or that cannot be taken.
pub proof fn law_a_wait_ends_with_the_chip_or_the_time(
    since: u32,
    looks: Seq<(u32, u32)>,
    status: u32,
    now: u32,
    e: FlashError,
)
    requires
        busy_in_time(since, looks),
    ensures
        ({
            let stage = ready_after(ready_looked(since, looks));
            let timing = ready_step(stage, ReadyAnswer::Status(Ok(status)));
            let end = ready_step(timing.0, ReadyAnswer::Clock(now)).1;
            &&& timing.1 == ReadyAsk::Clock
            &&& status & super::spi1::STATUS_WIP == 0 ==> end == (ReadyAsk::Return {
                result: Ok(()),
                trace: None,
            })
            &&& status & super::spi1::STATUS_WIP != 0 && cycles_since(now, since)
                > super::spi1::BUSY_CYCLES ==> end == (ReadyAsk::Return {
                result: Err(FlashError::Timeout),
                trace: Some(NEVER_READY),
            })
            &&& status & super::spi1::STATUS_WIP != 0 && cycles_since(now, since)
                <= super::spi1::BUSY_CYCLES ==> end == ReadyAsk::Status
            &&& ready_step(stage, ReadyAnswer::Status(Err(e))).1 == (ReadyAsk::Return {
                result: Err(e),
                trace: None,
            })
        }),
{
    lemma_ready_looked(since, looks);
}

/// What lifting the write protection needs next.
#[derive(Debug)]
pub enum UnlockAsk {
    /// Run these lines.
    Lines(Vec<FlashOp>),
    /// Read the status, as [`Status`] does.
    Status,
    /// Nothing; this is how it ended.
    Return(Result<(), FlashError>),
}

/// An [`UnlockAsk`] with its lines as a sequence.
pub enum UnlockAskView {
    Lines(Seq<FlashOp>),
    Status,
    Return(Result<(), FlashError>),
}

impl View for UnlockAsk {
    type V = UnlockAskView;

    open spec fn view(&self) -> UnlockAskView {
        match *self {
            UnlockAsk::Lines(ops) => UnlockAskView::Lines(ops@),
            UnlockAsk::Status => UnlockAskView::Status,
            UnlockAsk::Return(r) => UnlockAskView::Return(r),
        }
    }
}

/// What lifting the write protection is handed back.
#[derive(Clone, Copy, Debug)]
pub enum UnlockAnswer {
    /// The protection is to be lifted.
    Start,
    /// How the lines ended.
    Ran(Result<(), FlashError>),
    /// What the status is.
    Status(Result<u32, FlashError>),
}

/// How far it has come.
#[derive(Clone, Copy, Debug, PartialEq, Eq, Structural)]
pub enum UnlockStage {
    Resting,
    Waiting,
    Asking,
    Lifting,
}

/// The chip's write protection, which is lifted once.
#[derive(Clone, Copy, Debug, PartialEq, Eq, Structural)]
pub struct Unlocking {
    pub unlocked: bool,
    pub stage: UnlockStage,
}

/// The answers that a stage can be given.
pub open spec fn unlock_answers(stage: UnlockStage, answer: UnlockAnswer) -> bool {
    match answer {
        UnlockAnswer::Start => stage is Resting,
        UnlockAnswer::Ran(r) => stage is Waiting || stage is Lifting,
        UnlockAnswer::Status(r) => stage is Asking,
    }
}

/// Unless it was done before: wait until the chip is ready, read its status, and lift
/// what that shows. Only a success is remembered.
pub open spec fn unlock_step(u: Unlocking, answer: UnlockAnswer) -> (Unlocking, UnlockAskView) {
    match (u.stage, answer) {
        (UnlockStage::Resting, UnlockAnswer::Start) => if u.unlocked {
            (u, UnlockAskView::Return(Ok(())))
        } else {
            (
                Unlocking { stage: UnlockStage::Waiting, ..u },
                UnlockAskView::Lines(super::spi1::before_unlocking()),
            )
        },
        (UnlockStage::Waiting, UnlockAnswer::Ran(Ok(()))) => (
            Unlocking { stage: UnlockStage::Asking, ..u },
            UnlockAskView::Status,
        ),
        (UnlockStage::Asking, UnlockAnswer::Status(Ok(status))) => (
            Unlocking { stage: UnlockStage::Lifting, ..u },
            UnlockAskView::Lines(super::spi1::lifting(status)),
        ),
        (UnlockStage::Lifting, UnlockAnswer::Ran(Ok(()))) => (
            Unlocking { unlocked: true, stage: UnlockStage::Resting },
            UnlockAskView::Return(Ok(())),
        ),
        (_, UnlockAnswer::Ran(Err(e))) => (
            Unlocking { stage: UnlockStage::Resting, ..u },
            UnlockAskView::Return(Err(e)),
        ),
        (_, UnlockAnswer::Status(Err(e))) => (
            Unlocking { stage: UnlockStage::Resting, ..u },
            UnlockAskView::Return(Err(e)),
        ),
        (_, _) => (
            Unlocking { stage: UnlockStage::Resting, ..u },
            UnlockAskView::Return(Err(FlashError::Timeout)),
        ),
    }
}

impl Unlocking {
    /// The protection of a chip, given whether it was lifted since it came up.
    pub fn new(unlocked: bool) -> (u: Self)
        ensures
            u == (Unlocking { unlocked, stage: UnlockStage::Resting }),
    {
        Unlocking { unlocked, stage: UnlockStage::Resting }
    }

    /// Goes on by what was handed back and says what is needed next, until it says how
    /// it ended.
    pub fn next(&mut self, answer: UnlockAnswer) -> (ask: UnlockAsk)
        requires
            unlock_answers(old(self).stage, answer),
        ensures
            (*final(self), ask@) == unlock_step(*old(self), answer),
    {
        match (self.stage, answer) {
            (UnlockStage::Resting, UnlockAnswer::Start) => {
                if self.unlocked {
                    return UnlockAsk::Return(Ok(()));
                }
                self.stage = UnlockStage::Waiting;
                UnlockAsk::Lines(await_unlock())
            },
            (UnlockStage::Waiting, UnlockAnswer::Ran(Ok(()))) => {
                self.stage = UnlockStage::Asking;
                UnlockAsk::Status
            },
            (UnlockStage::Asking, UnlockAnswer::Status(Ok(status))) => {
                self.stage = UnlockStage::Lifting;
                UnlockAsk::Lines(unlock(status))
            },
            (UnlockStage::Lifting, UnlockAnswer::Ran(Ok(()))) => {
                self.unlocked = true;
                self.stage = UnlockStage::Resting;
                UnlockAsk::Return(Ok(()))
            },
            (_, UnlockAnswer::Ran(Err(e))) => {
                self.stage = UnlockStage::Resting;
                UnlockAsk::Return(Err(e))
            },
            (_, UnlockAnswer::Status(Err(e))) => {
                self.stage = UnlockStage::Resting;
                UnlockAsk::Return(Err(e))
            },
            _ => {
                self.stage = UnlockStage::Resting;
                UnlockAsk::Return(Err(FlashError::Timeout))
            },
        }
    }
}

/// The protection is remembered as lifted exactly when lifting it has ended well, which
/// nothing takes back; from then on it ends well without touching the chip.
pub proof fn law_the_protection_is_lifted_once(u: Unlocking, answer: UnlockAnswer)
    requires
        unlock_answers(u.stage, answer),
    ensures
        ({
            let (u1, ask) = unlock_step(u, answer);
            &&& u.unlocked ==> u1.unlocked
            &&& u1.unlocked && !u.unlocked ==> u.stage is Lifting && ask
                == UnlockAskView::Return(Ok(()))
            &&& ask == UnlockAskView::Return(Ok(())) ==> u1.unlocked
            &&& u1.unlocked && u1.stage is Resting ==> unlock_step(u1, UnlockAnswer::Start) == (
                u1,
                UnlockAskView::Return(Ok(())),
            )
        }),
{
}

/// What the last wait of a traced script needs next.
#[derive(Debug)]
pub enum LastAsk {
    /// Run these lines.
    Lines(Vec<FlashOp>),
    /// Leave the status behind.
    Trace,
    /// Nothing; this is how the wait ended.
    Return(Result<(), FlashError>),
}

/// A [`LastAsk`] with its lines as a sequence.
pub enum LastAskView {
    Lines(Seq<FlashOp>),
    Trace,
    Return(Result<(), FlashError>),
}

impl View for LastAsk {
    type V = LastAskView;

    open spec fn view(&self) -> LastAskView {
        match *self {
            LastAsk::Lines(ops) => LastAskView::Lines(ops@),
            LastAsk::Trace => LastAskView::Trace,
            LastAsk::Return(r) => LastAskView::Return(r),
        }
    }
}

/// What the last wait of a traced script is handed back.
#[derive(Clone, Copy, Debug)]
pub enum LastAnswer {
    /// The wait begins.
    Start,
    /// How the lines ended.
    Ran(Result<(), FlashError>),
    /// The status was left behind, or that there was none.
    Traced,
}

/// How far the last wait has come.
#[derive(Clone, Copy, Debug)]
pub enum LastStage {
    Resting,
    Waiting,
    Tracing(Result<(), FlashError>),
}

/// The last wait of a traced script.
#[derive(Clone, Copy, Debug)]
pub struct LastWait {
    pub stage: LastStage,
}

/// The answers that a stage can be given.
pub open spec fn last_answers(stage: LastStage, answer: LastAnswer) -> bool {
    match answer {
        LastAnswer::Start => stage is Resting,
        LastAnswer::Ran(r) => stage is Waiting,
        LastAnswer::Traced => stage is Tracing,
    }
}

/// The status is left behind whether or not the wait came off, and then the wait ends as
/// it did.
pub open spec fn last_step(stage: LastStage, answer: LastAnswer) -> (LastStage, LastAskView) {
    match (stage, answer) {
        (LastStage::Resting, LastAnswer::Start) => (
            LastStage::Waiting,
            LastAskView::Lines(super::spi1::awaiting()),
        ),
        (LastStage::Waiting, LastAnswer::Ran(r)) => (LastStage::Tracing(r), LastAskView::Trace),
        (LastStage::Tracing(r), LastAnswer::Traced) => (
            LastStage::Resting,
            LastAskView::Return(r),
        ),
        (_, _) => (LastStage::Resting, LastAskView::Return(Err(FlashError::Timeout))),
    }
}

impl LastWait {
    /// A wait that has not begun.
    pub fn new() -> (w: Self)
        ensures
            w.stage is Resting,
    {
        LastWait { stage: LastStage::Resting }
    }

    /// Goes on by what was handed back and says what is needed next, until it says how
    /// the wait ended.
    pub fn next(&mut self, answer: LastAnswer) -> (ask: LastAsk)
        requires
            last_answers(old(self).stage, answer),
        ensures
            (final(self).stage, ask@) == last_step(old(self).stage, answer),
    {
        match (self.stage, answer) {
            (LastStage::Resting, LastAnswer::Start) => {
                self.stage = LastStage::Waiting;
                let lines: Vec<FlashOp> = vec![FlashOp::AwaitIdle, FlashOp::AwaitReady];
                assert(lines@ =~= super::spi1::awaiting());
                LastAsk::Lines(lines)
            },
            (LastStage::Waiting, LastAnswer::Ran(r)) => {
                self.stage = LastStage::Tracing(r);
                LastAsk::Trace
            },
            (LastStage::Tracing(r), LastAnswer::Traced) => {
                self.stage = LastStage::Resting;
                LastAsk::Return(r)
            },
            _ => {
                self.stage = LastStage::Resting;
                LastAsk::Return(Err(FlashError::Timeout))
            },
        }
    }
}

/// However the last wait ends, the status is left behind first and the end is the wait's.
pub proof fn law_the_last_wait_is_traced(result: Result<(), FlashError>)
    ensures
        ({
            let s0 = last_step(LastStage::Resting, LastAnswer::Start);
            let s1 = last_step(s0.0, LastAnswer::Ran(result));
            &&& s0.1 == LastAskView::Lines(super::spi1::awaiting())
            &&& s1.1 is Trace
            &&& last_step(s1.0, LastAnswer::Traced) == (
                LastStage::Resting,
                LastAskView::Return(result),
            )
        }),
{
}

/// What running a script needs next.
#[derive(Debug)]
pub enum SessionAsk {
    /// Read what a snapshot holds, and leave it behind at this place.
    Snapshot(usize),
    /// Read what the script disturbs.
    Keep,
    /// Run the script's lines.
    Run,
    /// Perform these accesses.
    Perform(Vec<RegOp>),
    /// Nothing; this is how it ended.
    Return(Result<(), FlashError>),
}

/// A [`SessionAsk`] with its accesses as a sequence.
pub enum SessionAskView {
    Snapshot(usize),
    Keep,
    Run,
    Perform(Seq<RegOp>),
    Return(Result<(), FlashError>),
}

impl View for SessionAsk {
    type V = SessionAskView;

    open spec fn view(&self) -> SessionAskView {
        match *self {
            SessionAsk::Snapshot(place) => SessionAskView::Snapshot(place),
            SessionAsk::Keep => SessionAskView::Keep,
            SessionAsk::Run => SessionAskView::Run,
            SessionAsk::Perform(ops) => SessionAskView::Perform(ops@),
            SessionAsk::Return(r) => SessionAskView::Return(r),
        }
    }
}

/// What running a script is handed back.
#[derive(Clone, Copy, Debug)]
pub enum SessionAnswer {
    /// A script is to be run; a snapshot goes before it if it has a place.
    Start(Option<usize>),
    /// The snapshot was taken.
    Snapped,
    /// What it is going to disturb.
    Kept(Saved),
    /// How its lines ended.
    Ran(Result<(), FlashError>),
    /// The accesses were performed.
    Performed,
}

/// How far a script has come.
#[derive(Clone, Copy, Debug)]
pub enum SessionStage {
    Resting,
    Snapping,
    Keeping,
    Running(Saved),
    Restoring(Result<(), FlashError>),
}

/// The run of one script.
#[derive(Clone, Copy, Debug)]
pub struct Session {
    pub stage: SessionStage,
}

/// The answers that a stage can be given.
pub open spec fn session_answers(stage: SessionStage, answer: SessionAnswer) -> bool {
    match answer {
        SessionAnswer::Start(place) => stage is Resting,
        SessionAnswer::Snapped => stage is Snapping,
        SessionAnswer::Kept(s) => stage is Keeping,
        SessionAnswer::Ran(r) => stage is Running,
        SessionAnswer::Performed => stage is Restoring,
    }
}

/// What the cache left in the registers is read before a script and written back after
/// it, whether or not it came off. A snapshot, if one is due, goes before it all.
pub open spec fn session_step(stage: SessionStage, answer: SessionAnswer) -> (
    SessionStage,
    SessionAskView,
) {
    match (stage, answer) {
        (SessionStage::Resting, SessionAnswer::Start(place)) => match place {
            Some(place) => (SessionStage::Snapping, SessionAskView::Snapshot(place)),
            None => (SessionStage::Keeping, SessionAskView::Keep),
        },
        (SessionStage::Snapping, SessionAnswer::Snapped) => (
            SessionStage::Keeping,
            SessionAskView::Keep,
        ),
        (SessionStage::Keeping, SessionAnswer::Kept(s)) => (
            SessionStage::Running(s),
            SessionAskView::Run,
        ),
        (SessionStage::Running(s), SessionAnswer::Ran(r)) => (
            SessionStage::Restoring(r),
            SessionAskView::Perform(super::spi1::restoring(s)),
        ),
        (SessionStage::Restoring(r), SessionAnswer::Performed) => (
            SessionStage::Resting,
            SessionAskView::Return(r),
        ),
        (_, _) => (SessionStage::Resting, SessionAskView::Return(Err(FlashError::Timeout))),
    }
}

impl Session {
    /// A run that has not begun.
    pub fn new() -> (s: Self)
        ensures
            s.stage is Resting,
    {
        Session { stage: SessionStage::Resting }
    }

    /// Goes on by what was handed back and says what is needed next, until it says how
    /// the script ended.
    pub fn next(&mut self, answer: SessionAnswer) -> (ask: SessionAsk)
        requires
            session_answers(old(self).stage, answer),
        ensures
            (final(self).stage, ask@) == session_step(old(self).stage, answer),
    {
        match (self.stage, answer) {
            (SessionStage::Resting, SessionAnswer::Start(Some(place))) => {
                self.stage = SessionStage::Snapping;
                SessionAsk::Snapshot(place)
            },
            (SessionStage::Resting, SessionAnswer::Start(None)) => {
                self.stage = SessionStage::Keeping;
                SessionAsk::Keep
            },
            (SessionStage::Snapping, SessionAnswer::Snapped) => {
                self.stage = SessionStage::Keeping;
                SessionAsk::Keep
            },
            (SessionStage::Keeping, SessionAnswer::Kept(saved)) => {
                self.stage = SessionStage::Running(saved);
                SessionAsk::Run
            },
            (SessionStage::Running(saved), SessionAnswer::Ran(r)) => {
                self.stage = SessionStage::Restoring(r);
                SessionAsk::Perform(restore(&saved))
            },
            (SessionStage::Restoring(r), SessionAnswer::Performed) => {
                self.stage = SessionStage::Resting;
                SessionAsk::Return(r)
            },
            _ => {
                self.stage = SessionStage::Resting;
                SessionAsk::Return(Err(FlashError::Timeout))
            },
        }
    }
}

/// What a script disturbs, as the registers hold it.
pub open spec fn saved_in(r: super::Registers) -> Saved {
    Saved {
        ctrl: r.words[CTRL],
        user: r.words[USER],
        user1: r.words[USER1],
        user2: r.words[USER2],
        addr: r.words[super::spi1::ADDR],
        miso_dlen: r.words[MISO_DLEN],
        mosi_dlen: r.words[super::spi1::MOSI_DLEN],
    }
}

/// Whatever the lines of a script did to the registers and however they ended, what
/// the cache left in them is back before the script's result is given.
pub proof fn law_a_script_gives_back_what_it_took(
    r: super::Registers,
    disturbed: super::Registers,
    place: usize,
    result: Result<(), FlashError>,
)
    ensures
        ({
            let snapped = session_step(SessionStage::Resting, SessionAnswer::Start(Some(place)));
            let s0 = session_step(SessionStage::Resting, SessionAnswer::Start(None));
            let s1 = session_step(s0.0, SessionAnswer::Kept(saved_in(r)));
            let s2 = session_step(s1.0, SessionAnswer::Ran(result));
            &&& snapped.1 == SessionAskView::Snapshot(place)
            &&& session_step(snapped.0, SessionAnswer::Snapped) == s0
            &&& s0.1 is Keep
            &&& s1.1 is Run
            &&& s2.1 matches SessionAskView::Perform(ops) && saved_in(
                super::after_all(disturbed, ops),
            ) == saved_in(r)
            &&& session_step(s2.0, SessionAnswer::Performed) == (
                SessionStage::Resting,
                SessionAskView::Return(result),
            )
        }),
{
    let ops = super::spi1::restoring(saved_in(r));
    assert(ops.len() == 8);
    assert(ops.take(8) =~= ops);
    super::lemma_after_take(disturbed, ops, 8);
    super::lemma_after_take(disturbed, ops, 7);
    super::lemma_after_take(disturbed, ops, 6);
    super::lemma_after_take(disturbed, ops, 5);
    super::lemma_after_take(disturbed, ops, 4);
    super::lemma_after_take(disturbed, ops, 3);
    super::lemma_after_take(disturbed, ops, 2);
    super::lemma_after_take(disturbed, ops, 1);
}

/// The protection of a chip is looked at once it is ready, and is lifted where there is any and
/// only there. Whatever fails on the way is told as it failed, and the protection is then still
/// to be lifted.
pub proof fn law_protection_is_lifted_where_there_is_any(status: u32, e: FlashError)
    ensures
        ({
            let u = Unlocking { unlocked: false, stage: UnlockStage::Resting };
            let s0 = unlock_step(u, UnlockAnswer::Start);
            let s1 = unlock_step(s0.0, UnlockAnswer::Ran(Ok(())));
            let s2 = unlock_step(s1.0, UnlockAnswer::Status(Ok(status)));
            let failed = (u, UnlockAskView::Return(Err(e)));
            &&& s0.1 matches UnlockAskView::Lines(ops) && ops.contains(FlashOp::AwaitReady)
            &&& s1.1 is Status
            &&& s2.1 matches UnlockAskView::Lines(ops) && ops.skip(1) == if super::spi1::protects(
                status,
            ) {
                super::spi1::unlocking()
            } else {
                Seq::empty()
            }
            &&& unlock_step(s2.0, UnlockAnswer::Ran(Ok(()))) == (
                Unlocking { unlocked: true, ..u },
                UnlockAskView::Return(Ok(())),
            )
            &&& unlock_step(s0.0, UnlockAnswer::Ran(Err(e))) == failed
            &&& unlock_step(s1.0, UnlockAnswer::Status(Err(e))) == failed
            &&& unlock_step(s2.0, UnlockAnswer::Ran(Err(e))) == failed
        }),
{
    let lines = super::spi1::before_unlocking();
    assert(lines[2] == FlashOp::AwaitReady);
    assert(super::spi1::lifting(status).skip(1) =~= if super::spi1::protects(status) {
        super::spi1::unlocking()
    } else {
        Seq::empty()
    });
}

} // verus!
