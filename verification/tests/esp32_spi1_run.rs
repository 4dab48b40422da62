use flint_drivers::esp32::flash::FlashError;
use flint_drivers::esp32::spi1::{
    await_unlock, restore, status_request, status_restore, unlock, FlashOp, Phases, Saved,
    BUSY_CYCLES, NEVER_READY,
};
use flint_drivers::esp32::spi1_run::{
    LastAnswer, LastAsk, LastWait, ReadyAnswer, ReadyAsk, Readiness, Session, SessionAnswer,
    SessionAsk, Status, StatusAnswer, StatusAsk, UnlockAnswer, UnlockAsk, Unlocking,
};
use flint_drivers::esp32::RegOp;

fn phases() -> Phases {
    Phases { user: 1, user1: 0x1234_56FF, user2: 3, miso_dlen: 4, ctrl: 5 }
}

fn status_read(
    idle: Result<(), FlashError>,
    commands: [Result<(), FlashError>; 2],
    w0: u32,
) -> (Vec<RegOp>, Vec<&'static str>, Result<u32, FlashError>) {
    let mut status = Status::new();
    let mut done: Vec<RegOp> = Vec::new();
    let mut asked = Vec::new();
    let mut waits = commands.into_iter();
    let mut ask = status.next(StatusAnswer::Start);
    loop {
        let answer = match ask {
            StatusAsk::AwaitIdle => {
                asked.push("idle");
                StatusAnswer::Waited(idle)
            }
            StatusAsk::AwaitCommand => {
                asked.push("command");
                StatusAnswer::Waited(waits.next().unwrap())
            }
            StatusAsk::Keep => {
                asked.push("keep");
                StatusAnswer::Kept(phases())
            }
            StatusAsk::Perform(ops) => {
                asked.push("perform");
                done.extend(ops);
                StatusAnswer::Performed
            }
            StatusAsk::Fetch => {
                asked.push("fetch");
                StatusAnswer::Word(w0)
            }
            StatusAsk::Return(result) => return (done, asked, result),
        };
        ask = status.next(answer);
    }
}

#[test]
fn a_status_read_waits_asks_and_gives_back() {
    let mut expected = status_request(phases().user1);
    expected.extend(status_restore(&phases()));
    let order = vec!["idle", "command", "keep", "perform", "command", "fetch", "perform"];
    let (done, asked, result) = status_read(Ok(()), [Ok(()), Ok(())], 0xFFFF_FF82);
    assert_eq!(done, expected);
    assert_eq!(asked, order);
    assert_eq!(result, Ok(0x82));
    let (done, asked, result) = status_read(Ok(()), [Ok(()), Err(FlashError::Timeout)], 0);
    assert_eq!(done, expected, "given back though the command never cleared");
    assert_eq!(asked, order);
    assert_eq!(result, Err(FlashError::Timeout));
}

#[test]
fn a_status_read_that_cannot_begin_touches_nothing() {
    let late = Err(FlashError::Timeout);
    let (done, asked, result) = status_read(late, [Ok(()), Ok(())], 0);
    assert!(done.is_empty());
    assert_eq!(asked, vec!["idle"]);
    assert_eq!(result, Err(FlashError::Timeout));
    let (done, asked, result) = status_read(Ok(()), [late, Ok(())], 0);
    assert!(done.is_empty());
    assert_eq!(asked, vec!["idle", "command"]);
    assert_eq!(result, Err(FlashError::Timeout));
}

fn await_ready(
    clocks: &[u32],
    statuses: &[Result<u32, FlashError>],
) -> (Result<(), FlashError>, Option<u32>, usize) {
    let mut wait = Readiness::new();
    let (mut clock, mut looks) = (0, 0);
    let mut ask = wait.next(ReadyAnswer::Start);
    loop {
        let answer = match ask {
            ReadyAsk::Clock => {
                clock += 1;
                ReadyAnswer::Clock(clocks[clock - 1])
            }
            ReadyAsk::Status => {
                looks += 1;
                ReadyAnswer::Status(statuses[looks - 1])
            }
            ReadyAsk::Return { result, trace } => return (result, trace, looks),
        };
        ask = wait.next(answer);
    }
}

#[test]
fn a_wait_ends_with_the_chip_or_the_time() {
    assert_eq!(await_ready(&[5, 6, 7, 8], &[Ok(1), Ok(3), Ok(2)]), (Ok(()), None, 3));
    let start = u32::MAX - 10;
    let limit = start.wrapping_add(BUSY_CYCLES);
    assert_eq!(
        await_ready(&[start, limit, limit.wrapping_add(1)], &[Ok(1), Ok(1)]),
        (Err(FlashError::Timeout), Some(NEVER_READY), 2)
    );
    assert_eq!(
        await_ready(&[0, BUSY_CYCLES + 1], &[Ok(0)]),
        (Ok(()), None, 1),
        "a chip that is ready late is ready"
    );
    assert_eq!(
        await_ready(&[0], &[Err(FlashError::Timeout)]),
        (Err(FlashError::Timeout), None, 1)
    );
}

fn lift(
    unlocking: &mut Unlocking,
    waited: Result<(), FlashError>,
    status: Result<u32, FlashError>,
    lifted: Result<(), FlashError>,
) -> (Vec<Vec<FlashOp>>, Result<(), FlashError>) {
    let mut runs: Vec<Vec<FlashOp>> = Vec::new();
    let mut ask = unlocking.next(UnlockAnswer::Start);
    loop {
        let answer = match ask {
            UnlockAsk::Lines(lines) => {
                runs.push(lines);
                UnlockAnswer::Ran(if runs.len() == 1 { waited } else { lifted })
            }
            UnlockAsk::Status => UnlockAnswer::Status(status),
            UnlockAsk::Return(result) => return (runs, result),
        };
        ask = unlocking.next(answer);
    }
}

#[test]
fn the_protection_is_lifted_once() {
    let late = Err(FlashError::Timeout);
    let awaiting = await_unlock();
    let mut u = Unlocking::new(false);
    assert_eq!(lift(&mut u, late, Ok(0), Ok(())), (vec![awaiting.clone()], late));
    assert_eq!(
        lift(&mut u, Ok(()), Err(FlashError::Timeout), Ok(())),
        (vec![awaiting.clone()], late)
    );
    assert_eq!(lift(&mut u, Ok(()), Ok(0x80), late), (vec![awaiting.clone(), unlock(0x80)], late));
    assert!(!u.unlocked, "a failure is tried again");
    assert_eq!(
        lift(&mut u, Ok(()), Ok(0x80), Ok(())),
        (vec![awaiting.clone(), unlock(0x80)], Ok(()))
    );
    assert!(u.unlocked);
    assert_eq!(lift(&mut u, late, Ok(0x80), late), (vec![], Ok(())));
    let mut open = Unlocking::new(false);
    assert_eq!(lift(&mut open, Ok(()), Ok(0x02), Ok(())), (vec![awaiting, unlock(0x02)], Ok(())));
    assert_eq!(unlock(0x02), vec![FlashOp::Mark { slot: 1, value: 0x102 }]);
    assert!(open.unlocked);
}

#[test]
fn a_script_is_followed_by_what_it_disturbed_however_it_ends() {
    let saved = Saved { ctrl: 1, user: 2, user1: 3, user2: 4, addr: 5, miso_dlen: 6, mosi_dlen: 7 };
    for result in [Ok(()), Err(FlashError::Timeout)] {
        let mut session = Session::new();
        assert!(matches!(session.next(SessionAnswer::Start(None)), SessionAsk::Keep));
        assert!(matches!(session.next(SessionAnswer::Kept(saved)), SessionAsk::Run));
        match session.next(SessionAnswer::Ran(result)) {
            SessionAsk::Perform(ops) => assert_eq!(ops, restore(&saved)),
            _ => unreachable!(),
        }
        match session.next(SessionAnswer::Performed) {
            SessionAsk::Return(r) => assert_eq!(r, result),
            _ => unreachable!(),
        }
    }
}

#[test]
fn a_snapshot_goes_before_what_is_kept() {
    let mut session = Session::new();
    assert!(matches!(session.next(SessionAnswer::Start(Some(8))), SessionAsk::Snapshot(8)));
    assert!(matches!(session.next(SessionAnswer::Snapped), SessionAsk::Keep));
}

#[test]
fn the_last_wait_is_traced_however_it_ends() {
    for result in [Ok(()), Err(FlashError::Timeout)] {
        let mut wait = LastWait::new();
        match wait.next(LastAnswer::Start) {
            LastAsk::Lines(lines) => {
                assert_eq!(lines, vec![FlashOp::AwaitIdle, FlashOp::AwaitReady]);
            }
            _ => unreachable!(),
        }
        assert!(matches!(wait.next(LastAnswer::Ran(result)), LastAsk::Trace));
        match wait.next(LastAnswer::Traced) {
            LastAsk::Return(r) => assert_eq!(r, result),
            _ => unreachable!(),
        }
    }
}
