use flint_drivers::esp32::flash::{
    APP_CACHE_CTRL, APP_CACHE_CTRL1, CACHE_IDLE_SPINS, CacheIdle, CacheOp, ChipInfo, FlashError,
    FlashRegion, PRO_CACHE_CTRL, PRO_CACHE_CTRL1, PRO_CACHE_ENABLE, PRO_CACHE_MASK,
    PRO_CACHE_STATE_MASK, PRO_CACHE_STATE_SHIFT, PRO_DCACHE_DBUG0, SECTOR_SIZE, approach,
    cache_idle, disable, enable, retreat, Answer, Ask, Window,
};
use flint_drivers::esp32::RegOp;

const BASE: u32 = 0x9000;
const LEN: u32 = 0x6000;

fn region() -> FlashRegion {
    FlashRegion::new(BASE, LEN)
}

#[test]
fn the_app_core_cache_registers_are_where_dport_says() {
    assert_eq!(APP_CACHE_CTRL, 0x3FF0_0058);
    assert_eq!(APP_CACHE_CTRL1, 0x3FF0_005C);
    assert_eq!(APP_CACHE_CTRL - PRO_CACHE_CTRL, 0x18);
    assert_eq!(APP_CACHE_CTRL1 - APP_CACHE_CTRL, 0x4);
    assert_eq!(PRO_CACHE_CTRL1 - PRO_CACHE_CTRL, 0x4);
}

#[test]
fn rom_addresses_match_the_linker_scripts() {
    assert_eq!(PRO_CACHE_CTRL, 0x3FF0_0040);
    assert_eq!(PRO_CACHE_CTRL1, 0x3FF0_0044);
    assert_eq!(PRO_DCACHE_DBUG0, 0x3FF0_03F0);
    assert_eq!(PRO_CACHE_ENABLE, 1 << 3);
    assert_eq!(PRO_CACHE_STATE_SHIFT, 7);
    assert_eq!(PRO_CACHE_STATE_MASK, 0xFFF);
}

#[test]
fn an_offset_past_the_region_is_refused() {
    let r = region();
    assert_eq!(r.check(LEN, 4).unwrap_err(), FlashError::OutOfRange);
    assert_eq!(r.check(LEN - 4, 8).unwrap_err(), FlashError::OutOfRange);
    assert_eq!(r.check(LEN - 4, 4).unwrap(), BASE + LEN - 4);
}

#[test]
fn offsets_are_relative_to_the_region_not_the_chip() {
    let r = region();
    assert_eq!(r.check(0, 4).unwrap(), BASE);
    assert_eq!(r.check(0x1000, 4).unwrap(), BASE + 0x1000);
}

#[test]
fn misalignment_is_refused_rather_than_rounded() {
    let r = region();
    for off in [1u32, 2, 3] {
        assert_eq!(r.check(off, 4).unwrap_err(), FlashError::Misaligned);
    }
    for len in [1u32, 2, 3] {
        assert_eq!(r.check(0, len).unwrap_err(), FlashError::Misaligned);
    }
}

#[test]
fn an_offset_that_would_overflow_is_refused() {
    let r = region();
    assert_eq!(r.check(u32::MAX - 3, 8).unwrap_err(), FlashError::OutOfRange);
}

#[test]
fn the_sector_size_is_the_erase_granularity() {
    assert_eq!(SECTOR_SIZE, 4096);
    assert_eq!(LEN % SECTOR_SIZE, 0);
    assert_eq!(LEN / SECTOR_SIZE, 6);
}

#[test]
fn a_whole_region_is_erased_sector_by_sector() {
    let e = region().erase_all();
    assert_eq!(e.sectors, vec![0x9000, 0xA000, 0xB000, 0xC000, 0xD000, 0xE000]);
    assert_eq!(e.result, Ok(()));
    let e = FlashRegion::new(BASE, 0x1800).erase_all();
    assert_eq!(e.sectors, vec![0x9000]);
    assert_eq!(e.result, Err(FlashError::OutOfRange));
    assert!(FlashRegion::new(BASE, 0).is_empty());
    assert_eq!(region().len(), LEN);
}

#[test]
fn an_erase_takes_the_sector_that_holds_the_offset() {
    assert_eq!(region().erase_sector(0x1ABC), Ok(BASE + 0x1000));
    assert_eq!(region().erase_sector(LEN), Err(FlashError::OutOfRange));
}

#[test]
fn reads_and_writes_are_counted_in_words() {
    assert_eq!(region().read(LEN - 8, 2), Ok(BASE + LEN - 8));
    assert_eq!(region().read(LEN - 8, 3), Err(FlashError::OutOfRange));
    assert_eq!(region().write(2, 1), Err(FlashError::Misaligned));
}

#[test]
fn an_unpopulated_chip_description_is_recognised() {
    let info = ChipInfo::read([0xEF4016, 0x40_0000, 0x1_0000, 4096, 256, 0xFFFF]);
    assert!(info.looks_sane());
    assert!(!ChipInfo { page_size: 0, ..info }.looks_sane());
    assert!(!ChipInfo { sector_size: 512, ..info }.looks_sane());
    assert!(!ChipInfo { chip_size: 0xF_FFFF, ..info }.looks_sane());
}

#[test]
fn a_cache_that_never_rests_is_reported_with_its_state() {
    assert_eq!(cache_idle(1 << 7, 0), CacheIdle::Idle);
    assert_eq!(cache_idle(5 << 7, 0), CacheIdle::Again);
    assert_eq!(cache_idle(5 << 7, CACHE_IDLE_SPINS - 1), CacheIdle::Busy(0x8000_0005));
    assert_eq!(retreat(true), vec![CacheOp::RestoreInterrupts, CacheOp::RestoreLevel]);
    assert_eq!(retreat(false), vec![CacheOp::RestoreLevel]);
}

#[test]
fn the_other_core_stops_before_its_cache_and_goes_on_after_it() {
    assert_eq!(
        approach(true),
        vec![CacheOp::RaiseLevel, CacheOp::MaskInterrupts, CacheOp::SaveWindows]
    );
    let off = disable(true, true);
    assert_eq!(off[0], CacheOp::StallApp);
    assert_eq!(
        off[2],
        CacheOp::Reg(RegOp::Update { addr: APP_CACHE_CTRL, clear: PRO_CACHE_ENABLE, set: 0 })
    );
    assert_eq!(disable(true, false).len(), 2);
    let on = enable(true, 0x3F, Some(0xFF15));
    assert_eq!(
        on[4],
        CacheOp::Reg(RegOp::Update { addr: APP_CACHE_CTRL1, clear: PRO_CACHE_MASK, set: 0x15 })
    );
    assert_eq!(on[5], CacheOp::ReleaseApp);
    assert_eq!(on[on.len() - 1], CacheOp::RestoreLevel);
    assert_eq!(enable(true, 0x3F, None).len(), 5);
}

struct Opened {
    done: Vec<CacheOp>,
    before_body: Option<usize>,
    bodies: usize,
    looks: usize,
    result: Result<(), FlashError>,
    trace: Option<u32>,
}

fn open_window(
    hooked: bool,
    states: &[u32],
    running: bool,
    body: Result<(), FlashError>,
) -> Opened {
    let mut window = Window::new(hooked);
    let mut opened =
        Opened { done: vec![], before_body: None, bodies: 0, looks: 0, result: Ok(()), trace: None };
    let mut ask = window.with_cache_off(Answer::Start);
    loop {
        let answer = match ask {
            Ask::Perform(ops) => {
                let kept = if ops.contains(&CacheOp::SaveWindows) { 0x15 } else { 0x2A };
                opened.done.extend(ops);
                Answer::Performed(kept)
            }
            Ask::Look => {
                let state = states[opened.looks.min(states.len() - 1)];
                opened.looks += 1;
                Answer::State(state << PRO_CACHE_STATE_SHIFT)
            }
            Ask::OtherCore => Answer::Running(running),
            Ask::Body => {
                opened.before_body = Some(opened.done.len());
                opened.bodies += 1;
                Answer::Finished(body)
            }
            Ask::Return { result, trace } => {
                opened.result = result;
                opened.trace = trace;
                return opened;
            }
        };
        ask = window.with_cache_off(answer);
    }
}

#[test]
fn a_window_opens_once_the_cache_rests_and_ends_as_its_body_did() {
    for hooked in [true, false] {
        for (running, body) in [(true, Ok(())), (false, Err(FlashError::Timeout))] {
            let opened = open_window(hooked, &[3, 2, 1], running, body);
            let mut expected = approach(hooked);
            expected.extend(disable(hooked, running));
            assert_eq!(opened.before_body, Some(expected.len()));
            expected.extend(enable(hooked, 0x15, if running { Some(0x2A) } else { None }));
            assert_eq!(opened.done, expected);
            assert_eq!(opened.bodies, 1);
            assert_eq!(opened.looks, 3);
            assert_eq!(opened.result, body);
            assert_eq!(opened.trace, None);
        }
    }
}

#[test]
fn without_a_hook_the_level_stays_raised_until_the_cache_is_back() {
    for running in [true, false] {
        let opened = open_window(false, &[1], running, Ok(()));
        assert_eq!(opened.done[0], CacheOp::RaiseLevel);
        let last = opened.done.len() - 1;
        assert_eq!(opened.done[last], CacheOp::RestoreLevel);
        for op in &opened.done[1..last] {
            assert!(!matches!(
                op,
                CacheOp::RaiseLevel
                    | CacheOp::RestoreLevel
                    | CacheOp::MaskInterrupts
                    | CacheOp::RestoreInterrupts
            ));
        }
    }
    assert_eq!(
        open_window(false, &[1], false, Ok(())).done,
        vec![
            CacheOp::RaiseLevel,
            CacheOp::SaveWindows,
            CacheOp::Reg(RegOp::Update { addr: PRO_CACHE_CTRL, clear: PRO_CACHE_ENABLE, set: 0 }),
            CacheOp::Reg(RegOp::Update { addr: PRO_CACHE_CTRL, clear: 0, set: PRO_CACHE_ENABLE }),
            CacheOp::Reg(RegOp::Update { addr: PRO_CACHE_CTRL1, clear: PRO_CACHE_MASK, set: 0x15 }),
            CacheOp::RestoreLevel,
        ]
    );
}

#[test]
fn with_a_hook_the_level_is_back_while_the_body_runs() {
    let opened = open_window(true, &[1], true, Ok(()));
    let body = opened.before_body.unwrap();
    assert_eq!(opened.done[body - 1], CacheOp::RestoreLevel);
    assert_eq!(opened.done[body], CacheOp::RaiseLevel);
    assert_eq!(opened.done[1], CacheOp::MaskInterrupts);
    let last = opened.done.len() - 1;
    assert_eq!(opened.done[last - 1], CacheOp::RestoreInterrupts);
    assert_eq!(opened.done[last], CacheOp::RestoreLevel);
}

#[test]
fn a_window_is_given_up_after_the_last_look() {
    for hooked in [true, false] {
        let opened = open_window(hooked, &[7], true, Ok(()));
        let mut expected = approach(hooked);
        expected.extend(retreat(hooked));
        assert_eq!(opened.done, expected);
        assert_eq!(opened.bodies, 0);
        assert_eq!(opened.looks, CACHE_IDLE_SPINS as usize);
        assert_eq!(opened.result, Err(FlashError::CacheBusy));
        assert_eq!(opened.trace, Some(0x8000_0007));
    }
}
