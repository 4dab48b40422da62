use flint_drivers::esp32::scratch::{claim, Esp32Scratch, ScratchError, ScratchPort, SCRATCH_BASE};
use flint_drivers::esp32::RegOp;

#[test]
fn the_first_claim_wins_and_the_second_is_refused() {
    let mut flag = false;
    assert_eq!(claim(&mut flag), Ok(()), "first claim should take ownership");
    assert_eq!(
        claim(&mut flag),
        Err(ScratchError::InUse),
        "second claim must be refused"
    );
}

#[test]
fn in_use_maps_to_a_named_hal_error() {
    assert_eq!(ScratchError::InUse.message(), "esp32 scratch already open");
}

#[test]
fn a_closed_block_can_be_opened_again() {
    let mut flag = false;
    let (s, op) = Esp32Scratch::open(&mut flag, &ScratchPort { seed: 7 }).unwrap();
    assert_eq!(op, RegOp::Write { addr: SCRATCH_BASE, value: 7 });
    assert_eq!(
        Esp32Scratch::open(&mut flag, &ScratchPort { seed: 8 }).unwrap_err(),
        ScratchError::InUse
    );
    assert_eq!(s.store(9), RegOp::Write { addr: SCRATCH_BASE, value: 9 });
    assert_eq!(s.load(), SCRATCH_BASE);
    Esp32Scratch::close(&mut flag);
    assert!(Esp32Scratch::open(&mut flag, &ScratchPort { seed: 8 }).is_ok());
    assert_eq!(Esp32Scratch::new(4).base, 4);
}
