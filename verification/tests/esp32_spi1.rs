use flint_drivers::esp32::spi1::{
    ADDR, ADDRESS_MASK_24BIT, ADDR_BITLEN_SHIFT, BUFFER_WORDS, BUSY_CYCLES, CMD, CMD_ANY,
    CMD_FLASH_PP, CMD_FLASH_RDSR, CMD_FLASH_READ, CMD_FLASH_SE, CMD_FLASH_WRDI, CMD_FLASH_WREN,
    CMD_FLASH_WRSR, CMD_USR, COMMAND_BITLEN_8, CTRL, CTRL_WRSR_2B, EXTRA_DUMMY, FlashOp, MISO_DLEN,
    OPCODE_MODE_RESET, OPCODE_RDSR, OPCODE_READ, PAGE_SIZE, Phases, RD_STATUS, SPI0_BASE, SPI0_EXT2,
    SPI1_BASE, SPI1_EXT2, SPI_ST_MASK, STATUS2_QE, STATUS_BP_MASK, STATUS_SRP0, Saved, USER, USER1,
    USER2, USR_ADDR, USR_DUMMY, W0, XFER_SPINS, Diagnostics, ERASE_UNREAD, UNLOCK_UNREAD,
    await_unlock, command_done, elapsed, erase_sector,
    exit_continuous_read, fsm_idle, read, ready, restore, snapshot_registers, status_request,
    status_restore,
    status_value, unlock,
};
use flint_drivers::esp32::flash::FlashError;
use flint_drivers::esp32::{Poll, RegOp};

fn written(ops: &[FlashOp], reg: u32) -> Vec<u32> {
    ops.iter()
        .filter_map(|op| match op {
            FlashOp::Reg(RegOp::Write { addr, value }) if *addr == reg => Some(*value),
            _ => None,
        })
        .collect()
}

#[test]
fn register_offsets_match_spi_reg_h() {
    assert_eq!(SPI1_BASE, 0x3FF4_2000);
    assert_eq!(CMD, SPI1_BASE);
    assert_eq!(ADDR, SPI1_BASE + 0x04);
    assert_eq!(CTRL, SPI1_BASE + 0x08);
    assert_eq!(USER, SPI1_BASE + 0x1C);
    assert_eq!(RD_STATUS, SPI1_BASE + 0x10);
    assert_eq!(W0, SPI1_BASE + 0x80);
}

#[test]
fn a_native_command_takes_the_address_unshifted() {
    assert_eq!(0x9000u32 & ADDRESS_MASK_24BIT, 0x9000);
    assert_eq!(ADDRESS_MASK_24BIT, 0x00FF_FFFF);
}

#[test]
fn a_twenty_four_bit_address_phase_encodes_as_twenty_three() {
    assert_eq!((24 - 1) << ADDR_BITLEN_SHIFT, 23 << 26);
    assert_eq!(USR_ADDR, 1 << 30);
}

#[test]
fn a_program_has_no_dummy_phase() {
    assert_eq!(USR_DUMMY, 1 << 29);
    assert_eq!(USR_DUMMY & USR_ADDR, 0);
}

#[test]
fn a_page_program_carries_its_length_in_the_top_byte() {
    let packed = (0x9000u32 & ADDRESS_MASK_24BIT) | (64u32 << 24);
    assert_eq!(packed & ADDRESS_MASK_24BIT, 0x9000);
    assert_eq!(packed >> 24, 64);
}

#[test]
fn the_flash_command_bits_are_distinct_and_all_covered() {
    assert_eq!(CMD_FLASH_READ, 1 << 31);
    assert_eq!(CMD_FLASH_WREN, 1 << 30);
    assert_eq!(CMD_FLASH_RDSR, 1 << 27);
    assert_eq!(CMD_FLASH_PP, 1 << 25);
    assert_eq!(CMD_FLASH_SE, 1 << 24);
    assert_eq!(CMD_FLASH_WRDI, 1 << 29);
    assert_eq!(CMD_FLASH_WRSR, 1 << 26);
    for b in [
        CMD_FLASH_READ,
        CMD_FLASH_WREN,
        CMD_FLASH_RDSR,
        CMD_FLASH_PP,
        CMD_FLASH_SE,
        CMD_FLASH_WRDI,
        CMD_FLASH_WRSR,
        CMD_USR,
    ] {
        assert_ne!(CMD_ANY & b, 0);
    }
    assert_eq!(CMD_ANY.count_ones(), 8);
}

#[test]
fn a_user_transaction_carries_one_dummy_cycle() {
    assert_eq!(EXTRA_DUMMY, 1);
    assert_eq!(EXTRA_DUMMY - 1, 0);
    assert_ne!(USR_DUMMY, 0);
}

#[test]
fn the_two_conventions_disagree_about_the_address() {
    let addr = 0x9000u32;
    assert_eq!((addr & ADDRESS_MASK_24BIT) << 8, 0x0090_0000);
    assert_eq!(addr & ADDRESS_MASK_24BIT, 0x0000_9000);
    let with_len = (addr & ADDRESS_MASK_24BIT) | (64u32 << 24);
    assert_eq!(with_len >> 24, 64);
    assert_eq!(with_len & ADDRESS_MASK_24BIT, addr);
}

#[test]
fn the_user_opcodes_are_the_single_line_ones() {
    assert_eq!(OPCODE_READ, 0x03);
    assert_eq!(OPCODE_RDSR, 0x05);
    assert_eq!(OPCODE_MODE_RESET, 0xFF);
    assert_eq!(COMMAND_BITLEN_8 >> 28, 7);
}

#[test]
fn a_program_stops_at_the_page_boundary() {
    for (at, want) in [(0u32, 64u32), (0xF0, 4), (0x100, 64), (0x1FC, 1)] {
        let to_page_end = (PAGE_SIZE - (at % PAGE_SIZE)) / 4;
        assert_eq!(to_page_end, want, "at {at:#x}");
    }
}

#[test]
fn both_controllers_state_machines_are_waited_on() {
    assert_eq!(SPI1_EXT2, 0x3FF4_20F8);
    assert_eq!(SPI0_EXT2, 0x3FF4_30F8);
    assert_ne!(SPI0_BASE, SPI1_BASE, "these are two peripherals");
    assert_eq!(SPI_ST_MASK, 0x7);
}

#[test]
fn the_protection_bits_are_the_ones_that_refuse_an_erase() {
    assert_eq!(STATUS_SRP0, 1 << 7);
    assert_eq!(STATUS_BP_MASK, 0x7C);
    assert_eq!(STATUS_SRP0 & STATUS_BP_MASK, 0, "overlapping fields");
    assert_eq!((STATUS_SRP0 | STATUS_BP_MASK) & 0x03, 0);
}

#[test]
fn the_status_write_is_two_bytes_and_keeps_qe() {
    assert_eq!(CTRL_WRSR_2B, 1 << 22);
    assert_eq!(STATUS2_QE, 1 << 9, "QE is bit 1 of the second byte");
    assert_eq!(STATUS2_QE & 0xFF, 0, "QE must not land in the first byte");
}

#[test]
fn the_busy_wait_is_bounded_in_time_not_iterations() {
    assert_eq!(BUSY_CYCLES, 160_000_000, "two seconds at 80 MHz");
    assert!(BUSY_CYCLES > 80_000_000 / 2, "shorter than a sector erase");
    assert!(BUSY_CYCLES < u32::MAX / 2, "risks a rollover ambiguity");
    assert!(XFER_SPINS > 0);
}

#[test]
fn a_read_fetches_every_word_in_buffers() {
    let ops = read(0x9000, 20);
    let fetched: Vec<(usize, usize)> = ops
        .iter()
        .filter_map(|op| match op {
            FlashOp::Fetch { at, n } => Some((*at, *n)),
            _ => None,
        })
        .collect();
    assert_eq!(fetched, vec![(0, BUFFER_WORDS), (16, 4)]);
    assert_eq!(written(&ops, ADDR), vec![0x0090_0000, 0x0090_4000]);
    assert_eq!(written(&ops, MISO_DLEN), vec![511, 127]);
    assert_eq!(written(&ops, USER2), vec![COMMAND_BITLEN_8 | OPCODE_MODE_RESET, COMMAND_BITLEN_8 | OPCODE_READ]);
}

#[test]
fn a_program_is_split_at_the_page_and_the_buffer() {
    let data: Vec<u32> = (0..21).collect();
    let ops = flint_drivers::esp32::spi1::write(0x90F8, &data);
    assert_eq!(
        written(&ops, ADDR),
        vec![0x0800_90F8, 0x4000_9100, 0x0C00_9140]
    );
    assert_eq!(written(&ops, W0), vec![0, 2, 18]);
    let programs = written(&ops, CMD).iter().filter(|c| **c == CMD_FLASH_PP).count();
    assert_eq!(programs, 3);
    assert!(ops.contains(&FlashOp::Unlock));
}

#[test]
fn an_erase_goes_to_its_sector() {
    let ops = erase_sector(0x0123_4567, false);
    assert_eq!(written(&ops, ADDR), vec![0x0023_4000]);
    assert_eq!(written(&ops, CMD), vec![CMD_FLASH_WREN, CMD_FLASH_SE]);
}

#[test]
fn an_unprotected_chip_is_not_written_to() {
    assert_eq!(unlock(0x03), vec![FlashOp::Mark { slot: 1, value: 0x103 }]);
    let ops = unlock(0x80);
    assert_eq!(written(&ops, CMD), vec![CMD_FLASH_WREN, CMD_FLASH_WRSR, CMD_FLASH_WRDI]);
    assert_eq!(written(&ops, RD_STATUS), vec![STATUS2_QE]);
}

#[test]
fn waits_end_with_rest_or_time() {
    assert_eq!(fsm_idle(8, 0), Poll::Done);
    assert_eq!(fsm_idle(1, BUSY_CYCLES), Poll::Again);
    assert_eq!(fsm_idle(1, BUSY_CYCLES + 1), Poll::TimedOut);
    assert_eq!(command_done(0, 0), Poll::Done);
    assert_eq!(command_done(CMD_USR, XFER_SPINS), Poll::TimedOut);
    assert_eq!(ready(0x02, 0), Poll::Done);
    assert_eq!(ready(0x01, 0), Poll::Again);
    assert_eq!(ready(0x01, BUSY_CYCLES + 1), Poll::TimedOut);
    assert_eq!(elapsed(5, u32::MAX - 4), 10);
}

#[test]
fn a_status_read_puts_back_what_it_disturbs() {
    let ops = status_request(0x1234_56FF);
    assert!(ops.contains(&RegOp::Write { addr: USER1, value: 0x1234_5600 }));
    assert!(ops.contains(&RegOp::Write { addr: USER2, value: COMMAND_BITLEN_8 | OPCODE_RDSR }));
    assert_eq!(status_value(0xFFFF_FF02), 2);
    let back = status_restore(&Phases { user: 1, user1: 2, user2: 3, miso_dlen: 4, ctrl: 5 });
    assert_eq!(back[0], RegOp::Write { addr: USER, value: 1 });
    assert_eq!(back[4], RegOp::Write { addr: CTRL, value: 5 });
}

#[test]
fn a_script_gives_the_cache_its_registers_back() {
    let saved = Saved { ctrl: 1, user: 2, user1: 3, user2: 4, addr: 5, miso_dlen: 6, mosi_dlen: 7 };
    let ops = restore(&saved);
    assert_eq!(ops.len(), 8);
    assert_eq!(ops[4], RegOp::Write { addr: ADDR, value: 5 });
    assert_eq!(ops[7], RegOp::Drain { addr: USER });
    assert_eq!(exit_continuous_read().len(), 10);
}

fn marks(ops: &[FlashOp]) -> Vec<(usize, u32)> {
    ops.iter()
        .filter_map(|op| match op {
            FlashOp::Mark { slot, value } => Some((*slot, *value)),
            _ => None,
        })
        .collect()
}

#[test]
fn an_unlocking_leaves_its_progress_behind() {
    assert_eq!(
        await_unlock(),
        vec![
            FlashOp::Mark { slot: 0, value: 0x1000 },
            FlashOp::AwaitIdle,
            FlashOp::AwaitReady,
            FlashOp::Mark { slot: 0, value: 0x1001 },
        ]
    );
    let ops = unlock(0x80);
    assert_eq!(
        marks(&ops),
        vec![(1, 0x180), (0, 0x1002), (0, 0x1003), (0, 0x1004), (0, 0x1005), (0, 0x1006)]
    );
    let at = ops.iter().position(|op| matches!(op, FlashOp::Trace { .. })).unwrap();
    assert_eq!(ops[at], FlashOp::Trace { slot: 2, unread: UNLOCK_UNREAD });
    assert_eq!(ops[at - 1], FlashOp::Mark { slot: 0, value: 0x1005 });
    assert_eq!(ops[at - 2], FlashOp::AwaitReady);
    assert_eq!(written(&ops[at..], CMD), vec![CMD_FLASH_WRDI]);
}

#[test]
fn only_the_first_erase_is_traced() {
    let first = erase_sector(0x9000, true);
    let slots: Vec<usize> = first
        .iter()
        .filter_map(|op| match op {
            FlashOp::Trace { slot, unread } | FlashOp::AwaitTraced { slot, unread } => {
                assert_eq!(*unread, ERASE_UNREAD);
                Some(*slot)
            }
            _ => None,
        })
        .collect();
    assert_eq!(slots, vec![0, 1, 2, 3]);
    assert_eq!(first[3], FlashOp::Trace { slot: 0, unread: 0x200 });
    assert_eq!(first[first.len() - 1], FlashOp::AwaitTraced { slot: 3, unread: 0x200 });
    let mut plain: Vec<FlashOp> =
        first.into_iter().filter(|op| !matches!(op, FlashOp::Trace { .. })).collect();
    plain.pop();
    plain.extend([FlashOp::AwaitIdle, FlashOp::AwaitReady]);
    assert_eq!(erase_sector(0x9000, false), plain);
    let mut d = Diagnostics::new();
    assert!(d.begin_erase());
    assert!(!d.begin_erase());
    assert!(!d.begin_erase());
}

#[test]
fn a_trace_tells_a_status_of_zero_from_none() {
    let mut d = Diagnostics::new();
    assert_eq!(d.status_trace, [0; 4]);
    d.trace(0, Ok(0), ERASE_UNREAD);
    d.trace(1, Ok(0x82), ERASE_UNREAD);
    d.trace(2, Err(FlashError::Timeout), UNLOCK_UNREAD);
    assert_eq!(d.status_trace, [0x100, 0x182, 0x999, 0]);
    d.trace(3, Err(FlashError::Timeout), ERASE_UNREAD);
    d.mark(0, 0x1006);
    assert_eq!(d.status_trace, [0x1006, 0x182, 0x999, 0x200]);
    assert_eq!(d.reg_snapshot, [0; 16]);
}

#[test]
fn the_first_two_reads_are_kept() {
    assert_eq!(
        snapshot_registers(),
        [CMD, ADDR, CTRL, USER, USER1, MISO_DLEN, SPI1_BASE + 0x28, RD_STATUS]
    );
    let mut d = Diagnostics::new();
    for (n, expected) in [(1u32, Some(0)), (2, Some(8)), (3, None), (4, None)] {
        let place = d.begin_read();
        assert_eq!(place, expected);
        if let Some(place) = place {
            d.snapshot(place, [n; 8]);
        }
    }
    assert_eq!(d.reg_snapshot[..8], [1; 8]);
    assert_eq!(d.reg_snapshot[8..], [2; 8]);
    assert_eq!(d.status_trace, [0; 4]);
}
