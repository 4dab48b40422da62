use flint_drivers::esp32::rmt::{
    APB_CONF, APB_FIFO_MASK, APB_MEM_TX_WRAP_EN, CONF1_APB_MEM_RST, CONF1_IDLE_OUT_EN,
    CONF1_IDLE_OUT_LV, CONF1_MEM_OWNER, CONF1_MEM_RD_RST, CONF1_REF_ALWAYS_ON, CONF1_REF_CNT_RST,
    CONF1_TX_START, Chunk, ENTRIES_PER_BLOCK, Entry, HALF_BLOCK, INT_CLR, INT_ENA, INT_RAW,
    IRQ_SOURCE, MAX_DURATION, MEM_BASE, RMT_BASE, Refill, Rmt, ch_conf0, ch_conf1, ch_mem,
    ch_tx_lim, divider_for_ns, frame_ns, tx_end_bit, tx_thr_bit,
};
use flint_drivers::bus::BusError;
use flint_drivers::esp32::claims::Claims;
use flint_drivers::esp32::RegOp;

fn drain(total: usize) -> ([Chunk; 64], usize) {
    let mut out = [Chunk { dest: 0, src: 0, len: 0, terminator: false }; 64];
    let mut r = Refill::new(total);
    let mut n = 0;
    while let Some(c) = r.next_chunk() {
        out[n] = c;
        n += 1;
        assert!(n < 64, "refill did not terminate for total={total}");
    }
    assert!(r.finished());
    (out, n)
}

#[test]
fn a_stream_covers_its_source_exactly_once_and_in_order() {
    for total in [0, 1, 31, 32, 33, 63, 64, 65, 600] {
        let (chunks, n) = drain(total);
        let mut next_src = 0;
        for c in &chunks[..n] {
            assert_eq!(c.src, next_src, "total={total}: gap or overlap");
            next_src += c.len;
        }
        assert_eq!(next_src, total, "total={total}: source not fully sent");
    }
}

#[test]
fn halves_alternate_so_a_refill_never_lands_on_the_playing_half() {
    let (chunks, n) = drain(600);
    for (i, c) in chunks[..n].iter().enumerate() {
        let want = if i % 2 == 0 { 0 } else { HALF_BLOCK };
        assert_eq!(c.dest, want, "chunk {i} landed in the wrong half");
    }
}

#[test]
fn every_chunk_fits_inside_the_block() {
    for total in [0, 1, 31, 32, 33, 64, 65, 600] {
        let (chunks, n) = drain(total);
        for c in &chunks[..n] {
            let end = c.dest + c.len + usize::from(c.terminator);
            assert!(end <= ENTRIES_PER_BLOCK, "total={total}: chunk overruns the block");
        }
    }
}

#[test]
fn exactly_one_terminator_is_written_and_it_is_last() {
    for total in [0, 1, 32, 64, 600] {
        let (chunks, n) = drain(total);
        let count = chunks[..n].iter().filter(|c| c.terminator).count();
        assert_eq!(count, 1, "total={total}: needs exactly one terminator");
        assert!(chunks[n - 1].terminator, "total={total}: terminator must be last");
    }
}

#[test]
fn a_source_ending_on_the_boundary_gets_an_empty_final_chunk() {
    let (chunks, n) = drain(64);
    assert_eq!(n, 3);
    assert_eq!(chunks[0].len, HALF_BLOCK);
    assert_eq!(chunks[1].len, HALF_BLOCK);
    assert_eq!(chunks[2].len, 0);
    assert!(chunks[2].terminator);
    assert_eq!(chunks[2].dest, 0, "wraps back to the first half");
}

#[test]
fn a_frame_that_fits_one_half_needs_no_second_chunk() {
    let (chunks, n) = drain(10);
    assert_eq!(n, 1);
    assert_eq!(chunks[0], Chunk { dest: 0, src: 0, len: 10, terminator: true });
}

#[test]
fn a_five_by_five_panel_is_the_case_that_needed_streaming() {
    let panel: usize = 25 * 24;
    assert!(panel == 600);
    assert!(panel > ENTRIES_PER_BLOCK * 8, "a 5x5 panel would have fit without streaming");
    let (chunks, n) = drain(panel);
    assert_eq!(n, panel.div_ceil(HALF_BLOCK));
    assert_eq!(n, 19);
    assert_eq!(chunks[18].len, 24);
    assert!(chunks[18].terminator);
}

#[test]
fn the_streaming_registers_are_where_the_header_says() {
    assert_eq!(ch_tx_lim(0), RMT_BASE + 0xD0, "RMT_CH0_TX_LIM_REG");
    assert_eq!(ch_tx_lim(1), RMT_BASE + 0xD4);
    assert_eq!(INT_RAW, RMT_BASE + 0xA0);
    assert_eq!(INT_ENA, RMT_BASE + 0xA8);
    assert_eq!(INT_CLR, RMT_BASE + 0xAC);
    assert_eq!(APB_MEM_TX_WRAP_EN, 1 << 1);
}

#[test]
fn the_per_channel_interrupt_bits_do_not_alias() {
    assert_eq!(tx_end_bit(0), 1 << 0);
    assert_eq!(tx_end_bit(1), 1 << 3);
    assert_eq!(tx_thr_bit(0), 1 << 24);
    assert_eq!(tx_thr_bit(7), 1 << 31);
    for a in 0..8u8 {
        for b in 0..8u8 {
            if a != b {
                assert_eq!(tx_end_bit(a) & tx_end_bit(b), 0);
                assert_eq!(tx_thr_bit(a) & tx_thr_bit(b), 0);
            }
            assert_eq!(tx_end_bit(a) & tx_thr_bit(b), 0, "TX_END overlaps TX_THR");
        }
    }
}

#[test]
fn the_entry_blocks_are_where_the_linker_script_puts_rmtmem() {
    assert_eq!(MEM_BASE, 0x3FF5_6800);
    assert_eq!(ch_mem(0), MEM_BASE);
    assert_eq!(ch_mem(1), MEM_BASE + 256, "64 entries of 4 bytes each");
    assert_eq!(ch_mem(7), MEM_BASE + 7 * 256);
}

#[test]
fn the_blocks_tile_without_overlapping() {
    for ch in 0..7u8 {
        let end = ch_mem(ch) + ENTRIES_PER_BLOCK as u32 * 4;
        assert_eq!(end, ch_mem(ch + 1), "channel {ch} runs into the next");
    }
}

#[test]
fn the_memory_path_has_to_be_switched_on() {
    assert_eq!(APB_CONF, RMT_BASE + 0xF0);
    assert_eq!(APB_FIFO_MASK, 1);
}

#[test]
fn the_two_pointer_resets_are_not_the_same_bit() {
    assert_ne!(CONF1_MEM_RD_RST, CONF1_APB_MEM_RST);
    assert_eq!(CONF1_MEM_RD_RST, 1 << 3);
    assert_eq!(CONF1_APB_MEM_RST, 1 << 4);
}

#[test]
fn the_transmitter_keeps_the_entry_block() {
    assert_eq!(CONF1_MEM_OWNER, 1 << 5);
}

#[test]
fn conf_registers_are_interleaved_per_channel() {
    assert_eq!(ch_conf1(0) - ch_conf0(0), 4);
    assert_eq!(ch_conf0(1) - ch_conf0(0), 8);
    assert_eq!(ch_conf0(7), RMT_BASE + 0x20 + 56);
}

#[test]
fn conf1_fields_do_not_collide() {
    let all = [
        CONF1_TX_START,
        CONF1_MEM_RD_RST,
        CONF1_APB_MEM_RST,
        CONF1_MEM_OWNER,
        CONF1_REF_CNT_RST,
        CONF1_REF_ALWAYS_ON,
        CONF1_IDLE_OUT_LV,
        CONF1_IDLE_OUT_EN,
    ];
    for (i, a) in all.iter().enumerate() {
        for b in &all[i + 1..] {
            assert_eq!(a & b, 0, "two CONF1 fields share a bit");
        }
    }
}

#[test]
fn an_entry_packs_two_pulses_into_the_documented_layout() {
    let e = Entry::new(true, 0x1234, false, 0x0567);
    assert_eq!(e.0 & 0x7FFF, 0x1234);
    assert_eq!(e.0 & (1 << 15), 1 << 15, "first level");
    assert_eq!((e.0 >> 16) & 0x7FFF, 0x0567);
    assert_eq!(e.0 & (1 << 31), 0, "second level");
}

#[test]
fn an_over_long_duration_clamps_rather_than_wrapping() {
    let e = Entry::new(true, 0xFFFF, true, 0xFFFF);
    assert_eq!(e.0 & 0x7FFF, 0x7FFF);
    assert_eq!((e.0 >> 16) & 0x7FFF, 0x7FFF);
}

#[test]
fn the_end_marker_is_a_zero_duration() {
    assert_eq!(Entry::end().0, 0);
}

#[test]
fn the_divider_never_returns_zero_and_clamps_to_the_field() {
    let (d, _) = divider_for_ns(1);
    assert!(d >= 1);
    let (d, _) = divider_for_ns(1_000_000);
    assert_eq!(d, 255, "clamped to the 8-bit field");
}

#[test]
fn a_divider_of_ten_gives_125ns_ticks() {
    let (div, ns) = divider_for_ns(125);
    assert_eq!(div, 10);
    assert_eq!(ns, 125);
}

#[test]
fn a_duration_at_the_limit_is_kept() {
    let e = Entry::new(false, MAX_DURATION, true, 1);
    assert_eq!(e.0 & 0x7FFF, 0x7FFF);
    assert_eq!(e.0 & (1 << 15), 0);
    assert_eq!(e.0 >> 31, 1);
}

#[test]
fn a_channel_is_claimed_once() {
    let mut claims = Claims::new(8);
    assert!(Rmt::claim(&mut claims, 3).is_ok());
    assert_eq!(Rmt::claim(&mut claims, 3), Err(BusError::Busy));
    assert!(Rmt::claim(&mut claims, 4).is_ok());
}

#[test]
fn a_channel_that_there_is_not_is_refused() {
    assert!(Rmt::new(8, 10).is_none());
    assert!(Rmt::new(7, 10).is_some());
}

#[test]
fn a_frame_that_overruns_its_block_is_refused() {
    let (rmt, _) = Rmt::new(0, 10).unwrap();
    let fits = vec![Entry::new(true, 1, false, 1); ENTRIES_PER_BLOCK - 1];
    let too_long = vec![Entry::new(true, 1, false, 1); ENTRIES_PER_BLOCK];
    assert!(rmt.transmit(&fits).is_some());
    assert!(rmt.transmit(&too_long).is_none());
}

#[test]
fn a_transmission_writes_its_entries_and_the_end_marker() {
    let (rmt, _) = Rmt::new(2, 10).unwrap();
    let a = Entry::new(true, 5, false, 6);
    let b = Entry::new(false, 7, true, 8);
    let ops = rmt.transmit(&[a, b]).unwrap();
    let words: Vec<u32> = ops
        .iter()
        .filter_map(|op| match op {
            RegOp::Write { addr, value } if *addr >= ch_mem(2) && *addr < ch_mem(3) => Some(*value),
            _ => None,
        })
        .collect();
    assert_eq!(words, vec![a.0, b.0, 0]);
}

#[test]
fn a_frame_time_is_ticks_times_their_length() {
    assert_eq!(frame_ns(100, 125), 12_500);
    assert_eq!(IRQ_SOURCE, 47);
}

#[test]
fn a_stream_is_done_when_its_end_is_raised() {
    let (rmt, _) = Rmt::new(1, 10).unwrap();
    assert!(!rmt.stream_done(0));
    assert!(rmt.stream_done(tx_end_bit(1)));
    assert!(!rmt.stream_done(tx_end_bit(0)));
}

#[test]
fn every_tick_length_has_a_divider() {
    assert_eq!(divider_for_ns(0), (1, 12));
    assert_eq!(divider_for_ns(12), (1, 12));
    assert_eq!(divider_for_ns(25), (2, 25));
    assert_eq!(divider_for_ns(3188), (255, 3187));
    assert_eq!(divider_for_ns(4_294_968), (255, 3187));
    assert_eq!(divider_for_ns(u32::MAX), (255, 3187));
}
