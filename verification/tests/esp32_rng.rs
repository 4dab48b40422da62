use flint_drivers::esp32::rng::{RNG_DATA_REG, fill_from, word_count};

fn fill(buf: &mut [u8], mut next: impl FnMut() -> u32) {
    let words: Vec<u32> = (0..word_count(buf.len())).map(|_| next()).collect();
    fill_from(&words, buf);
}

fn counter() -> impl FnMut() -> u32 {
    let mut n = 0u32;
    move || {
        n += 1;
        n
    }
}

#[test]
fn an_exact_multiple_of_four_uses_one_word_per_chunk() {
    let mut buf = [0u8; 8];
    fill(&mut buf, counter());
    assert_eq!(buf[..4], 1u32.to_le_bytes());
    assert_eq!(buf[4..], 2u32.to_le_bytes());
}

#[test]
fn a_short_tail_is_filled_and_not_overrun() {
    let mut buf = [0u8; 5];
    fill(&mut buf, counter());
    assert_eq!(buf[..4], 1u32.to_le_bytes());
    assert_eq!(buf[4], 2u32.to_le_bytes()[0]);
}

#[test]
fn every_tail_length_is_handled() {
    for len in 0..=16usize {
        let mut buf = [0u8; 16];
        fill(&mut buf[..len], counter());
        assert!(buf[len..].iter().all(|&b| b == 0), "wrote past len={len}");
    }
}

#[test]
fn an_empty_buffer_consumes_no_entropy() {
    let mut calls = 0u32;
    let mut buf: [u8; 0] = [];
    fill(&mut buf, || {
        calls += 1;
        0
    });
    assert_eq!(calls, 0, "an empty fill must not read the generator");
}

#[test]
fn an_aligned_buffer_wastes_no_read() {
    let mut calls = 0u32;
    let mut buf = [0u8; 4];
    fill(&mut buf, || {
        calls += 1;
        0xAABB_CCDD
    });
    assert_eq!(calls, 1);
    assert_eq!(buf, [0xDD, 0xCC, 0xBB, 0xAA]);
}

#[test]
fn the_register_address_matches_esp_idf() {
    assert_eq!(RNG_DATA_REG, 0x3FF7_5144);
}
