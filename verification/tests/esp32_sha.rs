use flint_drivers::esp32::sha::{SHA_TEXT, ShaKind, digest_bytes, pad_tail, sha1, sha256};
use flint_drivers::esp32::CryptoOp;

fn message(ops: &[CryptoOp]) -> Vec<u8> {
    let mut bytes = Vec::new();
    for op in ops {
        if let CryptoOp::Write { addr, value } = op {
            if *addr < SHA_TEXT + 64 {
                bytes.extend_from_slice(&value.to_be_bytes());
            }
        }
    }
    bytes
}

#[test]
fn register_banks_match_esp_idf() {
    assert_eq!(ShaKind::Sha1.bank(), 0x3FF0_3080);
    assert_eq!(ShaKind::Sha256.bank(), 0x3FF0_3090);
    assert_eq!(SHA_TEXT, 0x3FF0_3000);
}

#[test]
fn digest_lengths_are_the_standard_ones() {
    assert_eq!(ShaKind::Sha1.digest_len(), 20);
    assert_eq!(ShaKind::Sha256.digest_len(), 32);
}

#[test]
fn an_empty_message_pads_to_one_block() {
    let mut out = [0xAAu8; 128];
    let blocks = pad_tail(&[], 0, &mut out);
    assert_eq!(blocks, 1);
    assert_eq!(out[0], 0x80);
    assert!(out[1..64].iter().all(|&b| b == 0));
}

#[test]
fn a_short_message_carries_its_bit_length_big_endian() {
    let mut out = [0u8; 128];
    let blocks = pad_tail(b"abc", 3, &mut out);
    assert_eq!(blocks, 1);
    assert_eq!(&out[..3], b"abc");
    assert_eq!(out[3], 0x80);
    assert_eq!(out[56..64], 24u64.to_be_bytes());
}

#[test]
fn a_55_byte_remainder_still_fits_one_block() {
    let rem = [0x11u8; 55];
    let mut out = [0u8; 128];
    assert_eq!(pad_tail(&rem, 55, &mut out), 1);
    assert_eq!(out[55], 0x80);
    assert_eq!(out[56..64], (55u64 * 8).to_be_bytes());
}

#[test]
fn a_56_byte_remainder_spills_to_two_blocks() {
    let rem = [0x22u8; 56];
    let mut out = [0u8; 128];
    assert_eq!(pad_tail(&rem, 56, &mut out), 2);
    assert_eq!(out[56], 0x80);
    assert_eq!(out[120..128], (56u64 * 8).to_be_bytes());
    assert!(out[57..120].iter().all(|&b| b == 0));
}

#[test]
fn a_63_byte_remainder_spills_to_two_blocks() {
    let rem = [0x33u8; 63];
    let mut out = [0u8; 128];
    assert_eq!(pad_tail(&rem, 63, &mut out), 2);
    assert_eq!(out[63], 0x80);
    assert_eq!(out[120..128], (63u64 * 8).to_be_bytes());
}

#[test]
fn a_message_is_fed_in_whole_blocks_and_started_once() {
    let data: Vec<u8> = (0..130u8).collect();
    let ops = sha256(&data);
    let fed = message(&ops);
    assert_eq!(fed.len(), 192);
    assert_eq!(fed[..130], data[..]);
    assert_eq!(fed[130], 0x80);
    assert_eq!(fed[184..], (130u64 * 8).to_be_bytes());
    let bank = ShaKind::Sha256.bank();
    let controls: Vec<u32> = ops
        .iter()
        .filter_map(|op| match op {
            CryptoOp::Write { addr, .. } if *addr >= bank => Some(addr - bank),
            _ => None,
        })
        .collect();
    assert_eq!(controls, vec![0, 4, 4, 8]);
}

#[test]
fn an_empty_message_is_one_block_that_starts() {
    let ops = sha1(&[]);
    assert_eq!(ops[0], CryptoOp::Clock(true));
    assert_eq!(ops[1], CryptoOp::AwaitIdle);
    assert_eq!(message(&ops).len(), 64);
    assert_eq!(ops[18], CryptoOp::Write { addr: ShaKind::Sha1.bank(), value: 1 });
    assert_eq!(ops[ops.len() - 2], CryptoOp::Fetch { addr: SHA_TEXT, words: 5 });
    assert_eq!(ops[ops.len() - 1], CryptoOp::Clock(false));
}

#[test]
fn a_digest_comes_out_high_bytes_first() {
    let mut out = [0u8; 8];
    digest_bytes(&[0x0102_0304, 0xA0B0_C0D0], &mut out);
    assert_eq!(out, [1, 2, 3, 4, 0xA0, 0xB0, 0xC0, 0xD0]);
}
