use flint_drivers::esp32::aes::{
    Aes, AesKey, IDLE_REG, KEY_BASE, MODE_REG, START_REG, TEXT_BASE, idle, output,
};
use flint_drivers::esp32::CryptoOp;

#[test]
fn register_map_matches_esp_idf() {
    assert_eq!(START_REG, 0x3FF0_1000);
    assert_eq!(IDLE_REG, 0x3FF0_1004);
    assert_eq!(MODE_REG, 0x3FF0_1008);
    assert_eq!(KEY_BASE, 0x3FF0_1010);
    assert_eq!(TEXT_BASE, 0x3FF0_1030);
}

#[test]
fn mode_encodes_length_and_direction() {
    let k128 = AesKey::Bits128([0; 16]);
    let k256 = AesKey::Bits256([0; 32]);
    assert_eq!(k128.mode(false), 0);
    assert_eq!(k256.mode(false), 2);
    assert_eq!(k128.mode(true), 4);
    assert_eq!(k256.mode(true), 6);
}

#[test]
fn a_block_goes_in_and_comes_out_low_bytes_first() {
    let mut key = [0u8; 32];
    key[..4].copy_from_slice(&[1, 2, 3, 4]);
    let aes = Aes::new(AesKey::Bits256(key));
    let mut block = [0u8; 16];
    block[12..].copy_from_slice(&[5, 6, 7, 8]);
    let ops = aes.decrypt_block(&block);
    assert_eq!(ops.len(), 2 + 8 + 4 + 4);
    assert_eq!(ops[1], CryptoOp::Write { addr: MODE_REG, value: 6 });
    assert_eq!(ops[2], CryptoOp::Write { addr: KEY_BASE, value: 0x0403_0201 });
    assert_eq!(ops[13], CryptoOp::Write { addr: TEXT_BASE + 12, value: 0x0807_0605 });
    assert_eq!(ops[14], CryptoOp::Write { addr: START_REG, value: 1 });
    assert_eq!(output(&[0, 0, 0, 0x0807_0605]), block);
    assert_eq!(Aes::new(AesKey::Bits128([0; 16])).encrypt_block(&block).len(), 2 + 4 + 4 + 4);
    assert!(idle(1));
    assert!(!idle(0));
}
