//! Single blocks of AES on the accelerator, which keeps nothing from one block to the
//! next.

use vstd::prelude::*;

use super::CryptoOp;
use crate::math::{word_byte, word_of};

verus! {

pub const AES_BASE: u32 = 0x3FF0_1000;
pub const START_REG: u32 = AES_BASE;
pub const IDLE_REG: u32 = AES_BASE + 0x04;
pub const MODE_REG: u32 = AES_BASE + 0x08;
pub const KEY_BASE: u32 = AES_BASE + 0x10;
pub const TEXT_BASE: u32 = AES_BASE + 0x30;

/// What the idle register holds when a block is through.
pub const STATE_IDLE: u32 = 1;
pub const MODE_DECRYPT: u32 = 4;

/// A key.
#[derive(Clone, Copy, Debug)]
pub enum AesKey {
    Bits128([u8; 16]),
    Bits256([u8; 32]),
}

impl View for AesKey {
    type V = Seq<u8>;

    open spec fn view(&self) -> Seq<u8> {
        match *self {
            AesKey::Bits128(k) => k@,
            AesKey::Bits256(k) => k@,
        }
    }
}

/// The mode register for a key of `len` bytes.
pub open spec fn mode_of(len: int, decrypt: bool) -> u32 {
    ((if decrypt {
        MODE_DECRYPT
    } else {
        0
    }) + len / 8 - 2) as u32
}

impl AesKey {
    /// The bytes of the key.
    pub fn bytes(&self) -> (b: &[u8])
        ensures
            b@ == self@,
            b@.len() == 16 || b@.len() == 32,
    {
        match self {
            AesKey::Bits128(k) => k,
            AesKey::Bits256(k) => k,
        }
    }

    /// The mode register for this key and direction.
    pub fn mode(&self, decrypt: bool) -> (m: u32)
        ensures
            m == mode_of(self@.len() as int, decrypt),
    {
        let key_words: usize = self.bytes().len() / 8;
        let base: u32 = if decrypt {
            MODE_DECRYPT
        } else {
            0
        };
        base + (key_words as u32 - 2)
    }
}

/// The four modes are told apart.
pub proof fn law_modes_are_distinct(len: int, decrypt: bool, other_len: int, other: bool)
    requires
        len == 16 || len == 32,
        other_len == 16 || other_len == 32,
        mode_of(len, decrypt) == mode_of(other_len, other),
    ensures
        len == other_len,
        decrypt == other,
{
}

/// The steps that write some bytes to a register file, low bytes first.
pub open spec fn loading(base: u32, bytes: Seq<u8>) -> Seq<CryptoOp> {
    Seq::new(
        (bytes.len() as int / 4) as nat,
        |i: int|
            CryptoOp::Write {
                addr: (base + 4 * i) as u32,
                value: crate::math::le_word(bytes.subrange(4 * i, 4 * i + 4)),
            },
    )
}

/// The steps of one block.
pub open spec fn transforming(key: Seq<u8>, block: Seq<u8>, decrypt: bool) -> Seq<CryptoOp> {
    seq![
        CryptoOp::Clock(true),
        CryptoOp::Write { addr: MODE_REG, value: mode_of(key.len() as int, decrypt) },
    ] + loading(KEY_BASE, key) + loading(TEXT_BASE, block) + seq![
        CryptoOp::Write { addr: START_REG, value: 1 },
        CryptoOp::AwaitIdle,
        CryptoOp::Fetch { addr: TEXT_BASE, words: 4 },
        CryptoOp::Clock(false),
    ]
}

/// Appends the steps that write some bytes to a register file.
fn load(ops: &mut Vec<CryptoOp>, base: u32, bytes: &[u8])
    requires
        bytes@.len() <= 32,
        base <= 0x4000_0000,
    ensures
        final(ops)@ == old(ops)@ + loading(base, bytes@),
{
    let n: usize = bytes.len() / 4;
    let ghost start = ops@;
    let ghost want = loading(base, bytes@);
    for i in 0..n
        invariant
            n == bytes@.len() / 4,
            bytes@.len() <= 32,
            base <= 0x4000_0000,
            want == loading(base, bytes@),
            ops@ =~= start + want.take(i as int),
    {
        let value: u32 = word_of(bytes, 4 * i, 4 * i + 4);
        ops.push(CryptoOp::Write { addr: base + (i as u32) * 4, value });
    }
    assert(want.take(n as int) =~= want);
}

/// The accelerator with a key.
#[derive(Clone, Copy, Debug)]
pub struct Aes {
    pub key: AesKey,
}

impl Aes {
    /// The accelerator with a key.
    pub fn new(key: AesKey) -> (a: Self)
        ensures
            a.key == key,
    {
        Aes { key }
    }

    /// The steps that encrypt a block; [`output`] makes bytes of what they fetch.
    pub fn encrypt_block(&self, block: &[u8; 16]) -> (ops: Vec<CryptoOp>)
        ensures
            ops@ == transforming(self.key@, block@, false),
    {
        self.transform(block, false)
    }

    /// The steps that decrypt a block; [`output`] makes bytes of what they fetch.
    pub fn decrypt_block(&self, block: &[u8; 16]) -> (ops: Vec<CryptoOp>)
        ensures
            ops@ == transforming(self.key@, block@, true),
    {
        self.transform(block, true)
    }

    fn transform(&self, block: &[u8; 16], decrypt: bool) -> (ops: Vec<CryptoOp>)
        ensures
            ops@ == transforming(self.key@, block@, decrypt),
    {
        let mut ops: Vec<CryptoOp> = vec![
            CryptoOp::Clock(true),
            CryptoOp::Write { addr: MODE_REG, value: self.key.mode(decrypt) },
        ];
        load(&mut ops, KEY_BASE, self.key.bytes());
        load(&mut ops, TEXT_BASE, block);
        ops.push(CryptoOp::Write { addr: START_REG, value: 1 });
        ops.push(CryptoOp::AwaitIdle);
        ops.push(CryptoOp::Fetch { addr: TEXT_BASE, words: 4 });
        ops.push(CryptoOp::Clock(false));
        assert(ops@ =~= transforming(self.key@, block@, decrypt));
        ops
    }
}

/// The block in four words, low bytes first.
pub open spec fn block_of(words: Seq<u32>) -> Seq<u8> {
    Seq::new(16, |i: int| crate::math::le_byte(words[i / 4], i % 4))
}

/// The block in the words that were fetched, low bytes first.
pub fn output(words: &[u32; 4]) -> (block: [u8; 16])
    ensures
        block@ == block_of(words@),
{
    let mut block: [u8; 16] = [0u8; 16];
    for i in 0..16usize
        invariant
            words@.len() == 4,
            block@.len() == 16,
            forall|k: int|
                0 <= k < i ==> #[trigger] block@[k] == crate::math::le_byte(
                    words@[k / 4],
                    k % 4,
                ),
    {
        block[i] = word_byte(words[i / 4], i % 4);
    }
    assert(block@ =~= block_of(words@));
    block
}

/// Whether a block is through, by the idle register.
pub fn idle(word: u32) -> (yes: bool)
    ensures
        yes == (word == STATE_IDLE),
{
    word == STATE_IDLE
}

/// A block that went in as words would come out of those words unchanged.
pub proof fn law_words_keep_the_block(block: Seq<u8>, i: int)
    requires
        block.len() == 16,
        0 <= i < 16,
    ensures
        crate::math::le_byte(
            crate::math::le_word(block.subrange(4 * (i / 4), 4 * (i / 4) + 4)),
            i % 4,
        ) == block[i],
{
    crate::math::lemma_word_holds_its_bytes(
        block.subrange(4 * (i / 4), 4 * (i / 4) + 4),
        i % 4,
    );
}

/// The number that four bytes stand for, the first being worth the least.
pub open spec fn worth(bytes: Seq<u8>, at: int) -> int {
    bytes[at] + 256 * bytes[at + 1] + 65536 * bytes[at + 2] + 16777216 * bytes[at + 3]
}

/// The mode says the length of the key in two bits and the direction in a third.
pub proof fn law_the_mode_says_length_and_direction()
    ensures
        mode_of(16, false) == 0,
        mode_of(32, false) == 2,
        mode_of(16, true) == 4,
        mode_of(32, true) == 6,
{
}

/// A block is through the accelerator while that is clocked: the mode, the whole key and the
/// whole block are in before it is started, the result is fetched from where the block was and
/// only once it is idle, and its clock is stopped in the end.
pub proof fn law_a_block_goes_through_the_accelerator(
    key: Seq<u8>,
    block: Seq<u8>,
    decrypt: bool,
    i: int,
    j: int,
)
    requires
        key.len() == 16 || key.len() == 32,
        block.len() == 16,
        0 <= i < key.len() as int / 4,
        0 <= j < 4,
    ensures
        ({
            let ops = transforming(key, block, decrypt);
            let n = key.len() as int / 4;
            &&& ops.len() == n + 10
            &&& ops[0] == CryptoOp::Clock(true)
            &&& ops[1] == (CryptoOp::Write {
                addr: 0x3FF0_1008,
                value: mode_of(key.len() as int, decrypt),
            })
            &&& ops[2 + i] == (CryptoOp::Write {
                addr: (0x3FF0_1010 + 4 * i) as u32,
                value: worth(key, 4 * i) as u32,
            })
            &&& ops[2 + n + j] == (CryptoOp::Write {
                addr: (0x3FF0_1030 + 4 * j) as u32,
                value: worth(block, 4 * j) as u32,
            })
            &&& ops[6 + n] == (CryptoOp::Write { addr: 0x3FF0_1000, value: 1 })
            &&& ops[7 + n] == CryptoOp::AwaitIdle
            &&& ops[8 + n] == (CryptoOp::Fetch { addr: 0x3FF0_1030, words: 4 })
            &&& ops[9 + n] == CryptoOp::Clock(false)
        }),
{
    let k = key.subrange(4 * i, 4 * i + 4);
    let b = block.subrange(4 * j, 4 * j + 4);
    assert(crate::math::le_word(k) == worth(key, 4 * i) as u32);
    assert(crate::math::le_word(b) == worth(block, 4 * j) as u32);
    let ops = transforming(key, block, decrypt);
    let n = key.len() as int / 4;
    assert(ops[2 + i] == loading(KEY_BASE, key)[i]);
    assert(ops[2 + n + j] == loading(TEXT_BASE, block)[j]);
}

/// The bytes that come out are those of the words, the lowest one first.
pub proof fn law_a_result_is_its_words(words: Seq<u32>, j: int)
    requires
        words.len() == 4,
        0 <= j < 4,
    ensures
        block_of(words).len() == 16,
        worth(block_of(words), 4 * j) == words[j],
{
    let b = block_of(words);
    let w = words[j];
    assert((4 * j) / 4 == j && (4 * j + 1) / 4 == j && (4 * j + 2) / 4 == j && (4 * j + 3) / 4
        == j);
    assert(b[4 * j] == w % 256);
    assert(b[4 * j + 1] == w / 256 % 256);
    assert(b[4 * j + 2] == w / 65536 % 256);
    assert(b[4 * j + 3] == w / 16777216);
}

} // verus!
