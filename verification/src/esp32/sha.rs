//! SHA-1 and SHA-256 on the accelerator, which takes whole blocks of 64 bytes: the
//! padding is done here.

use vstd::prelude::*;

use super::CryptoOp;
use crate::math::{be_word_of, bytes_of, word_byte};

verus! {

pub const SHA_BASE: u32 = 0x3FF0_3000;
/// Sixteen words of message, and the digest's afterwards.
pub const SHA_TEXT: u32 = SHA_BASE;
pub const START_OFF: u32 = 0x00;
pub const CONTINUE_OFF: u32 = 0x04;
pub const LOAD_OFF: u32 = 0x08;
pub const BUSY_OFF: u32 = 0x0C;

pub const BLOCK_BYTES: usize = 64;

/// Which digest.
#[derive(Clone, Copy, Debug, PartialEq, Eq, Structural)]
pub enum ShaKind {
    Sha1,
    Sha256,
}

impl ShaKind {
    /// Bytes in the digest.
    pub open spec fn bytes(self) -> usize {
        match self {
            ShaKind::Sha1 => 20,
            ShaKind::Sha256 => 32,
        }
    }

    /// Bytes in the digest.
    pub fn digest_len(self) -> (n: usize)
        ensures
            n == self.bytes(),
    {
        match self {
            ShaKind::Sha1 => 20,
            ShaKind::Sha256 => 32,
        }
    }

    /// Where this digest's controls are.
    pub open spec fn controls(self) -> u32 {
        match self {
            ShaKind::Sha1 => (SHA_BASE + 0x80) as u32,
            ShaKind::Sha256 => (SHA_BASE + 0x90) as u32,
        }
    }

    /// Where this digest's controls are.
    pub fn bank(self) -> (addr: u32)
        ensures
            addr == self.controls(),
            addr < 0x4000_0000,
    {
        match self {
            ShaKind::Sha1 => SHA_BASE + 0x80,
            ShaKind::Sha256 => SHA_BASE + 0x90,
        }
    }
}

/// How many blocks the end of a message takes, `n` bytes beyond its last whole one.
pub open spec fn tail_blocks(n: int) -> int {
    if n >= 56 {
        2
    } else {
        1
    }
}

/// The end of a message of `total` bytes, as whole blocks: what is left of it, a
/// marker, zeros, and its length in bits.
pub open spec fn padded(rem: Seq<u8>, total: u64) -> Seq<u8> {
    let bits = ((total * 8) % 0x1_0000_0000_0000_0000) as u64;
    rem + seq![0x80u8] + Seq::new(
        (64 * tail_blocks(rem.len() as int) - 9 - rem.len()) as nat,
        |i: int| 0u8,
    ) + crate::math::be_bytes(bits)
}

proof fn lemma_padded(rem: Seq<u8>, total: u64)
    requires
        rem.len() < 64,
    ensures
        ({
            let n = rem.len() as int;
            let span = 64 * tail_blocks(n);
            let bits = ((total * 8) % 0x1_0000_0000_0000_0000) as u64;
            let p = padded(rem, total);
            &&& p.len() == span
            &&& forall|k: int| 0 <= k < n ==> #[trigger] p[k] == rem[k]
            &&& p[n] == 0x80
            &&& forall|k: int| n < k < span - 8 ==> #[trigger] p[k] == 0
            &&& p.skip(span - 8) == crate::math::be_bytes(bits)
        }),
{
    let span = 64 * tail_blocks(rem.len() as int);
    let bits = ((total * 8) % 0x1_0000_0000_0000_0000) as u64;
    crate::math::lemma_be_bytes_len(bits);
    assert(padded(rem, total).skip(span - 8) =~= crate::math::be_bytes(bits));
}

/// Writes the end of a message into `out`, and says how many blocks that takes.
pub fn pad_tail(rem: &[u8], total_len: u64, out: &mut [u8]) -> (blocks: usize)
    requires
        rem@.len() < BLOCK_BYTES,
        64 * tail_blocks(rem@.len() as int) <= old(out)@.len(),
    ensures
        blocks == tail_blocks(rem@.len() as int),
        final(out)@ == padded(rem@, total_len) + old(out)@.skip(64 * blocks),
{
    let n: usize = rem.len();
    let blocks: usize = if n >= BLOCK_BYTES - 8 {
        2
    } else {
        1
    };
    let span: usize = blocks * BLOCK_BYTES;
    let bytes: [u8; 8] = bytes_of(total_len.wrapping_mul(8));
    let ghost before = out@;
    let ghost want = padded(rem@, total_len);
    proof {
        lemma_padded(rem@, total_len);
    }
    for i in 0..span
        invariant
            n == rem@.len(),
            n < 64,
            span == 64 * tail_blocks(n as int),
            span <= out@.len(),
            out@.len() == before.len(),
            want.len() == span,
            forall|k: int| 0 <= k < n ==> #[trigger] want[k] == rem@[k],
            want[n as int] == 0x80,
            forall|k: int| n < k < span - 8 ==> #[trigger] want[k] == 0,
            want.skip(span - 8) == bytes@,
            bytes@ == crate::math::be_bytes(
                ((total_len * 8) % 0x1_0000_0000_0000_0000) as u64,
            ),
            forall|k: int| 0 <= k < i ==> #[trigger] out@[k] == want[k],
            forall|k: int| i <= k < out@.len() ==> #[trigger] out@[k] == before[k],
    {
        assert(i >= span - 8 ==> want[i as int] == want.skip(span - 8)[i - (span - 8)]);
        out[i] = if i < n {
            rem[i]
        } else if i == n {
            0x80
        } else if i >= span - 8 {
            bytes[i - (span - 8)]
        } else {
            0
        };
    }
    assert(out@ =~= want + before.skip(span as int));
    blocks
}

/// A message as the accelerator sees it: whole blocks.
pub open spec fn message(data: Seq<u8>) -> Seq<u8> {
    let whole = 64 * (data.len() as int / 64);
    data.take(whole) + padded(data.skip(whole), data.len() as u64)
}

/// A padded message begins with the data and the marker, ends with the length in
/// bits, holds zeros between, comes to whole blocks, and to none too many.
pub proof fn law_padding_is_the_standards(data: Seq<u8>)
    requires
        data.len() <= u64::MAX / 8,
    ensures
        message(data).len() % 64 == 0,
        data.len() + 9 <= message(data).len() < data.len() + 9 + 64,
        message(data).take(data.len() as int) == data,
        message(data)[data.len() as int] == 0x80,
        forall|i: int|
            data.len() < i < message(data).len() - 8 ==> #[trigger] message(data)[i] == 0,
        message(data).skip(message(data).len() - 8) == crate::math::be_bytes(
            (8 * data.len()) as u64,
        ),
{
    let whole = 64 * (data.len() as int / 64);
    let rem = data.skip(whole);
    let m = message(data);
    let p = padded(rem, data.len() as u64);
    lemma_padded(rem, data.len() as u64);
    crate::math::lemma_be_bytes_len((8 * data.len()) as u64);
    assert(m.len() == whole + p.len());
    assert(m.take(data.len() as int) =~= data);
    assert(m[data.len() as int] == p[data.len() - whole]);
    assert forall|i: int| data.len() < i < m.len() - 8 implies #[trigger] m[i] == 0 by {
        assert(m[i] == p[i - whole]);
    }
    assert(m.skip(m.len() - 8) =~= p.skip(p.len() - 8));
}

/// The steps that hash one block: the words high byte first, and a start for the
/// first of a message.
pub open spec fn feeding(kind: ShaKind, block: Seq<u8>, first: bool) -> Seq<CryptoOp> {
    seq![CryptoOp::AwaitIdle] + Seq::new(
        16,
        |i: int|
            CryptoOp::Write {
                addr: (SHA_TEXT + 4 * i) as u32,
                value: crate::math::be_word(block.subrange(4 * i, 4 * i + 4)),
            },
    ) + seq![
        CryptoOp::Write {
            addr: (kind.controls() + if first {
                START_OFF
            } else {
                CONTINUE_OFF
            }) as u32,
            value: 1,
        },
    ]
}

/// The steps that hash the first `n` blocks of a message.
pub open spec fn feeding_all(kind: ShaKind, msg: Seq<u8>, n: int) -> Seq<CryptoOp>
    decreases n,
{
    if n <= 0 {
        Seq::empty()
    } else {
        feeding_all(kind, msg, n - 1) + feeding(kind, msg.subrange(64 * n - 64, 64 * n), n == 1)
    }
}

/// The steps that hash some data. A digest is latched only when the last block is
/// through.
pub open spec fn digesting(kind: ShaKind, data: Seq<u8>) -> Seq<CryptoOp> {
    let msg = message(data);
    seq![CryptoOp::Clock(true)] + feeding_all(kind, msg, msg.len() as int / 64) + seq![
        CryptoOp::AwaitIdle,
        CryptoOp::Write { addr: (kind.controls() + LOAD_OFF) as u32, value: 1 },
        CryptoOp::AwaitIdle,
        CryptoOp::Fetch { addr: SHA_TEXT, words: (kind.bytes() / 4) as usize },
        CryptoOp::Clock(false),
    ]
}

/// Appends the steps that hash the block at `at`.
fn feed(ops: &mut Vec<CryptoOp>, kind: ShaKind, data: &[u8], at: usize, first: bool)
    requires
        at + 64 <= data@.len(),
    ensures
        final(ops)@ == old(ops)@ + feeding(kind, data@.subrange(at as int, at + 64), first),
{
    let ghost block = data@.subrange(at as int, at + 64);
    let ghost want = feeding(kind, block, first);
    let ghost start = ops@;
    let n: usize = data.len();
    ops.push(CryptoOp::AwaitIdle);
    for i in 0..16usize
        invariant
            n == data@.len(),
            at + 64 <= data@.len(),
            block == data@.subrange(at as int, at + 64),
            want == feeding(kind, block, first),
            ops@ =~= start + want.take(1 + i),
    {
        let value: u32 = be_word_of(data, at + 4 * i);
        assert(data@.subrange(at + 4 * i, at + 4 * i + 4) =~= block.subrange(
            4 * i as int,
            4 * i + 4,
        ));
        ops.push(CryptoOp::Write { addr: SHA_TEXT + (i as u32) * 4, value });
    }
    let off: u32 = if first {
        START_OFF
    } else {
        CONTINUE_OFF
    };
    ops.push(CryptoOp::Write { addr: kind.bank() + off, value: 1 });
    assert(ops@ =~= start + want);
}

/// The steps that hash some data; [`digest_bytes`] makes a digest of what they fetch.
pub fn digest(kind: ShaKind, data: &[u8]) -> (ops: Vec<CryptoOp>)
    ensures
        ops@ == digesting(kind, data@),
{
    let len: usize = data.len();
    let full: usize = len / BLOCK_BYTES;
    let ghost msg = message(data@);
    let ghost whole = 64 * (len as int / 64);
    let mut ops: Vec<CryptoOp> = vec![CryptoOp::Clock(true)];
    let ghost start = seq![CryptoOp::Clock(true)];
    assert(ops@ =~= start + feeding_all(kind, msg, 0));
    for i in 0..full
        invariant
            len == data@.len(),
            full == len / 64,
            whole == 64 * full,
            msg == data@.take(whole) + padded(data@.skip(whole), len as u64),
            ops@ == start + feeding_all(kind, msg, i as int),
    {
        let ghost before = ops@;
        feed(&mut ops, kind, data, i * BLOCK_BYTES, i == 0);
        proof {
            assert(data@.subrange(64 * i as int, 64 * i + 64) =~= msg.subrange(
                64 * (i + 1) - 64,
                64 * (i + 1),
            ));
            assert(ops@ =~= start + feeding_all(kind, msg, i + 1));
        }
    }
    let mut tail: [u8; 128] = [0u8; 128];
    let rem: &[u8] = &data[full * BLOCK_BYTES..len];
    assert(rem@ =~= data@.skip(whole));
    let blocks: usize = pad_tail(rem, len as u64, &mut tail);
    let ghost end = padded(data@.skip(whole), len as u64);
    proof {
        lemma_padded(data@.skip(whole), len as u64);
        assert(tail@.take(64 * blocks) =~= end);
    }
    for i in 0..blocks
        invariant
            len == data@.len(),
            full == len / 64,
            whole == 64 * full,
            blocks == tail_blocks(len - whole),
            msg == data@.take(whole) + end,
            end.len() == 64 * blocks,
            tail@.len() == 128,
            tail@.take(64 * blocks) == end,
            ops@ == start + feeding_all(kind, msg, full + i),
    {
        let ghost before = ops@;
        feed(&mut ops, kind, &tail, i * BLOCK_BYTES, full == 0 && i == 0);
        proof {
            let n = full + i + 1;
            assert(tail@.subrange(64 * i as int, 64 * i + 64) =~= end.subrange(
                64 * i as int,
                64 * i + 64,
            ));
            assert(end.subrange(64 * i as int, 64 * i + 64) =~= msg.subrange(
                64 * n - 64,
                64 * n,
            ));
            assert(ops@ =~= start + feeding_all(kind, msg, n));
        }
    }
    ops.push(CryptoOp::AwaitIdle);
    ops.push(CryptoOp::Write { addr: kind.bank() + LOAD_OFF, value: 1 });
    ops.push(CryptoOp::AwaitIdle);
    ops.push(CryptoOp::Fetch { addr: SHA_TEXT, words: kind.digest_len() / 4 });
    ops.push(CryptoOp::Clock(false));
    assert(msg.len() as int / 64 == full + blocks);
    assert(ops@ =~= digesting(kind, data@));
    ops
}

/// The steps of a SHA-1.
pub fn sha1(data: &[u8]) -> (ops: Vec<CryptoOp>)
    ensures
        ops@ == digesting(ShaKind::Sha1, data@),
{
    digest(ShaKind::Sha1, data)
}

/// The steps of a SHA-256.
pub fn sha256(data: &[u8]) -> (ops: Vec<CryptoOp>)
    ensures
        ops@ == digesting(ShaKind::Sha256, data@),
{
    digest(ShaKind::Sha256, data)
}

/// The digest in some words, high bytes first.
pub open spec fn digest_of(words: Seq<u32>) -> Seq<u8> {
    Seq::new(4 * words.len(), |i: int| crate::math::le_byte(words[i / 4], 3 - i % 4))
}

/// The digest in the words that were fetched, high bytes first.
pub fn digest_bytes(words: &[u32], out: &mut [u8])
    requires
        old(out)@.len() == 4 * words@.len(),
    ensures
        final(out)@ == digest_of(words@),
{
    let n: usize = out.len();
    for i in 0..n
        invariant
            n == out@.len(),
            n == 4 * words@.len(),
            forall|k: int|
                0 <= k < i ==> #[trigger] out@[k] == crate::math::le_byte(
                    words@[k / 4],
                    3 - k % 4,
                ),
    {
        out[i] = word_byte(words[i / 4], 3 - i % 4);
    }
    assert(out@ =~= digest_of(words@));
}

/// The accelerator: the message words that were written, the bytes that were hashed since a
/// start, and what was fetched of a digest that was latched. It takes nothing unclocked or busy.
pub struct Engine {
    pub clocked: bool,
    pub busy: bool,
    pub text: Map<int, u32>,
    pub hashed: Seq<u8>,
    pub latched: Option<Seq<u8>>,
    pub fetched: Option<(Seq<u8>, int)>,
}

/// The bytes of the sixteen message words, each high byte first.
pub open spec fn text_bytes(text: Map<int, u32>) -> Seq<u8> {
    Seq::new(
        64,
        |i: int|
            (if i % 4 == 0 {
                text[i / 4] as int / 0x100_0000
            } else if i % 4 == 1 {
                text[i / 4] as int / 0x1_0000 % 0x100
            } else if i % 4 == 2 {
                text[i / 4] as int / 0x100 % 0x100
            } else {
                text[i / 4] as int % 0x100
            }) as u8,
    )
}

/// The accelerator of a kind after one step.
pub open spec fn engine_after(kind: ShaKind, e: Engine, op: CryptoOp) -> Engine {
    let controls = match kind {
        ShaKind::Sha1 => 0x3FF0_3080int,
        ShaKind::Sha256 => 0x3FF0_3090,
    };
    match op {
        CryptoOp::Clock(on) => Engine { clocked: on, ..e },
        CryptoOp::AwaitIdle => Engine { busy: false, ..e },
        CryptoOp::Write { addr, value } => if !e.clocked || e.busy {
            e
        } else if 0x3FF0_3000 <= addr < 0x3FF0_3040 {
            Engine { text: e.text.insert((addr - 0x3FF0_3000) / 4, value), ..e }
        } else if addr == controls {
            Engine { hashed: text_bytes(e.text), busy: true, ..e }
        } else if addr == controls + 4 {
            Engine { hashed: e.hashed + text_bytes(e.text), busy: true, ..e }
        } else if addr == controls + 8 {
            Engine { latched: Some(e.hashed), busy: true, ..e }
        } else {
            e
        },
        CryptoOp::Fetch { addr, words } => if e.clocked && !e.busy && addr == 0x3FF0_3000
            && e.latched is Some {
            Engine { fetched: Some((e.latched->0, words as int)), ..e }
        } else {
            e
        },
    }
}

/// The accelerator after a list of steps.
pub open spec fn engine_after_all(kind: ShaKind, e: Engine, ops: Seq<CryptoOp>) -> Engine
    decreases ops.len(),
{
    if ops.len() == 0 {
        e
    } else {
        engine_after(kind, engine_after_all(kind, e, ops.drop_last()), ops.last())
    }
}

proof fn lemma_engine_take(kind: ShaKind, e: Engine, ops: Seq<CryptoOp>, k: int)
    requires
        0 < k <= ops.len(),
    ensures
        engine_after_all(kind, e, ops.take(k)) == engine_after(
            kind,
            engine_after_all(kind, e, ops.take(k - 1)),
            ops[k - 1],
        ),
{
    assert(ops.take(k).drop_last() =~= ops.take(k - 1));
}

proof fn lemma_engine_join(kind: ShaKind, e: Engine, a: Seq<CryptoOp>, b: Seq<CryptoOp>)
    ensures
        engine_after_all(kind, e, a + b) == engine_after_all(
            kind,
            engine_after_all(kind, e, a),
            b,
        ),
    decreases b.len(),
{
    if b.len() == 0 {
        assert(a + b =~= a);
    } else {
        assert((a + b).drop_last() =~= a + b.drop_last());
        lemma_engine_join(kind, e, a, b.drop_last());
    }
}

proof fn lemma_text(kind: ShaKind, e: Engine, block: Seq<u8>, first: bool, k: int)
    requires
        e.clocked,
        block.len() == 64,
        0 <= k <= 16,
    ensures
        ({
            let some = engine_after_all(kind, e, feeding(kind, block, first).take(1 + k));
            &&& some == (Engine { busy: false, text: some.text, ..e })
            &&& forall|i: int|
                0 <= i < k ==> #[trigger] some.text[i] == crate::math::be_word(
                    block.subrange(4 * i, 4 * i + 4),
                )
        }),
    decreases k,
{
    let ops = feeding(kind, block, first);
    lemma_engine_take(kind, e, ops, 1 + k);
    if k == 0 {
        assert(engine_after_all(kind, e, ops.take(0)) == e);
    } else {
        lemma_text(kind, e, block, first, k - 1);
        let addr = (SHA_TEXT + 4 * (k - 1)) as u32;
        assert(addr == 0x3FF0_3000 + 4 * (k - 1));
        assert((addr - 0x3FF0_3000) / 4 == k - 1);
    }
}

/// A block that is fed is hashed as it is: first of a message or after what went before.
proof fn lemma_fed(kind: ShaKind, e: Engine, block: Seq<u8>, first: bool)
    requires
        e.clocked,
        block.len() == 64,
    ensures
        ({
            let end = engine_after_all(kind, e, feeding(kind, block, first));
            &&& end.clocked
            &&& end.fetched == e.fetched
            &&& end.hashed == if first {
                block
            } else {
                e.hashed + block
            }
        }),
{
    let ops = feeding(kind, block, first);
    lemma_text(kind, e, block, first, 16);
    lemma_engine_take(kind, e, ops, 18);
    assert(ops.take(18) =~= ops);
    let some = engine_after_all(kind, e, ops.take(17));
    lemma_text_bytes(some.text, block);
}

proof fn lemma_text_bytes(text: Map<int, u32>, block: Seq<u8>)
    requires
        block.len() == 64,
        forall|i: int|
            0 <= i < 16 ==> #[trigger] text[i] == crate::math::be_word(
                block.subrange(4 * i, 4 * i + 4),
            ),
    ensures
        text_bytes(text) == block,
{
    let b = text_bytes(text);
    assert forall|i: int| 0 <= i < 64 implies #[trigger] b[i] == block[i] by {
        let j = i / 4;
        let part = block.subrange(4 * j, 4 * j + 4);
        assert(text[j] == crate::math::be_word(part));
        crate::math::lemma_four_digits(
            part[3] as int,
            part[2] as int,
            part[1] as int,
            part[0] as int,
        );
        assert(part[i % 4] == block[i]);
        assert(i % 4 == 0 || i % 4 == 1 || i % 4 == 2 || i % 4 == 3);
    }
    assert(b =~= block);
}

proof fn lemma_fed_all(kind: ShaKind, e: Engine, msg: Seq<u8>, n: int)
    requires
        e.clocked,
        1 <= n,
        64 * n <= msg.len(),
    ensures
        ({
            let end = engine_after_all(kind, e, feeding_all(kind, msg, n));
            &&& end.clocked
            &&& end.fetched == e.fetched
            &&& end.hashed == msg.take(64 * n)
        }),
    decreases n,
{
    let block = msg.subrange(64 * n - 64, 64 * n);
    let before = feeding_all(kind, msg, n - 1);
    lemma_engine_join(kind, e, before, feeding(kind, block, n == 1));
    let mid = engine_after_all(kind, e, before);
    if n == 1 {
        assert(before =~= Seq::empty());
        lemma_fed(kind, mid, block, true);
        assert(block =~= msg.take(64));
    } else {
        lemma_fed_all(kind, e, msg, n - 1);
        lemma_fed(kind, mid, block, false);
        assert(msg.take(64 * (n - 1)) + block =~= msg.take(64 * n));
    }
}

/// The digest that is fetched is that of the whole padded message and of nothing else, whatever
/// was hashed before: five words of it or eight, latched when the last block is through, and
/// the accelerator is stopped in the end.
pub proof fn law_the_whole_message_is_hashed(kind: ShaKind, e: Engine, data: Seq<u8>)
    requires
        data.len() <= u64::MAX / 8,
    ensures
        ({
            let end = engine_after_all(kind, e, digesting(kind, data));
            &&& end.fetched == Some(
                (
                    message(data),
                    if kind is Sha1 {
                        5int
                    } else {
                        8
                    },
                ),
            )
            &&& !end.clocked
        }),
{
    law_padding_is_the_standards(data);
    let msg = message(data);
    let n = msg.len() as int / 64;
    let ops = digesting(kind, data);
    let head = seq![CryptoOp::Clock(true)];
    let body = feeding_all(kind, msg, n);
    let tail = ops.skip(1 + body.len() as int);
    assert(ops =~= head + body + tail);
    lemma_engine_join(kind, e, head + body, tail);
    lemma_engine_join(kind, e, head, body);
    assert(engine_after_all(kind, e, head.take(0)) == e);
    lemma_engine_take(kind, e, head, 1);
    assert(head.take(1) =~= head);
    let on = engine_after_all(kind, e, head);
    lemma_fed_all(kind, on, msg, n);
    assert(msg.take(64 * n) =~= msg);
    let mid = engine_after_all(kind, on, body);
    assert(engine_after_all(kind, mid, tail.take(0)) == mid);
    lemma_engine_take(kind, mid, tail, 1);
    lemma_engine_take(kind, mid, tail, 2);
    lemma_engine_take(kind, mid, tail, 3);
    lemma_engine_take(kind, mid, tail, 4);
    lemma_engine_take(kind, mid, tail, 5);
    assert(tail.take(5) =~= tail);
}

/// A digest's bytes are those of its words, the highest one first.
pub proof fn law_a_digest_is_its_words(words: Seq<u32>, i: int)
    requires
        0 <= i < words.len(),
    ensures
        ({
            let d = digest_of(words);
            &&& d.len() == 4 * words.len()
            &&& words[i] == 0x100_0000 * d[4 * i] + 0x1_0000 * d[4 * i + 1] + 0x100 * d[4 * i + 2]
                + d[4 * i + 3]
        }),
{
    crate::math::law_a_word_is_worth_its_bytes(seq![0u8, 0u8, 0u8, 0u8], words[i]);
    assert((4 * i) / 4 == i && (4 * i + 1) / 4 == i && (4 * i + 2) / 4 == i && (4 * i + 3) / 4
        == i);
}

} // verus!
