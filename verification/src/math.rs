//! Integer arithmetic that the drivers share.

use vstd::prelude::*;

verus! {

/// Division towards zero.
pub open spec fn div_toward_zero(a: int, b: int) -> int {
    if a >= 0 && b > 0 {
        a / b
    } else if a < 0 && b > 0 {
        -((-a) / b)
    } else if a >= 0 {
        -(a / (-b))
    } else {
        (-a) / (-b)
    }
}

/// `a / b`, towards zero, for either sign of `b`.
pub(crate) fn div_i32(a: i32, b: i32) -> (r: i32)
    requires
        b != 0,
        !(a == i32::MIN && b == -1),
    ensures
        r == div_toward_zero(a as int, b as int),
{
    if b > 0 {
        a / b
    } else if b == i32::MIN {
        assert(a != i32::MIN ==> div_toward_zero(a as int, b as int) == 0) by {
            if a >= 0 {
                assert((a as int) / 0x8000_0000 == 0);
            } else if a != i32::MIN {
                assert((-a) / 0x8000_0000 == 0);
            }
        }
        if a == i32::MIN {
            1
        } else {
            0
        }
    } else if a == i32::MIN {
        // -(a + d) / d - 1 keeps the quotient in range where -a is not.
        let d: i32 = -b;
        let q: i32 = (-(a + d)) / d + 1;
        proof {
            lemma_div_step(-(a + d), d as int);
        }
        q
    } else {
        (-a) / (-b)
    }
}

/// `a / b`, towards zero, for either sign of `b`.
pub(crate) fn div_i64(a: i64, b: i64) -> (r: i64)
    requires
        b != 0,
        b != i64::MIN,
        !(a == i64::MIN && b == -1),
    ensures
        r == div_toward_zero(a as int, b as int),
{
    if b > 0 {
        a / b
    } else if a == i64::MIN {
        let d: i64 = -b;
        let q: i64 = (-(a + d)) / d + 1;
        proof {
            lemma_div_step(-(a + d), d as int);
        }
        q
    } else {
        (-a) / (-b)
    }
}

proof fn lemma_div_step(x: int, d: int)
    by (nonlinear_arith)
    requires
        d > 0,
    ensures
        (x + d) / d == x / d + 1,
{
}

/// A byte read as a signed one.
pub open spec fn signed8(b: u8) -> int {
    if b < 0x80 {
        b as int
    } else {
        b - 0x100
    }
}

/// Two bytes read as a signed word.
pub open spec fn signed16(low: u8, high: u8) -> int {
    let word = low + 0x100 * high;
    if word < 0x8000 {
        word
    } else {
        word - 0x1_0000
    }
}

pub(crate) fn byte_to_signed(b: u8) -> (r: i16)
    ensures
        r == signed8(b),
{
    if b < 0x80 {
        b as i16
    } else {
        b as i16 - 0x100
    }
}

pub(crate) fn bytes_to_signed(low: u8, high: u8) -> (r: i16)
    ensures
        r == signed16(low, high),
{
    let word: i32 = low as i32 + 0x100 * (high as i32);
    if word < 0x8000 {
        word as i16
    } else {
        (word - 0x1_0000) as i16
    }
}

/// Shifting a signed word right divides it, rounding down.
pub(crate) proof fn lemma_shr_i32(x: i32)
    ensures
        (x >> 3u32) == x / 0x8,
        (x >> 4u32) == x / 0x10,
        (x >> 7u32) == x / 0x80,
        (x >> 8u32) == x / 0x100,
        (x >> 10u32) == x / 0x400,
        (x >> 11u32) == x / 0x800,
        (x >> 12u32) == x / 0x1000,
        (x >> 14u32) == x / 0x4000,
        (x >> 15u32) == x / 0x8000,
{
    lemma_shr_i32_low(x);
    lemma_shr_i32_mid(x);
    lemma_shr_i32_high(x);
}

#[verifier::rlimit(40)]
proof fn lemma_shr_i32_low(x: i32)
    by (bit_vector)
    ensures
        (x >> 3u32) == x / 0x8,
        (x >> 4u32) == x / 0x10,
        (x >> 7u32) == x / 0x80,
{
}

#[verifier::rlimit(40)]
proof fn lemma_shr_i32_mid(x: i32)
    by (bit_vector)
    ensures
        (x >> 8u32) == x / 0x100,
        (x >> 10u32) == x / 0x400,
        (x >> 11u32) == x / 0x800,
{
}

#[verifier::rlimit(40)]
proof fn lemma_shr_i32_high(x: i32)
    by (bit_vector)
    ensures
        (x >> 12u32) == x / 0x1000,
        (x >> 14u32) == x / 0x4000,
        (x >> 15u32) == x / 0x8000,
{
}

/// Shifting a signed double word right divides it, rounding down.
#[verifier::rlimit(40)]
pub(crate) proof fn lemma_shr_i64(x: i64)
    by (bit_vector)
    ensures
        (x >> 8u32) == x / 0x100,
        (x >> 13u32) == x / 0x2000,
        (x >> 19u32) == x / 0x8_0000,
        (x >> 25u32) == x / 0x200_0000,
        (x >> 33u32) == x / 0x2_0000_0000,
{
}

/// Shifting left multiplies and keeps what fits.
pub(crate) proof fn lemma_shl_i32(x: i32)
    by (bit_vector)
    ensures
        (x << 14u32) == (x * 0x4000) as i32,
        (x << 20u32) == (x * 0x10_0000) as i32,
{
}

/// Shifting left multiplies and keeps what fits.
pub(crate) proof fn lemma_shl_i64(x: i64)
    by (bit_vector)
    ensures
        (x << 17u32) == (x * 0x2_0000) as i64,
{
}

/// Byte `i` of a word, low ones first.
pub open spec fn le_byte(word: u32, i: int) -> u8 {
    if i == 0 {
        (word % 0x100) as u8
    } else if i == 1 {
        (word / 0x100 % 0x100) as u8
    } else if i == 2 {
        (word / 0x1_0000 % 0x100) as u8
    } else {
        (word / 0x100_0000) as u8
    }
}

/// Byte `i` of a word, low ones first.
pub fn word_byte(word: u32, i: usize) -> (b: u8)
    requires
        i < 4,
    ensures
        b == le_byte(word, i as int),
{
    if i == 0 {
        (word % 0x100) as u8
    } else if i == 1 {
        (word / 0x100 % 0x100) as u8
    } else if i == 2 {
        (word / 0x1_0000 % 0x100) as u8
    } else {
        (word / 0x100_0000) as u8
    }
}

/// The byte at `i`, or zero past the end.
pub open spec fn byte_or_zero(bytes: Seq<u8>, i: int) -> int {
    if 0 <= i < bytes.len() {
        bytes[i] as int
    } else {
        0
    }
}

/// The word that four bytes make, the first one lowest; zeros stand for what is
/// missing.
pub open spec fn le_word(bytes: Seq<u8>) -> u32 {
    (byte_or_zero(bytes, 0) + 0x100 * byte_or_zero(bytes, 1) + 0x1_0000 * byte_or_zero(
        bytes,
        2,
    ) + 0x100_0000 * byte_or_zero(bytes, 3)) as u32
}

/// The word that up to four bytes of `bytes` make, beginning at `from` and ending
/// before `to`, the first one lowest.
pub fn word_of(bytes: &[u8], from: usize, to: usize) -> (word: u32)
    requires
        from <= to <= bytes@.len(),
    ensures
        word == le_word(bytes@.subrange(from as int, to as int)),
{
    let n: usize = to - from;
    let b0: u32 = if n > 0 {
        bytes[from] as u32
    } else {
        0
    };
    let b1: u32 = if n > 1 {
        bytes[from + 1] as u32
    } else {
        0
    };
    let b2: u32 = if n > 2 {
        bytes[from + 2] as u32
    } else {
        0
    };
    let b3: u32 = if n > 3 {
        bytes[from + 3] as u32
    } else {
        0
    };
    b0 + 0x100 * b1 + 0x1_0000 * b2 + 0x100_0000 * b3
}

pub(crate) proof fn lemma_four_digits(a: int, b: int, c: int, d: int)
    requires
        0 <= a < 0x100,
        0 <= b < 0x100,
        0 <= c < 0x100,
        0 <= d < 0x100,
    ensures
        ({
            let w = a + 0x100 * b + 0x1_0000 * c + 0x100_0000 * d;
            &&& 0 <= w <= u32::MAX
            &&& w % 0x100 == a
            &&& w / 0x100 % 0x100 == b
            &&& w / 0x1_0000 % 0x100 == c
            &&& w / 0x100_0000 == d
        }),
{
    let w = a + 0x100 * b + 0x1_0000 * c + 0x100_0000 * d;
    let w1 = b + 0x100 * c + 0x1_0000 * d;
    let w2 = c + 0x100 * d;
    vstd::arithmetic::div_mod::lemma_fundamental_div_mod_converse(w, 0x100, w1, a);
    vstd::arithmetic::div_mod::lemma_fundamental_div_mod_converse(w1, 0x100, w2, b);
    vstd::arithmetic::div_mod::lemma_fundamental_div_mod_converse(w2, 0x100, d, c);
    vstd::arithmetic::div_mod::lemma_fundamental_div_mod_converse(w, 0x1_0000, w2, a + 0x100 * b);
    vstd::arithmetic::div_mod::lemma_fundamental_div_mod_converse(
        w,
        0x100_0000,
        d,
        a + 0x100 * b + 0x1_0000 * c,
    );
}

/// The word that the first four bytes make, the first one highest.
pub open spec fn be_word(bytes: Seq<u8>) -> u32 {
    (byte_or_zero(bytes, 3) + 0x100 * byte_or_zero(bytes, 2) + 0x1_0000 * byte_or_zero(
        bytes,
        1,
    ) + 0x100_0000 * byte_or_zero(bytes, 0)) as u32
}

/// The word that four bytes from `at` on make, the first one highest.
pub fn be_word_of(bytes: &[u8], at: usize) -> (word: u32)
    requires
        at + 4 <= bytes@.len(),
    ensures
        word == be_word(bytes@.subrange(at as int, at + 4)),
{
    let n: usize = bytes.len();
    assert(at + 4 <= n);
    bytes[at + 3] as u32 + 0x100 * bytes[at + 2] as u32 + 0x1_0000 * bytes[at + 1] as u32
        + 0x100_0000 * bytes[at] as u32
}

/// The bytes of a number, the highest one first.
#[verifier::opaque]
pub open spec fn be_bytes(x: u64) -> Seq<u8> {
    seq![
        (x / 0x100_0000_0000_0000) as u8,
        (x / 0x1_0000_0000_0000 % 0x100) as u8,
        (x / 0x100_0000_0000 % 0x100) as u8,
        (x / 0x1_0000_0000 % 0x100) as u8,
        (x / 0x100_0000 % 0x100) as u8,
        (x / 0x1_0000 % 0x100) as u8,
        (x / 0x100 % 0x100) as u8,
        (x % 0x100) as u8,
    ]
}

/// There are eight of them.
pub proof fn lemma_be_bytes_len(x: u64)
    ensures
        be_bytes(x).len() == 8,
{
    reveal(be_bytes);
}

/// The bytes of a number, the highest one first.
pub fn bytes_of(x: u64) -> (bytes: [u8; 8])
    ensures
        bytes@ == be_bytes(x),
{
    let bytes: [u8; 8] = [
        (x / 0x100_0000_0000_0000) as u8,
        (x / 0x1_0000_0000_0000 % 0x100) as u8,
        (x / 0x100_0000_0000 % 0x100) as u8,
        (x / 0x1_0000_0000 % 0x100) as u8,
        (x / 0x100_0000 % 0x100) as u8,
        (x / 0x1_0000 % 0x100) as u8,
        (x / 0x100 % 0x100) as u8,
        (x % 0x100) as u8,
    ];
    assert(bytes@ =~= be_bytes(x)) by {
        reveal(be_bytes);
    }
    bytes
}

/// A word gives back the bytes that it was made of.
pub proof fn lemma_word_holds_its_bytes(bytes: Seq<u8>, i: int)
    requires
        0 <= i < 4,
    ensures
        le_byte(le_word(bytes), i) == byte_or_zero(bytes, i),
{
    lemma_four_digits(
        byte_or_zero(bytes, 0),
        byte_or_zero(bytes, 1),
        byte_or_zero(bytes, 2),
        byte_or_zero(bytes, 3),
    );
}

/// The bytes of a number spell it, the first being worth the most.
pub proof fn law_bytes_spell_their_number(x: u64)
    ensures
        ({
            let b = be_bytes(x);
            &&& b.len() == 8
            &&& x == 0x100_0000_0000_0000 * b[0] + 0x1_0000_0000_0000 * b[1] + 0x100_0000_0000
                * b[2] + 0x1_0000_0000 * b[3] + 0x100_0000 * b[4] + 0x1_0000 * b[5] + 0x100 * b[6]
                + b[7]
        }),
{
    reveal(be_bytes);
    let b = be_bytes(x);
    let x1 = x / 0x100;
    let x2 = x1 / 0x100;
    let x3 = x2 / 0x100;
    let x4 = x3 / 0x100;
    let x5 = x4 / 0x100;
    let x6 = x5 / 0x100;
    let x7 = x6 / 0x100;
    assert(x / 0x1_0000 == x2 && x / 0x100_0000 == x3 && x / 0x1_0000_0000 == x4);
    assert(x / 0x100_0000_0000 == x5 && x / 0x1_0000_0000_0000 == x6 && x / 0x100_0000_0000_0000
        == x7);
    assert(b[7] == x % 0x100 && b[6] == x1 % 0x100 && b[5] == x2 % 0x100 && b[4] == x3 % 0x100);
    assert(b[3] == x4 % 0x100 && b[2] == x5 % 0x100 && b[1] == x6 % 0x100 && b[0] == x7);
}

/// A word is worth its bytes, from the low end or from the high one.
pub proof fn law_a_word_is_worth_its_bytes(bytes: Seq<u8>, word: u32)
    requires
        bytes.len() == 4,
    ensures
        le_word(bytes) == bytes[0] + 0x100 * bytes[1] + 0x1_0000 * bytes[2] + 0x100_0000
            * bytes[3],
        be_word(bytes) == bytes[3] + 0x100 * bytes[2] + 0x1_0000 * bytes[1] + 0x100_0000
            * bytes[0],
        word == le_byte(word, 0) + 0x100 * le_byte(word, 1) + 0x1_0000 * le_byte(word, 2)
            + 0x100_0000 * le_byte(word, 3),
{
}

/// A signed number of one or two bytes has the value of its bits, in two's complement.
pub proof fn law_signs_are_twos_complement(low: u8, high: u8)
    ensures
        -128 <= signed8(low) < 128,
        signed8(low) % 256 == low,
        -0x8000 <= signed16(low, high) < 0x8000,
        signed16(low, high) % 0x1_0000 == low + 256 * high,
{
}

/// Division goes towards zero, and leaves less than the divisor, of the dividend's sign.
pub proof fn law_division_goes_towards_zero(a: int, b: int)
    requires
        b != 0,
    ensures
        ({
            let left = a - div_toward_zero(a, b) * b;
            let size = if b < 0 {
                -b
            } else {
                b
            };
            &&& a >= 0 ==> 0 <= left < size
            &&& a <= 0 ==> -size < left <= 0
        }),
{
    let (x, y) = (if a < 0 {
        -a
    } else {
        a
    }, if b < 0 {
        -b
    } else {
        b
    });
    let q = x / y;
    assert(0 <= x - q * y < y) by (nonlinear_arith)
        requires
            q == x / y,
            y > 0,
    ;
    assert((-q) * b == -(q * b) && q * (-b) == -(q * b)) by (nonlinear_arith);
}

} // verus!
