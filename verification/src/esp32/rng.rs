//! The hardware random number generator: one register, a fresh word per read.
//!
//! Without the radio running the words suit a backoff or a test seed, not a key.

use vstd::prelude::*;

use crate::math::word_byte;

verus! {

/// Each read gives a new word.
pub const RNG_DATA_REG: u32 = 0x3FF7_5144;

/// How many words fill a buffer of `len` bytes.
pub open spec fn words_needed(len: int) -> int {
    (len + 3) / 4
}

/// How many words to read for a buffer of `len` bytes: none for an empty one, and
/// none too many for a tail.
pub fn word_count(len: usize) -> (n: usize)
    ensures
        n == words_needed(len as int),
{
    if len % 4 == 0 {
        len / 4
    } else {
        len / 4 + 1
    }
}

/// Fills `buf` from the words of the generator, each low byte first; the tail takes
/// what it needs of the last word.
pub fn fill_from(words: &[u32], buf: &mut [u8])
    requires
        words@.len() == words_needed(old(buf)@.len() as int),
    ensures
        final(buf)@.len() == old(buf)@.len(),
        forall|i: int|
            0 <= i < final(buf)@.len() ==> #[trigger] final(buf)@[i] == crate::math::le_byte(
                words@[i / 4],
                i % 4,
            ),
{
    let len: usize = buf.len();
    for i in 0..len
        invariant
            len == buf@.len(),
            words@.len() == words_needed(len as int),
            forall|k: int| 0 <= k < i ==> #[trigger] buf@[k] == crate::math::le_byte(words@[k / 4], k % 4),
    {
        buf[i] = word_byte(words[i / 4], i % 4);
    }
}

/// An aligned buffer takes one word for four bytes, a tail one word more, and an
/// empty buffer none.
pub proof fn law_no_word_is_wasted(len: int)
    requires
        len >= 0,
    ensures
        len <= 4 * words_needed(len) < len + 4,
        words_needed(0) == 0,
        len % 4 == 0 ==> words_needed(len) == len / 4,
{
}

} // verus!
