//! A deterministic 64-bit digest over sequences of words.
//!
//! The digest doubles as a block identity and as a proof-of-work signal, so
//! all that matters is that it is a pure, total function of its input. The
//! mixing step follows the classic Fowler-Noll-Vo scheme: xor a word into the
//! accumulator, then multiply by a fixed prime modulo `2^64`.

use vstd::prelude::*;

verus! {

/// Starting value of the digest accumulator.
pub const DIGEST_OFFSET: u64 = 0xcbf2_9ce4_8422_2325;

/// Multiplier of the mixing step.
pub const DIGEST_PRIME: u64 = 0x0000_0100_0000_01b3;

/// One mixing step: absorb `word` into the accumulator `acc`.
#[verifier::opaque]
pub open spec fn mix(acc: u64, word: u64) -> u64 {
    ((((acc ^ word) as u128) * (DIGEST_PRIME as u128)) % 0x1_0000_0000_0000_0000) as u64
}

/// Digest of a sequence of words: the offset with every word mixed in,
/// left to right.
pub open spec fn words_digest(words: Seq<u64>) -> u64
    decreases words.len(),
{
    if words.len() == 0 {
        DIGEST_OFFSET
    } else {
        mix(words_digest(words.drop_last()), words.last())
    }
}

/// One executable mixing step.
pub fn mix_word(acc: u64, word: u64) -> (r: u64)
    ensures
        r == mix(acc, word),
{
    let x: u64 = acc ^ word;
    proof {
        reveal(mix);
        assert((x as u128) * (DIGEST_PRIME as u128) <= (u64::MAX as u128) * (DIGEST_PRIME
            as u128)) by (nonlinear_arith)
            requires
                x <= u64::MAX,
        ;
    }
    let wide: u128 = (x as u128) * (DIGEST_PRIME as u128);
    (wide % 0x1_0000_0000_0000_0000u128) as u64
}

/// Digest of a slice of words.
pub fn hash_words(words: &[u64]) -> (r: u64)
    ensures
        r == words_digest(words@),
{
    let mut acc: u64 = DIGEST_OFFSET;
    let mut i: usize = 0;
    while i < words.len()
        invariant
            i <= words@.len(),
            acc == words_digest(words@.take(i as int)),
        decreases words@.len() - i,
    {
        acc = mix_word(acc, words[i]);
        i = i + 1;
        proof {
            assert(words@.take(i as int).drop_last() =~= words@.take(i as int - 1));
            assert(words@.take(i as int).last() == words@[i as int - 1]);
        }
    }
    proof {
        assert(words@.take(words@.len() as int) =~= words@);
    }
    acc
}

} // verus!
