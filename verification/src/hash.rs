//! Hashing of words with the Fx function.

use vstd::prelude::*;
use std::hash::Hasher;

verus! {

/// The multiplier of the 64-bit Fx function.
pub const FX_SEED: u64 = 0x517cc1b727220a95;

/// One step of the 64-bit Fx function: rotate the state left by five bits,
/// xor the word in and multiply by the seed, modulo 2^64.
pub open spec fn fx_step(state: u64, word: u64) -> u64 {
    (((((state << 5) | (state >> 59)) ^ word) as int * FX_SEED as int) % 0x1_0000_0000_0000_0000) as u64
}

/// The Fx hash of two words fed to a fresh state.
pub open spec fn fx_pair(a: u64, b: u64) -> u64 {
    fx_step(fx_step(0, a), b)
}

/// The Fx hash of a sequence of words: the words are folded in one after the
/// other, each together with the hash of those before it.
pub open spec fn fx_fold(words: Seq<u64>) -> u64
    decreases words.len(),
{
    if words.len() == 0 {
        0
    } else {
        fx_pair(fx_fold(words.drop_last()), words.last())
    }
}

/// Feeds two words to a fresh `fxhash::FxHasher64` with `write_u64` and
/// returns what `finish` gives. The contract restates the crate's word step,
/// applied twice to the initial state zero.
#[verifier::external_body]
pub(crate) fn hash_pair(a: u64, b: u64) -> (res: u64)
    ensures
        res == fx_pair(a, b),
{
    let mut state = fxhash::FxHasher64::default();
    state.write_u64(a);
    state.write_u64(b);
    state.finish()
}

/// Hashes a sequence of words.
pub fn hash_words(words: &Vec<u64>) -> (res: u64)
    ensures
        res == fx_fold(words@),
{
    let mut acc: u64 = 0;
    let mut i: usize = 0;
    while i < words.len()
        invariant
            i <= words.len(),
            acc == fx_fold(words@.take(i as int)),
        decreases words.len() - i,
    {
        proof {
            assert(words@.take(i + 1).drop_last() =~= words@.take(i as int));
        }
        acc = hash_pair(acc, words[i]);
        i += 1;
    }
    proof {
        assert(words@.take(i as int) =~= words@);
    }
    acc
}

} // verus!
