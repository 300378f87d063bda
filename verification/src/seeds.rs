//! The pseudo-random stream that octave seeds are drawn from.

use rand::Rng;
use rand::SeedableRng;
use rand_chacha::ChaCha8Rng;
use vstd::prelude::*;

verus! {

/// `rand_chacha::ChaCha8Rng`, taken as it is: a generator is only ever
/// seeded, drawn from and kept.
#[verifier::external_type_specification]
#[verifier::external_body]
pub struct ExChaCha8Rng(ChaCha8Rng);

/// What a generator holds: the 64-bit words of its stream that are yet to
/// come, each under the number of draws that come before it.
pub uninterp spec fn upcoming(rng: ChaCha8Rng) -> Map<nat, u64>;

/// The 64-bit word at position `index` of the stream that belongs to `seed`:
/// what the generator seeded with `seed` hands out at its draw number
/// `index`, counted from zero.
pub uninterp spec fn seeded_word(seed: u64, index: nat) -> u64;

/// `ChaCha8Rng::seed_from_u64`: a generator that stands at the start of the
/// stream belonging to `seed`. Nothing but the seed decides the words of that
/// stream.
#[verifier::external_body]
pub(crate) fn seeded(seed: u64) -> (rng: ChaCha8Rng)
    ensures
        forall|i: nat|
            upcoming(rng).dom().contains(i) && #[trigger] upcoming(rng)[i] == seeded_word(seed, i),
{
    ChaCha8Rng::seed_from_u64(seed)
}

/// `Rng::gen` for a `u64` on a `ChaCha8Rng`: hands out the generator's next
/// 64-bit word and leaves the generator one word further on in its stream.
#[verifier::external_body]
pub(crate) fn draw(rng: &mut ChaCha8Rng) -> (word: u64)
    ensures
        word == upcoming(*old(rng))[0],
        forall|i: nat|
            upcoming(*final(rng)).dom().contains(i) && #[trigger] upcoming(*final(rng))[i]
                == upcoming(*old(rng))[i + 1],
{
    rng.gen()
}

} // verus!
