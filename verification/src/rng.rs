//! The seeded random stream behind point sampling.
//!
//! The stream is `rand_chacha`'s ChaCha8 generator, which its documentation
//! states is deterministic and portable and tested against reference
//! vectors; `seed_from_u64` derives the 32-byte seed from the `u64` by a
//! fixed splitmix-style expansion.  The `k`-th 64-bit word of the stream is
//! therefore a function of the seed and `k` alone, which [`chacha_word`]
//! names.  [`SampleRng`] keeps the count of words drawn so far beside the
//! generator, so each draw's contract can say which word it returned.

use vstd::prelude::*;

use rand_chacha::rand_core::{Rng, SeedableRng};

use crate::fixed::SCALE;

verus! {

#[verifier::external_type_specification]
#[verifier::external_body]
pub struct ExChaCha8Rng(rand_chacha::ChaCha8Rng);

/// The `k`-th 64-bit word drawn from a ChaCha8 generator seeded with
/// `seed_from_u64(seed)`.
pub uninterp spec fn chacha_word(seed: u64, k: nat) -> u64;

/// A seeded ChaCha8 stream together with how many words it has handed out.
///
/// The fields stay private: the only constructor is [`sample_rng_from_seed`]
/// and the only mutation is [`sample_rng_next`], which keeps `drawn` in step
/// with the generator's state.
pub struct SampleRng {
    pub(crate) rng: rand_chacha::ChaCha8Rng,
    pub(crate) seed: u64,
    pub(crate) drawn: u64,
}

impl SampleRng {
    /// How the next word to be drawn relates to the stream.
    pub closed spec fn spec_seed(self) -> u64 {
        self.seed
    }

    /// How many words have been drawn since seeding.
    pub closed spec fn spec_drawn(self) -> u64 {
        self.drawn
    }
}

/// Relies on `SeedableRng::seed_from_u64` for `rand_chacha::ChaCha8Rng`:
/// seeding is a pure function of the `u64` seed.
#[verifier::external_body]
pub fn sample_rng_from_seed(seed: u64) -> (r: SampleRng)
    ensures
        r.spec_seed() == seed,
        r.spec_drawn() == 0,
{
    SampleRng { rng: rand_chacha::ChaCha8Rng::seed_from_u64(seed), seed, drawn: 0 }
}

/// Relies on `Rng::next_u64` for `rand_chacha::ChaCha8Rng`: the stream is
/// deterministic, so the word drawn is fixed by the seed and the number of
/// words drawn before it.  The counter bump is this type's own bookkeeping
/// and must move in step with the generator, so it stands beside the call.
#[verifier::external_body]
pub fn sample_rng_next(r: &mut SampleRng) -> (w: u64)
    requires
        old(r).spec_drawn() < 0xffff_ffff_ffff_ffff,
    ensures
        w == chacha_word(old(r).spec_seed(), old(r).spec_drawn() as nat),
        final(r).spec_seed() == old(r).spec_seed(),
        final(r).spec_drawn() == old(r).spec_drawn() + 1,
{
    let w = r.rng.next_u64();
    r.drawn += 1;
    w
}

/// The uniform fraction a raw stream word stands for: its top 20 bits, a
/// numerator over [`SCALE`], uniformly distributed in `[0, 1)`.
pub open spec fn unit_fraction_of(w: u64) -> int {
    (w as int) / 0x1000_0000_0000
}

/// Exec counterpart of [`unit_fraction_of`].
pub fn unit_fraction(w: u64) -> (u: u64)
    ensures
        u as int == unit_fraction_of(w),
        u < SCALE as u64,
{
    let u = w / 0x1000_0000_0000;
    proof {
        assert(u < 1048576) by (nonlinear_arith)
            requires
                u == w as int / 0x1000_0000_0000,
                w <= 0xffff_ffff_ffff_ffff,
        ;
    }
    u
}

} // verus!
