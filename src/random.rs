//! The random stream: a `StdRng` owned by the run, seeded or drawn from entropy.
//!
//! `StdRng` (ChaCha with 12 rounds in the rand version this crate is locked
//! to) is deterministic: its next draw and its next state are functions of its
//! current state and of the requested range, and `seed_from_u64` builds the
//! same state from the same seed. The names below give those functions, so
//! that a sampler's result can be stated as a function of the generator it
//! starts from. rand does not promise the same streams across its versions, so
//! the names hold for one build of the crate.

use vstd::prelude::*;
use rand::rngs::StdRng;
use rand::Rng;
use rand::RngCore;
use rand::SeedableRng;

verus! {

#[verifier::external_type_specification]
#[verifier::external_body]
pub struct ExStdRng(rand::rngs::StdRng);

/// The generator that `StdRng::seed_from_u64` builds from a seed.
pub uninterp spec fn seeded_state(seed: u64) -> StdRng;

/// The value that `gen_range(0..=hi)` returns on a generator in state `g`.
pub uninterp spec fn range_draw(g: StdRng, hi: u64) -> u64;

/// The state of generator `g` after one `gen_range(0..=hi)`.
pub uninterp spec fn after_range_draw(g: StdRng, hi: u64) -> StdRng;

/// The value that `next_u64` returns on a generator in state `g`.
pub uninterp spec fn word_draw(g: StdRng) -> u64;

/// The state of generator `g` after one `next_u64`.
pub uninterp spec fn after_word_draw(g: StdRng) -> StdRng;

/// Relies on `SeedableRng::seed_from_u64` for `StdRng`: the generator is a
/// function of the seed alone.
#[verifier::external_body]
fn seeded_rng(seed: u64) -> (r: StdRng)
    ensures
        r == seeded_state(seed),
{
    StdRng::seed_from_u64(seed)
}

/// Relies on `SeedableRng::from_rng` for `StdRng`, fed by `OsRng`: a
/// generator seeded from the operating system, or `None` where the operating
/// system gives no entropy (the error is returned, not raised); nothing is
/// known of the generator's state.
#[verifier::external_body]
fn entropy_rng() -> (r: Option<StdRng>) {
    StdRng::from_rng(rand::rngs::OsRng).ok()
}

/// The generator of a run: built from `seed` when one is given, so that runs
/// with the same seed draw the same values, and from entropy otherwise;
/// `None` only where no seed was given and no entropy could be had.
pub fn generator_for(seed: Option<u64>) -> (r: Option<StdRng>)
    ensures
        seed is Some ==> r == Some(seeded_state(seed->0)),
{
    match seed {
        Some(s) => Some(seeded_rng(s)),
        None => entropy_rng(),
    }
}

/// Relies on `Rng::gen_range` over the inclusive range `0..=hi` of `u64`,
/// which is never empty: the value lies in the range and, like the next
/// state, depends on the generator's state and on `hi` alone.
#[verifier::external_body]
pub(crate) fn draw_at_most(g: &mut StdRng, hi: u64) -> (r: u64)
    ensures
        r <= hi,
        r == range_draw(*old(g), hi),
        *final(g) == after_range_draw(*old(g), hi),
{
    g.gen_range(0..=hi)
}

/// Relies on `RngCore::next_u64` for `StdRng`: the word and the next state
/// depend on the generator's state alone.
#[verifier::external_body]
pub(crate) fn draw_word(g: &mut StdRng) -> (r: u64)
    ensures
        r == word_draw(*old(g)),
        *final(g) == after_word_draw(*old(g)),
{
    g.next_u64()
}

} // verus!
