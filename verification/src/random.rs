use rand::rngs::StdRng;
use rand::{Rng, RngCore, SeedableRng};
use vstd::prelude::*;

verus! {

/// The seedable generator of the `rand` crate, carried as an opaque value.
#[verifier::external_type_specification]
#[verifier::external_body]
pub struct ExStdRng(StdRng);

/// `Rng::gen_range(0..bound)`: some index strictly below `bound`.
/// The call panics on an empty range, so `bound` must be positive.
/// Nothing is claimed about which index comes back.
#[verifier::external_body]
pub(crate) fn uniform_below(rng: &mut StdRng, bound: usize) -> (idx: usize)
    requires
        bound > 0,
    ensures
        idx < bound,
{
    rng.gen_range(0..bound)
}

/// `Rng::gen_range(0..=top)`: some index not above `top`.
/// Nothing is claimed about which index comes back.
#[verifier::external_body]
pub(crate) fn uniform_upto(rng: &mut StdRng, top: usize) -> (idx: usize)
    ensures
        idx <= top,
{
    rng.gen_range(0..=top)
}

/// `RngCore::next_u64`: the next 64 random bits; any word may come back.
#[verifier::external_body]
pub(crate) fn random_word(rng: &mut StdRng) -> (word: u64) {
    rng.next_u64()
}

/// `Clone::clone` of the generator: a second generator that continues from
/// the same state. Nothing is claimed about what it will draw.
pub assume_specification[ <StdRng as Clone>::clone ](rng: &StdRng) -> (copy: StdRng);

/// `SeedableRng::from_entropy`: a generator seeded by the operating system.
/// Nothing is claimed about its state. The call panics where the operating
/// system has no entropy to give; no argument brings that about, so no
/// precondition can leave it out.
#[verifier::external_body]
pub(crate) fn entropy_generator() -> (rng: StdRng) {
    StdRng::from_entropy()
}

} // verus!
