use rand::seq::SliceRandom;
use rand::Rng;
use rand::distributions::Distribution;
use vstd::prelude::*;

use crate::gene::Gene;

verus! {

#[verifier::external_type_specification]
#[verifier::external_body]
pub struct ExStdRng(rand::rngs::StdRng);

#[verifier::external_type_specification]
#[verifier::external_body]
pub struct ExBernoulli(rand::distributions::Bernoulli);

/// Relies on `Rng::gen_range` over `0..n`: a value below `n`. It panics on an
/// empty range, which `requires` leaves out.
#[verifier::external_body]
pub(crate) fn random_below(rng: &mut rand::rngs::StdRng, n: u64) -> (r: u64)
    requires
        n > 0,
    ensures
        r < n,
{
    rng.gen_range(0..n)
}

/// Relies on `Rng::gen::<bool>`: a fair coin.
#[verifier::external_body]
pub(crate) fn random_bool(rng: &mut rand::rngs::StdRng) -> (r: bool) {
    rng.gen::<bool>()
}

/// Relies on `Bernoulli::sample`: true with the probability that the
/// distribution was built with.
#[verifier::external_body]
pub(crate) fn random_event(rng: &mut rand::rngs::StdRng, chance: &rand::distributions::Bernoulli) -> (r: bool) {
    chance.sample(rng)
}

/// Relies on `SliceRandom::shuffle`: Fisher-Yates swaps, so the genes are
/// permuted in place and none is added or lost.
#[verifier::external_body]
pub(crate) fn shuffle_genes(genes: &mut Vec<Gene>, rng: &mut rand::rngs::StdRng)
    ensures
        final(genes)@.to_multiset() == old(genes)@.to_multiset(),
{
    genes.shuffle(rng)
}

} // verus!
