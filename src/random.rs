//! The random source, and the draws the simulation makes from it.

use rand::seq::SliceRandom;
use rand::Rng;
use rand_pcg::Mcg128Xsl64;
use vstd::prelude::*;

use crate::genetics::Gene;

verus! {

#[verifier::external_type_specification]
#[verifier::external_body]
pub struct ExMcg128Xsl64(Mcg128Xsl64);

/// Relies on rand's `Rng::gen_range`: a value in `low..high`; it panics when
/// `low >= high`.
#[verifier::external_body]
pub(crate) fn gen_range(random: &mut Mcg128Xsl64, low: u32, high: u32) -> (r: u32)
    requires
        low < high,
    ensures
        low <= r < high,
{
    random.gen_range(low, high)
}

/// Relies on rand's `Rng::gen_ratio`: `true` with probability
/// `numerator / denominator`, always at a ratio of one, never at zero; it
/// panics when `numerator > denominator` or `denominator == 0`.
#[verifier::external_body]
pub(crate) fn gen_ratio(random: &mut Mcg128Xsl64, numerator: u32, denominator: u32) -> (r: bool)
    requires
        0 < denominator,
        numerator <= denominator,
    ensures
        numerator == denominator ==> r,
        numerator == 0 ==> !r,
{
    random.gen_ratio(numerator, denominator)
}

/// Relies on rand's `SliceRandom::choose` for slices: `None` on an empty
/// slice, else one of its elements.
#[verifier::external_body]
pub(crate) fn choose_gene(random: &mut Mcg128Xsl64, people: &[Gene]) -> (r: Option<Gene>)
    ensures
        r is None <==> people@.len() == 0,
        r matches Some(g) ==> people@.contains(g),
{
    people.choose(random).copied()
}

} // verus!
