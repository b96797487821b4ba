use rand::Rng;
use rand::rngs::StdRng;
use vstd::prelude::*;

verus! {

/// Declares `rand::rngs::StdRng`, the seedable random number generator, as a
/// type whose inside is not looked into.
#[verifier::external_type_specification]
#[verifier::external_body]
pub struct ExStdRng(rand::rngs::StdRng);

/// Draws an integer with `rand::Rng::random_range` from the inclusive range
/// `low..=high`. The contract claims what the documentation of `random_range`
/// says of every outcome: the value lies in the range. The range must not be
/// empty, for `random_range` panics on an empty range.
#[verifier::external_body]
pub(crate) fn random_in_range(rng: &mut StdRng, low: i64, high: i64) -> (value: i64)
    requires
        low <= high,
    ensures
        low <= value <= high,
{
    rng.random_range(low..=high)
}

} // verus!
