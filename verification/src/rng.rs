//! The random source of a fill: the xoshiro256++ generator of the
//! `rand_xoshiro` crate, drawn from through the `rand` crate. Nothing in this
//! file is proved; the contract repeats what `rand` documents of the call.

use rand::Rng;
use rand_xoshiro::Xoshiro256PlusPlus;
use vstd::prelude::*;

verus! {

/// `rand_xoshiro::Xoshiro256PlusPlus`, the generator. Its state is not
/// looked into.
#[verifier::external_type_specification]
#[verifier::external_body]
pub struct ExXoshiro256PlusPlus(Xoshiro256PlusPlus);

/// `Rng::gen_ratio(numerator, denominator)`: a boolean that is true with a
/// chance of `numerator` in `denominator`. `rand` documents that it is always
/// false for a numerator of zero and always true for a numerator equal to the
/// denominator; of the chances in between nothing is stated, since the result
/// depends on the state of the generator. The call panics on a denominator of
/// zero and on a numerator above the denominator, which `requires` leaves
/// out.
#[verifier::external_body]
pub(crate) fn gen_ratio(rng: &mut Xoshiro256PlusPlus, numerator: u32, denominator: u32) -> (outcome: bool)
    requires
        denominator > 0,
        numerator <= denominator,
    ensures
        numerator == 0 ==> !outcome,
        numerator == denominator ==> outcome,
{
    rng.gen_ratio(numerator, denominator)
}

} // verus!
