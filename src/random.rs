use rand::rngs::StdRng;
use rand::{Rng, SeedableRng};
use vstd::prelude::*;

verus! {

#[verifier::external_type_specification]
#[verifier::external_body]
pub struct ExStdRng(StdRng);

/// Relies on `SeedableRng::from_entropy` for `StdRng`: a generator seeded by
/// the operating system (the call panics only when the system has no entropy
/// to give). Nothing is known of the values it will hand out.
#[verifier::external_body]
pub(crate) fn entropy_rng() -> (r: StdRng) {
    StdRng::from_entropy()
}

/// Relies on `SeedableRng::seed_from_u64` for `StdRng`: a generator whose
/// sequence of values is fixed by `seed`.
#[verifier::external_body]
pub(crate) fn seeded_rng(seed: u64) -> (r: StdRng) {
    StdRng::seed_from_u64(seed)
}

/// Relies on `Rng::gen_range` over `0..bound`: a sample that lies in the
/// half-open range (the call asserts that the range is not empty).
#[verifier::external_body]
pub(crate) fn sample_below(rng: &mut StdRng, bound: u32) -> (r: u32)
    requires
        0 < bound,
    ensures
        r < bound,
{
    rng.gen_range(0..bound)
}

} // verus!
