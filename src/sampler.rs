//! The seeded coherent-noise field that height samples are drawn from.

use vstd::prelude::*;

verus! {

#[verifier::external_type_specification]
#[verifier::external_body]
pub struct ExSimplex(noise::Simplex);

/// Relies on `noise::Simplex::new`: builds the simplex field selected by `seed`. The
/// field holds no value that contracts here can speak of, so nothing is stated of it.
#[verifier::external_body]
fn simplex_field(seed: u32) -> (field: noise::Simplex) {
    noise::Simplex::new(seed)
}

/// A two-dimensional simplex noise field, seeded once and read-only afterwards.
///
/// It is built once per generation run and shared by reference between all cells of
/// a grid, instead of being seeded again for every sample.
pub struct NoiseSampler {
    seed: u32,
    field: noise::Simplex,
}

impl NoiseSampler {
    /// The seed that selected this field.
    pub closed spec fn seed_spec(&self) -> u32 {
        self.seed
    }

    /// Seeds the simplex field selected by `seed`.
    pub fn new(seed: u32) -> (sampler: NoiseSampler)
        ensures
            sampler.seed_spec() == seed,
    {
        NoiseSampler { seed, field: simplex_field(seed) }
    }

    /// The seed that selected this field.
    pub fn seed(&self) -> (seed: u32)
        ensures
            seed == self.seed_spec(),
    {
        self.seed
    }

    /// The seeded simplex field, to be evaluated at a point.
    pub fn field(&self) -> (field: &noise::Simplex) {
        &self.field
    }
}

} // verus!
