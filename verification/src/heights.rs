//! The source of the random heights at which obstacle pairs are placed.

use vstd::prelude::*;
use rand::rngs::StdRng;

verus! {

/// The generator of the `rand` crate that a seed determines. Nothing is
/// known of what it holds.
#[verifier::external_type_specification]
#[verifier::external_body]
pub struct ExStdRng(StdRng);

/// A source of heights, determined by the seed it was made from.
pub struct HeightSource {
    rng: StdRng,
}

/// Calls `SeedableRng::seed_from_u64` of `rand` for its standard generator.
/// Nothing is claimed of the generator that comes back.
#[verifier::external_body]
fn generator_from_seed(seed: u64) -> StdRng {
    rand::SeedableRng::seed_from_u64(seed)
}

/// Calls `Rng::gen_range` of `rand` on the inclusive range from `low` to
/// `high`. The call panics on an empty range, so `low` may not exceed
/// `high`; what comes back lies in the range, and nothing else is claimed of
/// it or of the generator afterwards.
#[verifier::external_body]
fn sample_inclusive(rng: &mut StdRng, low: i64, high: i64) -> (h: i64)
    requires
        low <= high,
    ensures
        low <= h <= high,
{
    rand::Rng::gen_range(rng, low..=high)
}

/// Whether every member of `hs` lies between `low` and `high`.
pub open spec fn all_between(hs: Seq<i64>, low: int, high: int) -> bool {
    forall|i: int| 0 <= i < hs.len() ==> low <= #[trigger] hs[i] <= high
}

impl HeightSource {
    /// A source made from a seed. What it will give is not known here.
    pub fn seeded(seed: u64) -> HeightSource {
        HeightSource { rng: generator_from_seed(seed) }
    }

    /// One height between `low` and `high`, both included.
    pub fn draw(&mut self, low: i64, high: i64) -> (h: i64)
        requires
            low <= high,
        ensures
            low <= h <= high,
    {
        sample_inclusive(&mut self.rng, low, high)
    }

    /// `count` heights between `low` and `high`, both included, drawn one
    /// after the other.
    pub fn draw_many(&mut self, low: i64, high: i64, count: usize) -> (hs: Vec<i64>)
        requires
            low <= high,
        ensures
            hs.len() == count,
            all_between(hs@, low as int, high as int),
    {
        let mut hs: Vec<i64> = Vec::new();
        while hs.len() < count
            invariant
                low <= high,
                hs.len() <= count,
                all_between(hs@, low as int, high as int),
            decreases count - hs.len(),
        {
            let h = self.draw(low, high);
            hs.push(h);
        }
        hs
    }
}

} // verus!
