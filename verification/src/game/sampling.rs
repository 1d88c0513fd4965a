use vstd::prelude::*;
use rand::rngs::StdRng;
use rand::seq::SliceRandom;
use rand::Rng;
use rand_distr::weighted::WeightedIndex;
use rand_distr::Distribution;

verus! {

/// The random number generator that every draw of a game takes its numbers
/// from. Nothing is known of the numbers it gives but their range.
#[verifier::external_type_specification]
#[verifier::external_body]
pub struct ExStdRng(StdRng);

/// The reason for which a list of weights is refused.
#[verifier::external_type_specification]
#[verifier::external_body]
pub struct ExWeightError(rand_distr::weighted::Error);

/// The sum of a list of weights.
pub open spec fn weight_total(weights: Seq<i32>) -> int
    decreases weights.len(),
{
    if weights.len() == 0 {
        0
    } else {
        weight_total(weights.drop_last()) + weights.last()
    }
}

/// Whether a list of weights can be drawn from: it is not empty, no weight
/// is negative, and the sum is positive and fits 32 bits.
pub open spec fn weights_usable(weights: Seq<i32>) -> bool {
    &&& weights.len() > 0
    &&& forall|i: int| 0 <= i < weights.len() ==> weights[i] >= 0
    &&& 0 < weight_total(weights) <= i32::MAX
}

/// A weighted choice among indices, kept by a `WeightedIndex<i32>` of
/// `rand_distr`. The index is hidden from the verifier as a whole: its type
/// is bound by a trait of `rand` that the verifier does not know. All that is
/// known of it is what the two methods below state of its weights.
#[verifier::external_body]
pub struct WeightedPick {
    inner: WeightedIndex<i32>,
}

/// The weights that a weighted choice was made with.
pub uninterp spec fn pick_weights(pick: WeightedPick) -> Seq<i32>;

impl WeightedPick {
    /// `WeightedIndex::new` on a list of `i32` weights. It succeeds exactly on
    /// a usable list: an empty list, a negative weight, a sum of zero and a sum
    /// beyond 32 bits are each refused. The choice keeps the weights it got.
    #[verifier::external_body]
    pub(crate) fn new(weights: &Vec<i32>) -> (r: Result<WeightedPick, rand_distr::weighted::Error>)
        ensures
            r is Ok <==> weights_usable(weights@),
            r matches Ok(pick) ==> pick_weights(pick) == weights@,
    {
        WeightedIndex::new(weights).map(|inner| WeightedPick { inner })
    }

    /// `Distribution::sample` of a `WeightedIndex<i32>`: an index into the
    /// weights, never one whose weight is zero. Which index comes is up to the
    /// generator.
    #[verifier::external_body]
    pub(crate) fn sample(&self, rng: &mut StdRng) -> (r: usize)
        ensures
            r < pick_weights(*self).len(),
            pick_weights(*self)[r as int] > 0,
    {
        self.inner.sample(rng)
    }
}

/// `Rng::random_range` on `0..bound`: some number below `bound`. An empty
/// range makes it panic, so `bound` is positive.
#[verifier::external_body]
pub(crate) fn random_below(rng: &mut StdRng, bound: usize) -> (r: usize)
    requires
        bound > 0,
    ensures
        r < bound,
{
    rng.random_range(0..bound)
}

/// `SliceRandom::shuffle`: the values are put in some other order by swaps,
/// so each value is there as often as before.
#[verifier::external_body]
pub(crate) fn shuffle(values: &mut Vec<usize>, rng: &mut StdRng)
    ensures
        final(values)@.to_multiset() == old(values)@.to_multiset(),
{
    values.shuffle(rng)
}

} // verus!
