use vstd::prelude::*;
use rand::distr::Distribution;

verus! {

/// The error that `rand`'s weighted index reports for weights it cannot sample from.
#[verifier::external_type_specification]
#[verifier::external_body]
pub struct ExWeightError(rand::distr::weighted::Error);

/// The sum of a sequence of weights.
pub open spec fn weight_sum(w: Seq<i32>) -> int
    decreases w.len(),
{
    if w.len() == 0 {
        0
    } else {
        weight_sum(w.drop_last()) + w.last()
    }
}

/// Weights that a weighted random choice accepts: at least one weight, none
/// negative, a positive total that fits in an `i32`.
pub open spec fn weights_valid(w: Seq<i32>) -> bool {
    &&& w.len() > 0
    &&& forall|i: int| 0 <= i < w.len() ==> w[i] >= 0
    &&& weight_sum(w) > 0
    &&& weight_sum(w) <= i32::MAX
}

/// Calls `rand::distr::weighted::WeightedIndex::new` on the weights and, when
/// that succeeds, samples one index with the thread-local generator.
/// `new` fails exactly when the weights are empty, hold a negative weight,
/// overflow `i32` when summed or sum to zero; a sample picks an index whose
/// weight is positive (the index is found by a partition point over the
/// cumulative weights of a value drawn from `[0, total)`). Which such index
/// comes out is chance and is not stated.
#[verifier::external_body]
pub(crate) fn sample_weighted_index(weights: &Vec<i32>) -> (r: Result<usize, rand::distr::weighted::Error>)
    ensures
        r is Ok <==> weights_valid(weights@),
        r matches Ok(i) ==> i < weights@.len() && weights@[i as int] > 0,
{
    match rand::distr::weighted::WeightedIndex::new(weights.iter()) {
        Ok(d) => Ok(d.sample(&mut rand::rng())),
        Err(e) => Err(e),
    }
}

/// Calls `rand::random_range` on the half-open range `from..to`, which panics
/// on an empty range and otherwise returns a value of the range. Which one is
/// chance.
#[verifier::external_body]
pub(crate) fn random_range_i32(from: i32, to: i32) -> (r: i32)
    requires
        from < to,
    ensures
        from <= r < to,
{
    rand::random_range(from..to)
}

/// `rand::random_range` on the half-open range `from..to` of `u32` values,
/// as `random_range_i32`.
#[verifier::external_body]
pub(crate) fn random_range_u32(from: u32, to: u32) -> (r: u32)
    requires
        from < to,
    ensures
        from <= r < to,
{
    rand::random_range(from..to)
}

/// `rand::random_range` on the closed range `from..=to`, which panics when
/// `from > to` and otherwise returns a value of the range.
#[verifier::external_body]
pub(crate) fn random_range_inclusive_i32(from: i32, to: i32) -> (r: i32)
    requires
        from <= to,
    ensures
        from <= r <= to,
{
    rand::random_range(from..=to)
}

} // verus!
