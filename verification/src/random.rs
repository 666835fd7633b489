//! The random source: the thread-local generator of the `rand` crate, and the
//! few draws the search makes from it.

use rand::distributions::Distribution;
use rand::seq::SliceRandom;
use rand::Rng;
use crate::rate::Rate;
use crate::selection::total_weight;
use vstd::prelude::*;

verus! {

/// `rand::rngs::ThreadRng`, the handle to a thread's generator. Nothing is
/// known of what it holds.
#[verifier::external_type_specification]
#[verifier::external_body]
pub struct ExThreadRng(rand::rngs::ThreadRng);

/// `rand::distributions::WeightedError`, the reason why a set of weights
/// was refused.
#[verifier::external_type_specification]
#[verifier::external_body]
pub struct ExWeightedError(rand::distributions::WeightedError);

/// A table of weights prepared for repeated weighted draws: a
/// `rand::distributions::WeightedIndex` over `u64` weights. Its contents are
/// known only as `index_weights`.
#[verifier::external_body]
pub struct WeightedChoice {
    index: rand::distributions::WeightedIndex<u64>,
}

/// `rand::thread_rng`: a handle to the calling thread's generator. Nothing is
/// claimed of it.
pub assume_specification[ rand::thread_rng ]() -> (rng: rand::rngs::ThreadRng)
;

/// The weights that a weighted index was made of.
pub uninterp spec fn index_weights(choice: WeightedChoice) -> Seq<u64>;

/// A uniform draw from `0..n` with `Rng::gen_range`.
///
/// Trusted: the value drawn lies below `n`.
#[verifier::external_body]
pub(crate) fn uniform_below(rng: &mut rand::rngs::ThreadRng, n: u128) -> (drawn: u128)
    requires
        n > 0,
    ensures
        drawn < n,
{
    rng.gen_range(0..n)
}

/// A uniform draw from `0..n`, as an index. Any index below `n` can come
/// up, and no other.
pub fn draw_index(rng: &mut rand::rngs::ThreadRng, n: usize) -> (drawn: usize)
    requires
        n > 0,
    ensures
        drawn < n,
{
    uniform_below(rng, n as u128) as usize
}

/// A fair coin: an event of the rate one half, decided by one uniform draw
/// from `0..2`. Either side can come up, so nothing is promised of the result.
pub fn draw_coin(rng: &mut rand::rngs::ThreadRng) -> (heads: bool) {
    let half = Rate { num: 1, den: 2 };
    half.fires(uniform_below(rng, half.den))
}

/// A uniform random reordering with `SliceRandom::shuffle`.
///
/// Trusted: the elements are exchanged among themselves, so the vector holds
/// the same elements as before, each as often as before.
#[verifier::external_body]
pub(crate) fn shuffle<T>(items: &mut Vec<T>, rng: &mut rand::rngs::ThreadRng)
    ensures
        final(items)@.to_multiset() == old(items)@.to_multiset(),
{
    items.shuffle(rng)
}

/// Builds a weighted index with `WeightedIndex::new`.
///
/// Trusted: it fails exactly when there is no weight or all weights are zero,
/// and otherwise keeps the weights it was given.
#[verifier::external_body]
pub(crate) fn weighted_index(weights: &Vec<u64>) -> (made: Result<
    WeightedChoice,
    rand::distributions::WeightedError,
>)
    requires
        total_weight(weights@) <= u64::MAX,
    ensures
        made.is_ok() <==> total_weight(weights@) > 0,
        made matches Ok(choice) ==> index_weights(choice) == weights@,
{
    match rand::distributions::WeightedIndex::new(weights) {
        Ok(index) => Ok(WeightedChoice { index }),
        Err(e) => Err(e),
    }
}

/// Draws a position with `WeightedIndex::sample`.
///
/// Trusted: the position drawn is one of the index's weights, and that weight
/// is not zero.
#[verifier::external_body]
pub(crate) fn weighted_draw(choice: &WeightedChoice, rng: &mut rand::rngs::ThreadRng) -> (drawn:
    usize)
    ensures
        drawn < index_weights(*choice).len(),
        index_weights(*choice)[drawn as int] > 0,
{
    choice.index.sample(rng)
}

} // verus!
