//! Choosing a position by weight: a threshold is walked down the weights
//! until one of them exhausts it.

use vstd::prelude::*;
use vstd::set_lib::{lemma_int_range, set_int_range};

verus! {

/// The sum of the first `n` weights.
pub open spec fn prefix_weight(weights: Seq<u64>, n: int) -> nat
    decreases n,
{
    if n <= 0 {
        0
    } else {
        prefix_weight(weights, n - 1) + weights[n - 1] as nat
    }
}

/// The sum of all weights.
pub open spec fn total_weight(weights: Seq<u64>) -> nat {
    prefix_weight(weights, weights.len() as int)
}

/// The walk from position `from` with `remaining` left of the threshold: the
/// first position whose weight exceeds what is left, each weight passed
/// being taken off; the first position of all if the weights run out.
pub open spec fn walk(weights: Seq<u64>, remaining: int, from: int) -> int
    decreases weights.len() - from,
{
    if from < 0 || from >= weights.len() {
        0
    } else if remaining < weights[from] {
        from
    } else {
        walk(weights, remaining - weights[from], from + 1)
    }
}

/// The position that `threshold` selects.
pub open spec fn selected(weights: Seq<u64>, threshold: int) -> int {
    walk(weights, threshold, 0)
}

/// The thresholds below the total weight that select position `i`.
pub open spec fn thresholds_selecting(weights: Seq<u64>, i: int) -> Set<int> {
    Set::new(|t: int| 0 <= t < total_weight(weights) && selected(weights, t) == i)
}

/// Prefix sums do not decrease, and are bounded by the weights' range.
pub proof fn prefix_weight_grows(weights: Seq<u64>, m: int, n: int)
    requires
        0 <= m <= n <= weights.len(),
    ensures
        prefix_weight(weights, m) <= prefix_weight(weights, n),
        prefix_weight(weights, n) <= n * 0xFFFF_FFFF_FFFF_FFFF,
    decreases n,
{
    if n > 0 {
        if m < n {
            prefix_weight_grows(weights, m, n - 1);
        } else {
            prefix_weight_grows(weights, n - 1, n - 1);
        }
        assert((n - 1) * 0xFFFF_FFFF_FFFF_FFFF + 0xFFFF_FFFF_FFFF_FFFF == n
            * 0xFFFF_FFFF_FFFF_FFFF) by (nonlinear_arith);
    }
}

/// Where a walk ends: at the one position whose stretch of the prefix sums
/// holds the threshold, or at the first position if the threshold is not
/// below the total.
pub proof fn walk_ends(weights: Seq<u64>, threshold: int, from: int)
    requires
        0 <= from <= weights.len(),
        prefix_weight(weights, from) <= threshold,
    ensures
        ({
            let i = walk(weights, threshold - prefix_weight(weights, from), from);
            if threshold < total_weight(weights) {
                from <= i < weights.len() && prefix_weight(weights, i) <= threshold
                    < prefix_weight(weights, i + 1)
            } else {
                i == 0
            }
        }),
    decreases weights.len() - from,
{
    let remaining = threshold - prefix_weight(weights, from);
    if from < weights.len() {
        if remaining < weights[from] {
            prefix_weight_grows(weights, from + 1, weights.len() as int);
        } else {
            walk_ends(weights, threshold, from + 1);
        }
    }
}

/// A threshold below the total selects the position whose stretch of the
/// prefix sums holds it, and no other; that position's weight is not zero.
pub proof fn selected_is_stretch(weights: Seq<u64>, threshold: int, i: int)
    requires
        0 <= threshold < total_weight(weights),
    ensures
        selected(weights, threshold) == i <==> 0 <= i < weights.len() && prefix_weight(weights, i)
            <= threshold < prefix_weight(weights, i + 1),
        selected(weights, threshold) == i ==> weights[i] > 0,
{
    walk_ends(weights, threshold, 0);
    let s = selected(weights, threshold);
    if 0 <= i < weights.len() && i != s {
        if i < s {
            prefix_weight_grows(weights, i + 1, s);
        } else {
            prefix_weight_grows(weights, s + 1, i);
        }
    }
}

/// Each position is selected by exactly as many of the thresholds below the
/// total as its weight says: under a uniform draw of the threshold, positions
/// are chosen in proportion to their weights.
pub proof fn selection_is_proportional(weights: Seq<u64>, i: int)
    requires
        0 <= i < weights.len(),
    ensures
        thresholds_selecting(weights, i).finite(),
        thresholds_selecting(weights, i).len() == weights[i],
{
    let lo = prefix_weight(weights, i) as int;
    let hi = prefix_weight(weights, i + 1) as int;
    prefix_weight_grows(weights, i + 1, weights.len() as int);
    assert forall|t: int| thresholds_selecting(weights, i).contains(t) <==> set_int_range(
        lo,
        hi,
    ).contains(t) by {
        if 0 <= t < total_weight(weights) {
            selected_is_stretch(weights, t, i);
        }
    }
    assert(thresholds_selecting(weights, i) =~= set_int_range(lo, hi));
    lemma_int_range(lo, hi);
}

/// The sum of all weights.
pub fn sum_weights(weights: &Vec<u64>) -> (total: u128)
    ensures
        total == total_weight(weights@),
{
    let mut total: u128 = 0;
    let mut i: usize = 0;
    while i < weights.len()
        invariant
            i <= weights@.len(),
            total == prefix_weight(weights@, i as int),
        decreases weights@.len() - i,
    {
        proof {
            prefix_weight_grows(weights@, i as int, i as int);
            assert(i * 0xFFFF_FFFF_FFFF_FFFF <= 0xFFFF_FFFF_FFFF_FFFF * 0xFFFF_FFFF_FFFF_FFFF)
                by (nonlinear_arith)
                requires
                    0 <= i <= 0xFFFF_FFFF_FFFF_FFFF,
            ;
        }
        total = total + weights[i] as u128;
        i += 1;
    }
    total
}

/// Walks `threshold` down the weights: each weight is taken off the
/// threshold in turn, and the first position whose weight exceeds what is
/// left is selected. If the weights run out, which happens exactly when the
/// threshold is not below their total, the first position is selected.
pub fn select_by_threshold(weights: &Vec<u64>, threshold: u128) -> (index: usize)
    requires
        weights@.len() > 0,
    ensures
        index == selected(weights@, threshold as int),
        index < weights@.len(),
        threshold < total_weight(weights@) ==> prefix_weight(weights@, index as int) <= threshold
            < prefix_weight(weights@, index + 1) && weights@[index as int] > 0,
        threshold >= total_weight(weights@) ==> index == 0,
{
    let ghost goal = selected(weights@, threshold as int);
    proof {
        walk_ends(weights@, threshold as int, 0);
        if threshold < total_weight(weights@) {
            selected_is_stretch(weights@, threshold as int, goal);
        }
    }
    let mut remaining: u128 = threshold;
    let mut i: usize = 0;
    while i < weights.len()
        invariant
            i <= weights@.len(),
            weights@.len() > 0,
            walk(weights@, remaining as int, i as int) == goal,
            goal == selected(weights@, threshold as int),
            threshold < total_weight(weights@) ==> 0 <= goal < weights@.len() && prefix_weight(
                weights@,
                goal,
            ) <= threshold < prefix_weight(weights@, goal + 1) && weights@[goal] > 0,
            threshold >= total_weight(weights@) ==> goal == 0,
        decreases weights@.len() - i,
    {
        let w = weights[i] as u128;
        if remaining < w {
            return i;
        }
        remaining = remaining - w;
        i += 1;
    }
    0
}

} // verus!
