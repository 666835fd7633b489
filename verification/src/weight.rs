//! Selection weights: the reciprocal of the distance, in fixed point.
//!
//! A banner's fitness is the square of its distance from the target, so the
//! weight `1 / distance` is `1 / sqrt(fitness)`. It is kept as the integer
//! `floor(WEIGHT_SCALE / sqrt(fitness))`, which needs no rounding of a root:
//! it is the largest `w` with `w * w * fitness <= WEIGHT_SCALE * WEIGHT_SCALE`.

use vstd::prelude::*;

verus! {

/// The weight that stands for a reciprocal distance of one.
pub const WEIGHT_SCALE: u64 = 1_000_000_000;

/// The weight of a perfect match, whose distance is zero: as large as that of
/// a distance of `1 / WEIGHT_SCALE`.
pub const PERFECT_WEIGHT: u64 = 1_000_000_000_000_000_000;

/// `r` is the integer square root of `n`.
pub open spec fn is_root(n: nat, r: nat) -> bool {
    r * r <= n < (r + 1) * (r + 1)
}

/// `w` is the weight of the fitness `fitness`: `PERFECT_WEIGHT` for a fitness
/// of zero, and else the largest `w` with
/// `w * w * fitness <= WEIGHT_SCALE * WEIGHT_SCALE`.
pub open spec fn is_weight(fitness: nat, w: nat) -> bool {
    if fitness == 0 {
        w == PERFECT_WEIGHT
    } else {
        w * w * fitness <= PERFECT_WEIGHT < (w + 1) * (w + 1) * fitness
    }
}

/// The weight of a fitness.
pub open spec fn weight_of(fitness: nat) -> nat {
    choose|w: nat| is_weight(fitness, w)
}

/// Squaring keeps the order of natural numbers.
pub proof fn square_is_monotone(a: nat, b: nat)
    ensures
        a <= b ==> a * a <= b * b,
        a < b ==> a * a < b * b,
{
    assert(a <= b ==> a * a <= b * b) by (nonlinear_arith);
    assert(a < b ==> a * a < b * b) by (nonlinear_arith);
}

/// A fitness has at most one weight.
pub proof fn weight_is_unique(fitness: nat, v: nat, w: nat)
    requires
        is_weight(fitness, v),
        is_weight(fitness, w),
    ensures
        v == w,
{
    if fitness > 0 {
        if v < w {
            square_is_monotone(v + 1, w);
            assert((v + 1) * (v + 1) * fitness <= w * w * fitness) by (nonlinear_arith)
                requires
                    (v + 1) * (v + 1) <= w * w,
            ;
        }
        if w < v {
            square_is_monotone(w + 1, v);
            assert((w + 1) * (w + 1) * fitness <= v * v * fitness) by (nonlinear_arith)
                requires
                    (w + 1) * (w + 1) <= v * v,
            ;
        }
    }
}

/// A better fitness never has the smaller weight: the weight does not
/// increase as the fitness grows.
pub proof fn weight_is_antitone(better: nat, worse: nat, v: nat, w: nat)
    requires
        better <= worse,
        is_weight(better, v),
        is_weight(worse, w),
    ensures
        v >= w,
{
    if worse == 0 {
    } else if better == 0 {
        if w > PERFECT_WEIGHT {
            assert(w * w * worse >= w) by (nonlinear_arith)
                requires
                    w >= 1,
                    worse >= 1,
            ;
        }
    } else if v < w {
        square_is_monotone(v + 1, w);
        assert((v + 1) * (v + 1) * better <= w * w * worse) by (nonlinear_arith)
            requires
                (v + 1) * (v + 1) <= w * w,
                better <= worse,
        ;
    }
}

/// The integer square root: the largest `r` with `r * r <= n`.
pub fn isqrt(n: u64) -> (r: u64)
    ensures
        is_root(n as nat, r as nat),
        r <= 0xFFFF_FFFF,
{
    let mut lo: u64 = 0;
    let mut hi: u64 = 0x1_0000_0000;
    while hi - lo > 1
        invariant
            lo < hi <= 0x1_0000_0000,
            lo * lo <= n < hi * hi,
        decreases hi - lo,
    {
        let mid: u64 = lo + (hi - lo) / 2;
        assert(mid * mid < 0x1_0000_0000 * 0x1_0000_0000) by (nonlinear_arith)
            requires
                0 <= mid < 0x1_0000_0000,
        ;
        let square: u128 = (mid as u128) * (mid as u128);
        if square <= n as u128 {
            lo = mid;
        } else {
            hi = mid;
        }
    }
    lo
}

/// The selection weight of a fitness: `floor(WEIGHT_SCALE / sqrt(fitness))`,
/// and `PERFECT_WEIGHT` for a fitness of zero.
pub fn weight(fitness: u128) -> (w: u64)
    ensures
        is_weight(fitness as nat, w as nat),
        w == weight_of(fitness as nat),
        w <= PERFECT_WEIGHT,
{
    let w: u64 = if fitness == 0 {
        PERFECT_WEIGHT
    } else if fitness > PERFECT_WEIGHT as u128 {
        assert(is_weight(fitness as nat, 0)) by {
            assert((0 + 1) * (0 + 1) * (fitness as nat) == fitness as nat) by (nonlinear_arith);
            assert(0 * 0 * (fitness as nat) == 0) by (nonlinear_arith);
        }
        0
    } else {
        let divisor: u64 = fitness as u64;
        let quotient: u64 = PERFECT_WEIGHT / divisor;
        let root = isqrt(quotient);
        assert(is_weight(fitness as nat, root as nat)) by {
            let q = quotient as nat;
            let d = fitness as nat;
            let r = root as nat;
            let s = PERFECT_WEIGHT as nat;
            assert(q * d <= s < (q + 1) * d) by (nonlinear_arith)
                requires
                    d > 0,
                    q == s / d,
            ;
            assert(r * r * d <= q * d) by (nonlinear_arith)
                requires
                    r * r <= q,
            ;
            assert((r + 1) * (r + 1) * d >= (q + 1) * d) by (nonlinear_arith)
                requires
                    (r + 1) * (r + 1) >= q + 1,
            ;
        }
        assert(root <= PERFECT_WEIGHT);
        root
    };
    proof {
        let chosen = weight_of(fitness as nat);
        assert(is_weight(fitness as nat, w as nat));
        weight_is_unique(fitness as nat, chosen, w as nat);
    }
    w
}

} // verus!
