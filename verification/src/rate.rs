//! Probabilities as exact ratios, and the linear decay of the mutation rate.

use vstd::prelude::*;

verus! {

/// The probability `num / den`. A ratio above one stands for certainty.
#[derive(Clone, Copy, Debug)]
pub struct Rate {
    pub num: u128,
    pub den: u128,
}

impl Rate {
    /// The denominator is not zero.
    pub open spec fn wf(&self) -> bool {
        self.den > 0
    }

    /// Both parts fit in 64 bits, which leaves room to scale the rate by a
    /// generation count.
    pub open spec fn narrow(&self) -> bool {
        self.num <= u64::MAX && self.den <= u64::MAX
    }

    /// This rate scaled by `1 - generation / generations`.
    pub open spec fn decayed_spec(&self, generation: usize, generations: usize) -> Rate {
        Rate {
            num: (self.num * (generations - generation)) as u128,
            den: (self.den * generations) as u128,
        }
    }

    /// Whether an event of this rate happens, given a uniform draw from
    /// `0..den`.
    pub open spec fn fires_spec(&self, drawn: u128) -> bool {
        drawn < self.num
    }

    /// The rate `num / den`: `Some` exactly when `den` is not zero.
    pub fn new(num: u64, den: u64) -> (made: Option<Rate>)
        ensures
            made.is_some() <==> den > 0,
            made matches Some(rate) ==> rate.num == num && rate.den == den && rate.wf()
                && rate.narrow(),
    {
        if den == 0 {
            None
        } else {
            Some(Rate { num: num as u128, den: den as u128 })
        }
    }

    /// The rate of generation `generation` out of `generations`: this rate
    /// times `1 - generation / generations`, exactly.
    pub fn decayed(&self, generation: usize, generations: usize) -> (rate: Rate)
        requires
            self.wf(),
            self.narrow(),
            generation <= generations,
            generations > 0,
        ensures
            rate == self.decayed_spec(generation, generations),
            rate.num == self.num * (generations - generation),
            rate.den == self.den * generations,
            rate.wf(),
    {
        let left: u128 = (generations - generation) as u128;
        let all: u128 = generations as u128;
        assert(self.num * left <= 0xFFFF_FFFF_FFFF_FFFF * 0xFFFF_FFFF_FFFF_FFFF) by (nonlinear_arith)
            requires
                0 <= self.num <= 0xFFFF_FFFF_FFFF_FFFF,
                0 <= left <= 0xFFFF_FFFF_FFFF_FFFF,
        ;
        assert(self.den * all <= 0xFFFF_FFFF_FFFF_FFFF * 0xFFFF_FFFF_FFFF_FFFF) by (nonlinear_arith)
            requires
                0 <= self.den <= 0xFFFF_FFFF_FFFF_FFFF,
                0 <= all <= 0xFFFF_FFFF_FFFF_FFFF,
        ;
        assert(self.den * all > 0) by (nonlinear_arith)
            requires
                self.den > 0,
                all > 0,
        ;
        Rate { num: self.num * left, den: self.den * all }
    }

    /// Decides whether an event of this rate happens, given a uniform draw
    /// from `0..den`: it does for `num` of the `den` possible draws.
    pub fn fires(&self, drawn: u128) -> (fired: bool)
        ensures
            fired == self.fires_spec(drawn),
    {
        drawn < self.num
    }
}

/// The decayed rate starts at the initial rate, never rises from one
/// generation to the next, and is zero once all generations have passed.
pub proof fn decay_is_linear(initial: Rate, generation: usize, generations: usize)
    requires
        initial.wf(),
        initial.narrow(),
        generation < generations,
    ensures
        ({
            let first = initial.decayed_spec(0, generations);
            first.num * initial.den == initial.num * first.den
        }),
        ({
            let now = initial.decayed_spec(generation, generations);
            let next = initial.decayed_spec((generation + 1) as usize, generations);
            next.den == now.den && next.num <= now.num && now.num - next.num == initial.num
        }),
        initial.decayed_spec(generations, generations).num == 0,
{
    let p = initial.num as int;
    let q = initial.den as int;
    let g = generation as int;
    let n = generations as int;
    assert(0 <= p * n <= 0xFFFF_FFFF_FFFF_FFFF * 0xFFFF_FFFF_FFFF_FFFF) by (nonlinear_arith)
        requires
            0 <= p <= 0xFFFF_FFFF_FFFF_FFFF,
            0 <= n <= 0xFFFF_FFFF_FFFF_FFFF,
    ;
    assert(0 <= q * n <= 0xFFFF_FFFF_FFFF_FFFF * 0xFFFF_FFFF_FFFF_FFFF) by (nonlinear_arith)
        requires
            0 <= q <= 0xFFFF_FFFF_FFFF_FFFF,
            0 <= n <= 0xFFFF_FFFF_FFFF_FFFF,
    ;
    assert(0 <= p * (n - g) <= p * n && 0 <= p * (n - (g + 1)) && p * (n - g) - p * (n - (g + 1))
        == p) by (nonlinear_arith)
        requires
            0 <= p,
            0 <= g < n,
    ;
    assert((p * n) * q == p * (q * n)) by (nonlinear_arith);
    assert(p * (n - n) == 0) by (nonlinear_arith);
}

} // verus!
