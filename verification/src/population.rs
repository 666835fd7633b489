//! A population of banners measured against one target: seeding, evaluation,
//! and the two ways of selecting from it.

use crate::banner::{composite, layer_ok, Banner, Design, Layer, MAX_LAYERS};
use crate::palette::{palette, palette_color, Color};
use crate::random::{
    draw_index,
    index_weights,
    uniform_below,
    weighted_draw,
    weighted_index,
    WeightedChoice,
};
use crate::raster::{sq_distance, Raster};
use crate::rate::Rate;
use crate::selection::{
    prefix_weight,
    select_by_threshold,
    selected,
    sum_weights,
    total_weight,
};
use crate::texture_buffer::TextureBuffer;
use crate::weight::{weight, weight_of, PERFECT_WEIGHT};
use rayon::iter::{
    IntoParallelIterator,
    IntoParallelRefMutIterator,
    ParallelIterator,
};
use vstd::prelude::*;

verus! {

/// A collection of banners that share one texture cache, and the target they
/// are measured against.
pub struct Population<'a> {
    pub banners: Vec<Banner<'a>>,
    pub target: &'a Raster,
    pub texture_buffer: &'a TextureBuffer,
}

/// The fitness of the banner at position `i`.
pub open spec fn fitness_at<'a>(banners: Seq<Banner<'a>>, i: int) -> u128 {
    match banners[i].fitness {
        Some(f) => f,
        None => 0,
    }
}

/// The selection weights of the banners, by position.
pub open spec fn weights_of<'a>(banners: Seq<Banner<'a>>) -> Seq<u64> {
    Seq::new(banners.len(), |i: int| weight_of(fitness_at(banners, i) as nat) as u64)
}

/// `order` lists every position of `banners` once, by fitness, lowest first.
pub open spec fn is_ranking<'a>(banners: Seq<Banner<'a>>, order: Seq<usize>) -> bool {
    &&& order.len() == banners.len()
    &&& forall|k: int| 0 <= k < order.len() ==> #[trigger] order[k] < banners.len()
    &&& forall|a: int, b: int|
        0 <= a < b < order.len() ==> #[trigger] order[a] != #[trigger] order[b]
    &&& forall|m: usize| m < banners.len() ==> #[trigger] order.contains(m)
    &&& forall|a: int, b: int|
        0 <= a <= b < order.len() ==> fitness_at(banners, #[trigger] order[a] as int)
            <= fitness_at(banners, #[trigger] order[b] as int)
}

/// `elite` holds copies of the `elite.len()` first banners of the ranking
/// `order`.
pub open spec fn is_elite<'a>(elite: Seq<Banner<'a>>, banners: Seq<Banner<'a>>, order: Seq<usize>)
    -> bool {
    &&& is_ranking(banners, order)
    &&& elite.len() <= banners.len()
    &&& forall|k: int|
        0 <= k < elite.len() ==> (#[trigger] elite[k]).same_as(&banners[order[k] as int])
}

/// The squared distance from `target` of the design that has the base color
/// `color` and no layer.
pub open spec fn solo_distance(cache: TextureBuffer, target: Raster, color: Color) -> nat {
    sq_distance(composite(cache, color, Seq::empty()), target.data@)
}

/// The weights by which colors are drawn when a population is seeded: for
/// each palette color, the weight of its solo distance.
pub open spec fn seed_weights(cache: TextureBuffer, target: Raster) -> Seq<u64> {
    Seq::new(16, |c: int| weight_of(solo_distance(cache, target, palette()[c])) as u64)
}

/// `color` is a palette color whose seed weight is not zero.
pub open spec fn is_seed_color(cache: TextureBuffer, target: Raster, color: Color) -> bool {
    exists|c: int|
        0 <= c < 16 && palette()[c] == color && #[trigger] seed_weights(cache, target)[c] > 0
}

impl Design {
    /// Every color of this design has a seed weight that is not zero.
    pub open spec fn seeded(self, cache: TextureBuffer, target: Raster) -> bool {
        &&& is_seed_color(cache, target, self.base_color)
        &&& forall|i: int|
            0 <= i < self.layers.len() ==> is_seed_color(
                cache,
                target,
                (#[trigger] self.layers[i]).color,
            )
    }
}

/// Weights that are each at most `bound` sum to at most `bound` times their
/// number.
pub proof fn prefix_weight_bounded(weights: Seq<u64>, n: int, bound: nat)
    requires
        0 <= n <= weights.len(),
        forall|i: int| 0 <= i < weights.len() ==> #[trigger] weights[i] <= bound,
    ensures
        prefix_weight(weights, n) <= n * bound,
    decreases n,
{
    if n > 0 {
        prefix_weight_bounded(weights, n - 1, bound);
        assert((n - 1) * bound + bound == n * bound) by (nonlinear_arith);
    }
}

/// Evaluates every banner against `target`, in parallel, with rayon's
/// `par_iter_mut` and `for_each`.
///
/// Trusted: each banner is replaced by what `Banner::calculate_fitness`
/// makes of it, and the vector keeps its length and order.
#[verifier::external_body]
fn evaluate_all<'a>(banners: &mut Vec<Banner<'a>>, target: &Raster)
    requires
        target.wf(),
        forall|i: int|
            0 <= i < old(banners)@.len() ==> (#[trigger] old(banners)@[i]).wf() && target.width
                == old(banners)@[i].texture_buffer.width && target.height == old(banners)@[i].texture_buffer.height,
    ensures
        final(banners)@.len() == old(banners)@.len(),
        forall|i: int|
            0 <= i < old(banners)@.len() ==> (#[trigger] final(banners)@[i]).evaluation_of(
                &old(banners)@[i],
                target,
            ),
{
    banners.par_iter_mut().for_each(|banner| banner.calculate_fitness(target));
}

/// Breeds one child for each member of the population, in parallel, with
/// rayon's `into_par_iter`, `map` and `collect`.
///
/// Trusted: the result holds as many banners as the population, each of them
/// one result of `Population::breed`.
#[verifier::external_body]
fn breed_all<'a>(population: &Population<'a>, rate: Rate) -> (children: Vec<Banner<'a>>)
    requires
        population.wf(),
        population.all_evaluated(),
        population.banners@.len() > 0,
        rate.wf(),
    ensures
        children@.len() == population.banners@.len(),
        forall|i: int|
            0 <= i < children@.len() ==> population.is_offspring(&#[trigger] children@[i], rate),
{
    (0..population.banners.len()).into_par_iter().map(|_| population.breed(rate)).collect()
}

impl<'a> Population<'a> {
    /// Cache and target are well formed and of one size, and every banner is
    /// valid for the cache.
    pub open spec fn wf(&self) -> bool {
        &&& self.texture_buffer.wf()
        &&& self.target.wf()
        &&& self.target.width == self.texture_buffer.width
        &&& self.target.height == self.texture_buffer.height
        &&& forall|i: int|
            0 <= i < self.banners@.len() ==> (#[trigger] self.banners@[i]).wf()
                && self.banners@[i].texture_buffer == self.texture_buffer
    }

    /// Every banner has a fitness.
    pub open spec fn all_evaluated(&self) -> bool {
        forall|i: int| 0 <= i < self.banners@.len() ==> (#[trigger] self.banners@[i]).fitness.is_some()
    }

    /// Every banner is rendered and measured against the target.
    pub open spec fn all_measured(&self) -> bool {
        forall|i: int|
            0 <= i < self.banners@.len() ==> (#[trigger] self.banners@[i]).measured_against(
                self.target,
            )
    }

    /// The banner at position `i` can come out of a selection by weight: its
    /// weight is not zero, or all weights are zero and it is the first.
    pub open spec fn can_be_selected(&self, i: int) -> bool {
        &&& 0 <= i < self.banners@.len()
        &&& if total_weight(weights_of(self.banners@)) == 0 {
            i == 0
        } else {
            weights_of(self.banners@)[i] > 0
        }
    }

    /// `crossed` is a child of two banners that can be selected.
    pub open spec fn is_crossing(&self, crossed: Design) -> bool {
        exists|i: int, j: int|
            #![trigger self.can_be_selected(i), self.can_be_selected(j)]
            self.can_be_selected(i) && self.can_be_selected(j) && crossed.crossed_from(
                self.banners@[i]@,
                self.banners@[j]@,
            )
    }

    /// `child` can be bred from this population at the rate `rate`: it is
    /// the child of two banners that can be selected, either as it is or
    /// after one mutation; as it is if the rate is zero, and mutated if the
    /// rate is one or more. It is valid, rendered, and not yet evaluated.
    pub open spec fn is_offspring(&self, child: &Banner<'a>, rate: Rate) -> bool {
        &&& child.wf()
        &&& child.texture_buffer == self.texture_buffer
        &&& child.is_rendered()
        &&& child.fitness.is_none()
        &&& exists|crossed: Design|
            #[trigger] self.is_crossing(crossed) && (child@ == crossed || child@.mutated_from(
                crossed,
                *self.texture_buffer,
            )) && (rate.num == 0 ==> child@ == crossed) && (rate.num >= rate.den
                ==> child@.mutated_from(crossed, *self.texture_buffer))
    }

    /// This population is `before` after evaluation: the same banners, each
    /// rendered and measured against the target.
    pub open spec fn evaluation_of(&self, before: &Population<'a>) -> bool {
        &&& self.target == before.target
        &&& self.texture_buffer == before.texture_buffer
        &&& self.banners@.len() == before.banners@.len()
        &&& forall|i: int|
            0 <= i < self.banners@.len() ==> (#[trigger] self.banners@[i]).evaluation_of(
                &before.banners@[i],
                self.target,
            )
    }

    /// This population is a generation bred from `before` at the rate
    /// `rate`, and evaluated: as many banners, each the evaluation of a banner
    /// that can be bred from `before`.
    pub open spec fn bred_from(&self, before: &Population<'a>, rate: Rate) -> bool {
        &&& self.target == before.target
        &&& self.texture_buffer == before.texture_buffer
        &&& self.banners@.len() == before.banners@.len()
        &&& forall|i: int|
            0 <= i < self.banners@.len() ==> exists|child: Banner<'a>|
                before.is_offspring(&child, rate) && (#[trigger] self.banners@[i]).evaluation_of(
                    &child,
                    self.target,
                )
    }

    /// The solo distance of each palette color: the squared distance from
    /// the target of the banner that has this base color and no layer.
    pub fn evaluate_base_colors(texture_buffer: &'a TextureBuffer, target: &Raster) -> (distances:
        Vec<u128>)
        requires
            texture_buffer.wf(),
            target.wf(),
            target.width == texture_buffer.width,
            target.height == texture_buffer.height,
        ensures
            distances@.len() == 16,
            forall|c: int|
                0 <= c < 16 ==> #[trigger] distances@[c] == solo_distance(
                    *texture_buffer,
                    *target,
                    palette()[c],
                ),
    {
        let mut distances: Vec<u128> = Vec::new();
        let mut c: usize = 0;
        while c < 16
            invariant
                c <= 16,
                distances@.len() == c,
                texture_buffer.wf(),
                target.wf(),
                target.width == texture_buffer.width,
                target.height == texture_buffer.height,
                forall|k: int|
                    0 <= k < c ==> #[trigger] distances@[k] == solo_distance(
                        *texture_buffer,
                        *target,
                        palette()[k],
                    ),
            decreases 16 - c,
        {
            let color = palette_color(c);
            let mut banner = Banner::new(color, Vec::new(), texture_buffer);
            assert(banner@.layers =~= Seq::empty());
            banner.calculate_fitness(target);
            match banner.fitness {
                Some(distance) => distances.push(distance),
                None => {},
            }
            c += 1;
        }
        distances
    }

    /// The table by which seed colors are drawn: the weight of each palette
    /// color's solo distance. `None` if every weight is zero.
    fn seed_table(texture_buffer: &'a TextureBuffer, target: &Raster) -> (table: Option<
        WeightedChoice,
    >)
        requires
            texture_buffer.wf(),
            target.wf(),
            target.width == texture_buffer.width,
            target.height == texture_buffer.height,
        ensures
            table.is_some() <==> total_weight(seed_weights(*texture_buffer, *target)) > 0,
            table matches Some(choice) ==> index_weights(choice) == seed_weights(
                *texture_buffer,
                *target,
            ),
    {
        let distances = Self::evaluate_base_colors(texture_buffer, target);
        let mut weights: Vec<u64> = Vec::new();
        let mut c: usize = 0;
        while c < 16
            invariant
                c <= 16,
                distances@.len() == 16,
                weights@.len() == c,
                forall|k: int|
                    0 <= k < 16 ==> #[trigger] distances@[k] == solo_distance(
                        *texture_buffer,
                        *target,
                        palette()[k],
                    ),
                forall|k: int|
                    0 <= k < c ==> #[trigger] weights@[k] == weight_of(distances@[k] as nat)
                        && weights@[k] <= PERFECT_WEIGHT,
            decreases 16 - c,
        {
            weights.push(weight(distances[c]));
            c += 1;
        }
        proof {
            assert(weights@ =~= seed_weights(*texture_buffer, *target));
            prefix_weight_bounded(weights@, 16, PERFECT_WEIGHT as nat);
        }
        match weighted_index(&weights) {
            Ok(choice) => Some(choice),
            Err(_) => None,
        }
    }

    /// Draws a seed color: by the table's weights, or uniformly if there is
    /// no table.
    fn draw_seed_color(table: &Option<WeightedChoice>, rng: &mut rand::rngs::ThreadRng) -> (c:
        usize)
        requires
            table matches Some(choice) ==> index_weights(*choice).len() == 16,
        ensures
            c < 16,
            table matches Some(choice) ==> index_weights(*choice)[c as int] > 0,
    {
        match table {
            Some(choice) => weighted_draw(choice, rng),
            None => draw_index(rng, 16),
        }
    }

    /// Seeds a population of `size` banners. Each gets zero to six layers,
    /// the number drawn uniformly, each layer on a uniformly drawn texture.
    /// Colors are drawn with the weight of their solo distance from the
    /// target, so that no color of weight zero is drawn; if every color has
    /// weight zero, they are drawn uniformly. The weights are computed once.
    pub fn new(texture_buffer: &'a TextureBuffer, target: &'a Raster, size: usize) -> (population:
        Self)
        requires
            texture_buffer.wf(),
            target.wf(),
            target.width == texture_buffer.width,
            target.height == texture_buffer.height,
        ensures
            population.banners@.len() == size,
            population.target == target,
            population.texture_buffer == texture_buffer,
            population.wf(),
            forall|i: int|
                0 <= i < size ==> (#[trigger] population.banners@[i]).is_rendered()
                    && population.banners@[i].fitness.is_none(),
            total_weight(seed_weights(*texture_buffer, *target)) > 0 ==> forall|i: int|
                0 <= i < size ==> (#[trigger] population.banners@[i])@.seeded(
                    *texture_buffer,
                    *target,
                ),
    {
        let table = Self::seed_table(texture_buffer, target);
        let ghost seeds = seed_weights(*texture_buffer, *target);
        let mut rng = rand::thread_rng();
        let mut banners: Vec<Banner<'a>> = Vec::new();
        let mut made: usize = 0;
        while made < size
            invariant
                made <= size,
                banners@.len() == made,
                texture_buffer.wf(),
                seeds == seed_weights(*texture_buffer, *target),
                table.is_some() <==> total_weight(seeds) > 0,
                table matches Some(choice) ==> index_weights(choice) == seeds,
                forall|i: int|
                    0 <= i < made ==> (#[trigger] banners@[i]).wf() && banners@[i].texture_buffer
                        == texture_buffer && banners@[i].is_rendered()
                        && banners@[i].fitness.is_none(),
                total_weight(seeds) > 0 ==> forall|i: int|
                    0 <= i < made ==> (#[trigger] banners@[i])@.seeded(*texture_buffer, *target),
            decreases size - made,
        {
            let count = draw_index(&mut rng, MAX_LAYERS + 1);
            let mut layers: Vec<Layer> = Vec::new();
            while layers.len() < count
                invariant
                    count <= MAX_LAYERS,
                    layers@.len() <= count,
                    texture_buffer.wf(),
                    seeds == seed_weights(*texture_buffer, *target),
                    table matches Some(choice) ==> index_weights(choice) == seeds,
                    forall|k: int|
                        0 <= k < layers@.len() ==> layer_ok(*texture_buffer, #[trigger] layers@[k]),
                    table.is_some() ==> forall|k: int|
                        0 <= k < layers@.len() ==> is_seed_color(
                            *texture_buffer,
                            *target,
                            (#[trigger] layers@[k]).color,
                        ),
                decreases count - layers@.len(),
            {
                let c = Self::draw_seed_color(&table, &mut rng);
                let color = palette_color(c);
                let texture = draw_index(&mut rng, texture_buffer.len());
                proof {
                    if table.is_some() {
                        assert(seeds[c as int] > 0);
                    }
                }
                layers.push(Layer { color, texture });
            }
            let c = Self::draw_seed_color(&table, &mut rng);
            let base_color = palette_color(c);
            proof {
                if table.is_some() {
                    assert(seeds[c as int] > 0);
                }
            }
            let banner = Banner::new(base_color, layers, texture_buffer);
            banners.push(banner);
            made += 1;
        }
        Population { banners, target, texture_buffer }
    }

    /// Evaluates every banner against the target. The banners are
    /// independent of each other, and are evaluated in parallel.
    pub fn calculate_fitness(&mut self)
        requires
            old(self).wf(),
        ensures
            final(self).evaluation_of(old(self)),
            final(self).wf(),
            final(self).all_measured(),
            final(self).all_evaluated(),
    {
        evaluate_all(&mut self.banners, self.target);
    }

    /// The fitness of the banner at position `i`.
    fn fitness_value(&self, i: usize) -> (f: u128)
        requires
            i < self.banners@.len(),
        ensures
            f == fitness_at(self.banners@, i as int),
    {
        match self.banners[i].fitness {
            Some(f) => f,
            None => 0,
        }
    }

    /// Ranks the banners by fitness, lowest first; of two banners of one
    /// fitness, the one at the earlier position comes first.
    fn rank(&self) -> (order: Vec<usize>)
        ensures
            is_ranking(self.banners@, order@),
    {
        let n = self.banners.len();
        let mut order: Vec<usize> = Vec::new();
        let mut i: usize = 0;
        while i < n
            invariant
                i <= n,
                n == self.banners@.len(),
                order@.len() == i,
                forall|k: int| 0 <= k < order@.len() ==> #[trigger] order@[k] < i,
                forall|a: int, b: int|
                    0 <= a < b < order@.len() ==> #[trigger] order@[a] != #[trigger] order@[b],
                forall|m: usize| m < i ==> #[trigger] order@.contains(m),
                forall|a: int, b: int|
                    0 <= a <= b < order@.len() ==> fitness_at(
                        self.banners@,
                        #[trigger] order@[a] as int,
                    ) <= fitness_at(self.banners@, #[trigger] order@[b] as int),
            decreases n - i,
        {
            let key = self.fitness_value(i);
            let mut p: usize = order.len();
            while p > 0 && self.fitness_value(order[p - 1]) > key
                invariant
                    p <= order@.len(),
                    i < n,
                    n == self.banners@.len(),
                    key == fitness_at(self.banners@, i as int),
                    forall|k: int| 0 <= k < order@.len() ==> #[trigger] order@[k] < i,
                    forall|k: int|
                        p <= k < order@.len() ==> fitness_at(
                            self.banners@,
                            #[trigger] order@[k] as int,
                        ) > key,
                decreases p,
            {
                p -= 1;
            }
            let ghost before = order@;
            order.insert(p, i);
            proof {
                let after = order@;
                assert forall|k: int| 0 <= k < after.len() implies #[trigger] after[k] < i + 1 by {
                    if k < p {
                        assert(after[k] == before[k]);
                    } else if k > p {
                        assert(after[k] == before[k - 1]);
                    }
                }
                assert forall|a: int, b: int| 0 <= a < b < after.len() implies #[trigger] after[a]
                    != #[trigger] after[b] by {
                    let ea = if a < p {
                        a
                    } else {
                        a - 1
                    };
                    let eb = if b < p {
                        b
                    } else {
                        b - 1
                    };
                    if a != p && b != p {
                        assert(after[a] == before[ea] && after[b] == before[eb]);
                    } else if a == p {
                        assert(after[b] == before[eb]);
                    } else {
                        assert(after[a] == before[ea]);
                    }
                }
                assert forall|m: usize| m < i + 1 implies #[trigger] after.contains(m) by {
                    if m == i {
                        assert(after[p as int] == m);
                    } else {
                        assert(before.contains(m));
                        let j = choose|j: int| 0 <= j < before.len() && before[j] == m;
                        if j < p {
                            assert(after[j] == m);
                        } else {
                            assert(after[j + 1] == m);
                        }
                    }
                }
                assert forall|a: int, b: int| 0 <= a <= b < after.len() implies fitness_at(
                    self.banners@,
                    #[trigger] after[a] as int,
                ) <= fitness_at(self.banners@, #[trigger] after[b] as int) by {
                    let ea = if a < p {
                        a
                    } else {
                        a - 1
                    };
                    let eb = if b < p {
                        b
                    } else {
                        b - 1
                    };
                    if a != p {
                        assert(after[a] == before[ea]);
                    }
                    if b != p {
                        assert(after[b] == before[eb]);
                    }
                    if p > 0 && a < p {
                        assert(fitness_at(self.banners@, before[ea] as int) <= fitness_at(
                            self.banners@,
                            before[p - 1] as int,
                        ));
                    }
                }
            }
            i += 1;
        }
        order
    }

    /// Copies of the `count` banners of lowest fitness, best first; all
    /// banners, if there are fewer than `count`. The population is not
    /// changed.
    pub fn elitist_selection(&self, count: usize) -> (elite: Vec<Banner<'a>>)
        requires
            self.all_evaluated(),
        ensures
            elite@.len() == if count <= self.banners@.len() {
                count as int
            } else {
                self.banners@.len() as int
            },
            exists|order: Seq<usize>| is_elite(elite@, self.banners@, order),
            forall|a: int, b: int|
                0 <= a <= b < elite@.len() ==> fitness_at(elite@, a) <= fitness_at(elite@, b),
            forall|k: int| 0 <= k < elite@.len() ==> (#[trigger] elite@[k]).fitness.is_some(),
            elite@.len() > 0 ==> forall|i: int|
                0 <= i < self.banners@.len() ==> fitness_at(elite@, 0) <= fitness_at(
                    self.banners@,
                    i,
                ),
    {
        let order = self.rank();
        let n = self.banners.len();
        let wanted = if count <= n {
            count
        } else {
            n
        };
        let mut elite: Vec<Banner<'a>> = Vec::new();
        let mut k: usize = 0;
        while k < wanted
            invariant
                k <= wanted <= n,
                n == self.banners@.len(),
                elite@.len() == k,
                is_ranking(self.banners@, order@),
                forall|j: int|
                    0 <= j < k ==> (#[trigger] elite@[j]).same_as(&self.banners@[order@[j] as int]),
            decreases wanted - k,
        {
            let at = order[k];
            elite.push(self.banners[at].clone());
            k += 1;
        }
        proof {
            assert(is_elite(elite@, self.banners@, order@));
            assert forall|a: int, b: int| 0 <= a <= b < elite@.len() implies fitness_at(elite@, a)
                <= fitness_at(elite@, b) by {
                assert(elite@[a].same_as(&self.banners@[order@[a] as int]));
                assert(elite@[b].same_as(&self.banners@[order@[b] as int]));
            }
            assert forall|j: int| 0 <= j < elite@.len() implies (#[trigger] elite@[j]).fitness.is_some() by {
                assert(elite@[j].same_as(&self.banners@[order@[j] as int]));
                assert(self.banners@[order@[j] as int].fitness.is_some());
            }
            if elite@.len() > 0 {
                assert forall|i: int| 0 <= i < self.banners@.len() implies fitness_at(elite@, 0)
                    <= fitness_at(self.banners@, i) by {
                    assert(elite@[0].same_as(&self.banners@[order@[0] as int]));
                    assert(order@.contains(i as usize));
                    let j = choose|j: int| 0 <= j < order@.len() && order@[j] == i as usize;
                    assert(fitness_at(self.banners@, order@[0] as int) <= fitness_at(
                        self.banners@,
                        order@[j] as int,
                    ));
                }
            }
        }
        elite
    }

    /// The selection weight of each banner, by position: the fixed-point
    /// reciprocal of its distance from the target.
    pub fn selection_weights(&self) -> (weights: Vec<u64>)
        requires
            self.all_evaluated(),
        ensures
            weights@ == weights_of(self.banners@),
    {
        let n = self.banners.len();
        let mut weights: Vec<u64> = Vec::new();
        let mut i: usize = 0;
        while i < n
            invariant
                i <= n,
                n == self.banners@.len(),
                weights@.len() == i,
                forall|k: int|
                    0 <= k < i ==> #[trigger] weights@[k] == weight_of(
                        fitness_at(self.banners@, k) as nat,
                    ),
            decreases n - i,
        {
            weights.push(weight(self.fitness_value(i)));
            i += 1;
        }
        assert(weights@ =~= weights_of(self.banners@));
        weights
    }

    /// The banner that `threshold` selects: the banners' weights are taken
    /// off the threshold in turn, and the first banner whose weight exceeds
    /// what is left is selected; the first banner of all if the weights run
    /// out.
    pub fn select_with_threshold(&self, threshold: u128) -> (chosen: &Banner<'a>)
        requires
            self.all_evaluated(),
            self.banners@.len() > 0,
        ensures
            0 <= selected(weights_of(self.banners@), threshold as int) < self.banners@.len(),
            *chosen == self.banners@[selected(weights_of(self.banners@), threshold as int)],
    {
        let weights = self.selection_weights();
        let at = select_by_threshold(&weights, threshold);
        &self.banners[at]
    }

    /// Selects a banner with a probability in proportion to its weight, the
    /// reciprocal of its distance: a threshold is drawn uniformly below the
    /// total weight and walked down the weights. No banner of weight zero is
    /// selected, unless every weight is zero: then the first banner is.
    pub fn fitness_proportionate_selection(&self) -> (chosen: &Banner<'a>)
        requires
            self.all_evaluated(),
            self.banners@.len() > 0,
        ensures
            exists|i: int| #[trigger] self.can_be_selected(i) && *chosen == self.banners@[i],
    {
        let weights = self.selection_weights();
        let total = sum_weights(&weights);
        if total == 0 {
            assert(self.can_be_selected(0));
            &self.banners[0]
        } else {
            let mut rng = rand::thread_rng();
            let threshold = uniform_below(&mut rng, total);
            let at = select_by_threshold(&weights, threshold);
            assert(self.can_be_selected(at as int));
            &self.banners[at]
        }
    }

    /// Breeds one child: two parents are selected in proportion to their
    /// weights, independently of each other, and crossed, and the child is
    /// mutated at the given rate.
    pub fn breed(&self, rate: Rate) -> (child: Banner<'a>)
        requires
            self.wf(),
            self.all_evaluated(),
            self.banners@.len() > 0,
            rate.wf(),
        ensures
            self.is_offspring(&child, rate),
            child.layers@.len() <= MAX_LAYERS,
    {
        let mut rng = rand::thread_rng();
        let first = self.fitness_proportionate_selection();
        let second = self.fitness_proportionate_selection();
        let ghost i = choose|i: int| #[trigger] self.can_be_selected(i) && *first == self.banners@[i];
        let ghost j = choose|j: int|
            #[trigger] self.can_be_selected(j) && *second == self.banners@[j];
        let mut child = first.crossover(second, &mut rng);
        let ghost crossed = child@;
        assert(self.is_crossing(crossed)) by {
            assert(crossed.crossed_from(self.banners@[i]@, self.banners@[j]@));
        }
        child.mutate(rate, &mut rng);
        child
    }

    /// Breeds a new generation: one child for each member, each bred
    /// independently of the others, in parallel.
    pub fn reproduce(&self, rate: Rate) -> (children: Vec<Banner<'a>>)
        requires
            self.wf(),
            self.all_evaluated(),
            self.banners@.len() > 0,
            rate.wf(),
        ensures
            children@.len() == self.banners@.len(),
            forall|i: int|
                0 <= i < children@.len() ==> self.is_offspring(&#[trigger] children@[i], rate),
    {
        breed_all(self, rate)
    }
}

} // verus!
