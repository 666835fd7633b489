//! The generation loop: evaluate, remember the best banner seen, breed the
//! next generation, replace.

use crate::banner::Banner;
use crate::population::{fitness_at, Population};
use crate::raster::Raster;
use crate::rate::Rate;
use crate::texture_buffer::TextureBuffer;
use vstd::prelude::*;

verus! {

/// A genetic search: the working population, the best banner seen in any
/// generation so far, and the mutation rate that the first generation is bred
/// at.
pub struct GA<'a> {
    pub population: Population<'a>,
    pub best_individual: Option<Banner<'a>>,
    pub initial_mutation_rate: Rate,
    /// How many generations the last run has bred.
    pub generation: usize,
}

/// The fitness of a banner, if it has one.
pub open spec fn fitness_of<'a>(banner: Option<Banner<'a>>) -> Option<u128> {
    match banner {
        Some(b) => b.fitness,
        None => None,
    }
}

/// `fitness` is at most the fitness of every banner.
pub open spec fn at_most_all<'a>(fitness: u128, banners: Seq<Banner<'a>>) -> bool {
    forall|i: int| 0 <= i < banners.len() ==> fitness <= fitness_at(banners, i)
}

/// What remembering the best of `banners` makes of the best banner seen
/// `before`: it stays if there is one and no banner is strictly better, and
/// else gives way to a copy of a banner that no other is better than.
pub open spec fn is_best_of<'a>(
    best: Banner<'a>,
    before: Option<Banner<'a>>,
    banners: Seq<Banner<'a>>,
) -> bool {
    match (best.fitness, before) {
        (Some(f), Some(b)) => {
            &&& at_most_all(f, banners)
            &&& b.fitness matches Some(o) && f <= o && if at_most_all(o, banners) {
                best.same_as(&b)
            } else {
                a_copy_of(best, banners)
            }
        },
        (Some(f), None) => at_most_all(f, banners) && a_copy_of(best, banners),
        (None, _) => false,
    }
}

/// `best` is a copy of one of the banners.
pub open spec fn a_copy_of<'a>(best: Banner<'a>, banners: Seq<Banner<'a>>) -> bool {
    exists|i: int| 0 <= i < banners.len() && best.same_as(&#[trigger] banners[i])
}

/// The course of a run: the evaluated population of each generation, the
/// seeded one first, and the best banner seen once each was evaluated.
pub struct Trace<'a> {
    pub populations: Seq<Population<'a>>,
    pub bests: Seq<Banner<'a>>,
}

/// `trace` is a course that a run of `generations` generations can take from
/// the state `before` to the state `after`. Its first population is that of
/// `before`, evaluated; each further population is bred from the one before
/// it, at the initial rate scaled by `1 - generation / generations`, and
/// evaluated. After each evaluation the best banner of the population is
/// remembered if it is strictly better than the best seen. The last
/// population and the last best banner are those of `after`.
pub open spec fn is_run<'a>(before: GA<'a>, after: GA<'a>, generations: usize, trace: Trace<'a>)
    -> bool {
    &&& trace.populations.len() == generations + 1
    &&& trace.bests.len() == generations + 1
    &&& trace.populations[0].evaluation_of(&before.population)
    &&& is_best_of(trace.bests[0], before.best_individual, trace.populations[0].banners@)
    &&& forall|g: int|
        0 <= g < generations ==> (#[trigger] trace.populations[g + 1]).bred_from(
            &trace.populations[g],
            before.initial_mutation_rate.decayed_spec(g as usize, generations),
        )
    &&& forall|g: int|
        0 <= g < generations ==> is_best_of(
            #[trigger] trace.bests[g + 1],
            Some(trace.bests[g]),
            trace.populations[g + 1].banners@,
        )
    &&& after.population == trace.populations[generations as int]
    &&& after.best_individual == Some(trace.bests[generations as int])
    &&& after.initial_mutation_rate == before.initial_mutation_rate
    &&& after.generation == generations
}

/// Over the course of a run the best banner seen never gets worse: from one
/// generation to the next its fitness does not grow, it is never above the
/// fitness of the best banner seen before the run, and after each generation
/// it is at most the fitness of every banner of that generation.
pub proof fn best_never_worsens<'a>(
    before: GA<'a>,
    after: GA<'a>,
    generations: usize,
    trace: Trace<'a>,
)
    requires
        is_run(before, after, generations, trace),
    ensures
        forall|g: int|
            0 <= g <= generations ==> (#[trigger] trace.bests[g]).fitness.is_some() && at_most_all(
                fitness_at(trace.bests, g),
                trace.populations[g].banners@,
            ),
        forall|g: int, h: int|
            0 <= g <= h <= generations ==> #[trigger] fitness_at(trace.bests, h)
                <= #[trigger] fitness_at(trace.bests, g),
        before.best_individual matches Some(b) ==> b.fitness matches Some(o) && forall|g: int|
            0 <= g <= generations ==> #[trigger] fitness_at(trace.bests, g) <= o,
{
    assert forall|g: int| 0 <= g <= generations implies (#[trigger] trace.bests[g]).fitness.is_some()
        && at_most_all(fitness_at(trace.bests, g), trace.populations[g].banners@) by {
        if g > 0 {
            assert(is_best_of(
                trace.bests[(g - 1) + 1],
                Some(trace.bests[g - 1]),
                trace.populations[(g - 1) + 1].banners@,
            ));
        }
    }
    assert forall|g: int, h: int| 0 <= g <= h <= generations implies #[trigger] fitness_at(
        trace.bests,
        h,
    ) <= #[trigger] fitness_at(trace.bests, g) by {
        best_falls_between(trace, generations, g, h);
    }
}

/// From an earlier to a later generation the fitness of the best banner seen
/// does not grow.
proof fn best_falls_between<'a>(trace: Trace<'a>, generations: usize, g: int, h: int)
    requires
        0 <= g <= h <= generations,
        trace.bests.len() == generations + 1,
        forall|k: int|
            0 <= k < generations ==> is_best_of(
                #[trigger] trace.bests[k + 1],
                Some(trace.bests[k]),
                trace.populations[k + 1].banners@,
            ),
    ensures
        fitness_at(trace.bests, h) <= fitness_at(trace.bests, g),
    decreases h - g,
{
    if g < h {
        best_falls_between(trace, generations, g, h - 1);
        assert(is_best_of(
            trace.bests[(h - 1) + 1],
            Some(trace.bests[h - 1]),
            trace.populations[(h - 1) + 1].banners@,
        ));
    }
}

impl<'a> GA<'a> {
    /// The population is well formed and not empty, the initial rate is a
    /// ratio of 64-bit numbers, and the best banner seen, if any, is valid
    /// and measured against the target.
    pub open spec fn wf(&self) -> bool {
        &&& self.population.wf()
        &&& self.population.banners@.len() > 0
        &&& self.initial_mutation_rate.wf()
        &&& self.initial_mutation_rate.narrow()
        &&& self.best_individual matches Some(b) ==> b.wf() && b.texture_buffer
            == self.population.texture_buffer && b.measured_against(self.population.target)
    }

    /// The fitness of the best banner seen, if any.
    pub open spec fn best_fitness(&self) -> Option<u128> {
        fitness_of(self.best_individual)
    }

    /// Everything but the best banner seen and the generation count is as in
    /// `before`.
    pub open spec fn same_population_as(&self, before: &GA<'a>) -> bool {
        &&& self.population == before.population
        &&& self.initial_mutation_rate == before.initial_mutation_rate
    }

    /// A search over a freshly seeded population of `pop_size` banners, with
    /// no best banner yet.
    pub fn new(
        texture_buffer: &'a TextureBuffer,
        target: &'a Raster,
        pop_size: usize,
        initial_mutation_rate: Rate,
    ) -> (ga: Self)
        requires
            texture_buffer.wf(),
            target.wf(),
            target.width == texture_buffer.width,
            target.height == texture_buffer.height,
            pop_size > 0,
            initial_mutation_rate.wf(),
            initial_mutation_rate.narrow(),
        ensures
            ga.wf(),
            ga.population.banners@.len() == pop_size,
            ga.population.target == target,
            ga.population.texture_buffer == texture_buffer,
            ga.best_individual.is_none(),
            ga.initial_mutation_rate == initial_mutation_rate,
            ga.generation == 0,
    {
        let population = Population::new(texture_buffer, target, pop_size);
        GA { population, best_individual: None, initial_mutation_rate, generation: 0 }
    }

    /// Remembers the best banner of the evaluated population, if it is
    /// strictly better than the best seen so far, or if none was seen yet.
    pub fn record_best(&mut self)
        requires
            old(self).wf(),
            old(self).population.all_measured(),
        ensures
            final(self).same_population_as(old(self)),
            final(self).generation == old(self).generation,
            final(self).wf(),
            final(self).best_individual matches Some(best) && is_best_of(
                best,
                old(self).best_individual,
                old(self).population.banners@,
            ),
    {
        let mut elite = self.population.elitist_selection(1);
        let ghost banners = self.population.banners@;
        let ghost order = choose|order: Seq<usize>|
            crate::population::is_elite(elite@, banners, order);
        match elite.pop() {
            Some(candidate) => {
                proof {
                    let at = order[0] as int;
                    assert(candidate.same_as(&banners[at]));
                    assert(banners[at].measured_against(self.population.target));
                    assert(candidate.fitness matches Some(c) && at_most_all(c, banners));
                    assert(fitness_at(banners, at) == candidate.fitness.unwrap());
                    assert(a_copy_of(candidate, banners));
                }
                let replace = match &self.best_individual {
                    None => true,
                    Some(current) => match (candidate.fitness, current.fitness) {
                        (Some(c), Some(o)) => c < o,
                        _ => false,
                    },
                };
                if replace {
                    self.best_individual = Some(candidate);
                }
            },
            None => {},
        }
    }

    /// Breeds one generation at the given rate: every member of the new
    /// generation is bred from the evaluated population, the new generation
    /// replaces the old, is evaluated, and its best banner is remembered if it
    /// is strictly better than the best seen. The best banner seen never
    /// gets worse.
    pub fn evolve(&mut self, rate: Rate)
        requires
            old(self).wf(),
            old(self).population.all_measured(),
            rate.wf(),
        ensures
            final(self).wf(),
            final(self).population.all_measured(),
            final(self).population.bred_from(&old(self).population, rate),
            final(self).initial_mutation_rate == old(self).initial_mutation_rate,
            final(self).generation == old(self).generation,
            final(self).best_individual matches Some(best) && is_best_of(
                best,
                old(self).best_individual,
                final(self).population.banners@,
            ),
    {
        let children = self.population.reproduce(rate);
        let ghost bred = children@;
        self.population.banners = children;
        self.population.calculate_fitness();
        proof {
            assert forall|i: int| 0 <= i < self.population.banners@.len() implies exists|
                child: Banner<'a>,
            |
                old(self).population.is_offspring(&child, rate) && (
                #[trigger] self.population.banners@[i]).evaluation_of(
                    &child,
                    self.population.target,
                ) by {
                assert(old(self).population.is_offspring(&bred[i], rate));
            }
        }
        self.record_best();
    }

    /// Runs the search for `generations` generations. The population is
    /// evaluated and its best banner remembered; then each generation is bred
    /// at the initial mutation rate scaled by `1 - generation / generations`,
    /// replaces the population, is evaluated, and has its best banner
    /// remembered. Afterwards the best banner seen is at least as good as
    /// every member of the final population and as the best seen before the
    /// run.
    pub fn run(&mut self, generations: usize)
        requires
            old(self).wf(),
        ensures
            final(self).wf(),
            final(self).population.all_measured(),
            exists|trace: Trace<'a>| is_run(*old(self), *final(self), generations, trace),
            final(self).population.banners@.len() == old(self).population.banners@.len(),
            final(self).population.target == old(self).population.target,
            final(self).population.texture_buffer == old(self).population.texture_buffer,
            final(self).best_fitness() matches Some(f) && at_most_all(
                f,
                final(self).population.banners@,
            ) && (old(self).best_fitness() matches Some(o) ==> f <= o),
    {
        self.population.calculate_fitness();
        self.record_best();
        self.generation = 0;
        let ghost mut populations: Seq<Population<'a>> = seq![self.population];
        let ghost mut bests: Seq<Banner<'a>> = seq![self.best_individual.unwrap()];
        while self.generation < generations
            invariant
                self.wf(),
                self.population.all_measured(),
                self.population.banners@.len() == old(self).population.banners@.len(),
                self.population.target == old(self).population.target,
                self.population.texture_buffer == old(self).population.texture_buffer,
                self.initial_mutation_rate == old(self).initial_mutation_rate,
                self.generation <= generations,
                populations.len() == self.generation + 1,
                bests.len() == self.generation + 1,
                populations[0].evaluation_of(&old(self).population),
                is_best_of(bests[0], old(self).best_individual, populations[0].banners@),
                forall|g: int|
                    0 <= g < self.generation ==> (#[trigger] populations[g + 1]).bred_from(
                        &populations[g],
                        old(self).initial_mutation_rate.decayed_spec(g as usize, generations),
                    ),
                forall|g: int|
                    0 <= g < self.generation ==> is_best_of(
                        #[trigger] bests[g + 1],
                        Some(bests[g]),
                        populations[g + 1].banners@,
                    ),
                self.population == populations[self.generation as int],
                self.best_individual == Some(bests[self.generation as int]),
                self.best_fitness() matches Some(f) && at_most_all(f, self.population.banners@) && (
                old(self).best_fitness() matches Some(o) ==> f <= o),
            decreases generations - self.generation,
        {
            let rate = self.initial_mutation_rate.decayed(self.generation, generations);
            self.evolve(rate);
            proof {
                let earlier = populations;
                let earlier_bests = bests;
                populations = populations.push(self.population);
                bests = bests.push(self.best_individual.unwrap());
                let now = self.generation as int;
                assert forall|g: int| 0 <= g < now + 1 implies (#[trigger] populations[g
                    + 1]).bred_from(
                    &populations[g],
                    old(self).initial_mutation_rate.decayed_spec(g as usize, generations),
                ) by {
                    if g < now {
                        assert(populations[g + 1] == earlier[g + 1]);
                        assert(populations[g] == earlier[g]);
                    }
                }
                assert forall|g: int| 0 <= g < now + 1 implies is_best_of(
                    #[trigger] bests[g + 1],
                    Some(bests[g]),
                    populations[g + 1].banners@,
                ) by {
                    if g < now {
                        assert(bests[g + 1] == earlier_bests[g + 1]);
                        assert(bests[g] == earlier_bests[g]);
                        assert(populations[g + 1] == earlier[g + 1]);
                    }
                }
            }
            self.generation = self.generation + 1;
        }
        proof {
            let trace = Trace { populations, bests };
            assert(is_run(*old(self), *self, generations, trace));
        }
    }

    /// The best banner seen in any generation.
    pub fn best(&self) -> (best: &Banner<'a>)
        requires
            self.best_individual.is_some(),
        ensures
            Some(*best) == self.best_individual,
    {
        match &self.best_individual {
            Some(best) => best,
            None => {
                proof {
                    assert(false);
                }
                &self.population.banners[0]
            },
        }
    }
}

} // verus!
