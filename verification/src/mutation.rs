//! The five mutation operators, and the draw that applies at most one of them.

use crate::banner::{layer_ok, Banner, Design, Layer, MAX_LAYERS};
use crate::palette::{in_palette, palette_color, Color};
use crate::random::{draw_coin, draw_index, shuffle, uniform_below};
use crate::rate::Rate;
use crate::texture_buffer::TextureBuffer;
use vstd::prelude::*;

verus! {

broadcast use vstd::seq_lib::group_to_multiset_ensures;

impl Design {
    /// This design with `layer` inserted at position `at`, or unchanged if it
    /// already holds six layers.
    pub open spec fn with_insert(self, at: int, layer: Layer) -> Design {
        if self.layers.len() >= MAX_LAYERS {
            self
        } else {
            Design { base_color: self.base_color, layers: self.layers.insert(at, layer) }
        }
    }

    /// This design without the layer at position `at`.
    pub open spec fn with_remove(self, at: int) -> Design {
        Design { base_color: self.base_color, layers: self.layers.remove(at) }
    }

    /// This design with another base color.
    pub open spec fn with_base(self, color: Color) -> Design {
        Design { base_color: color, layers: self.layers }
    }

    /// This design with the layer at position `at` drawn in another color.
    pub open spec fn with_layer_color(self, at: int, color: Color) -> Design {
        Design {
            base_color: self.base_color,
            layers: self.layers.update(at, Layer { color, texture: self.layers[at].texture }),
        }
    }

    /// This design with its colors replaced by `colors`: one for each layer in
    /// order, then one for the base. Every layer keeps its texture.
    pub open spec fn with_colors(self, colors: Seq<Color>) -> Design {
        Design {
            base_color: colors[self.layers.len() as int],
            layers: Seq::new(
                self.layers.len(),
                |i: int| Layer { color: colors[i], texture: self.layers[i].texture },
            ),
        }
    }

    /// This design is `before` after an insertion.
    pub open spec fn inserted_from(self, before: Design, cache: TextureBuffer) -> bool {
        exists|at: int, layer: Layer|
            0 <= at <= before.layers.len() && layer_ok(cache, layer) && self
                == #[trigger] before.with_insert(at, layer)
    }

    /// This design is `before` after a removal: unchanged if `before` has no
    /// layer, else `before` without one of its layers.
    pub open spec fn removed_from(self, before: Design) -> bool {
        if before.layers.len() == 0 {
            self == before
        } else {
            exists|at: int|
                0 <= at < before.layers.len() && self == #[trigger] before.with_remove(at)
        }
    }

    /// This design is `before` with its layers in another order.
    pub open spec fn shuffled_from(self, before: Design) -> bool {
        self.base_color == before.base_color && self.layers.to_multiset()
            == before.layers.to_multiset()
    }

    /// This design is `before` with a palette color put in one place: the
    /// base, or one layer.
    pub open spec fn recolored_from(self, before: Design) -> bool {
        exists|at: int, color: Color|
            in_palette(color) && -1 <= at < before.layers.len() && self
                == #[trigger] before.with_color_at(at, color)
    }

    /// This design with `color` at the base, for `at == -1`, or at layer `at`.
    pub open spec fn with_color_at(self, at: int, color: Color) -> Design {
        if at < 0 {
            self.with_base(color)
        } else {
            self.with_layer_color(at, color)
        }
    }

    /// This design is `before` with its colors exchanged among the base and
    /// the layers: the textures stay in place and the colors in use are the
    /// same, each as often as before.
    pub open spec fn colors_shuffled_from(self, before: Design) -> bool {
        self.textures() == before.textures() && self.colors().to_multiset()
            == before.colors().to_multiset()
    }

    /// This design is `before` after one of the five operators.
    pub open spec fn mutated_from(self, before: Design, cache: TextureBuffer) -> bool {
        ||| self.inserted_from(before, cache)
        ||| self.removed_from(before)
        ||| self.shuffled_from(before)
        ||| self.recolored_from(before)
        ||| self.colors_shuffled_from(before)
    }
}

/// A uniformly drawn palette color.
pub fn draw_color(rng: &mut rand::rngs::ThreadRng) -> (color: Color)
    ensures
        in_palette(color),
{
    palette_color(draw_index(rng, 16))
}

/// A uniformly drawn palette color on a uniformly drawn texture of `cache`.
pub fn draw_layer(cache: &TextureBuffer, rng: &mut rand::rngs::ThreadRng) -> (layer: Layer)
    requires
        cache.wf(),
    ensures
        layer_ok(*cache, layer),
{
    let color = draw_color(rng);
    let texture = draw_index(rng, cache.len());
    Layer { color, texture }
}

/// A reordering of valid layers is valid, and as long.
pub proof fn reordered_layers_valid(before: Design, after: Design, cache: TextureBuffer)
    requires
        before.valid(cache),
        after.shuffled_from(before),
    ensures
        after.valid(cache),
        after.layers.len() == before.layers.len(),
{
    assert(after.layers.len() == after.layers.to_multiset().len());
    assert(before.layers.len() == before.layers.to_multiset().len());
    assert forall|i: int| 0 <= i < after.layers.len() implies layer_ok(
        cache,
        #[trigger] after.layers[i],
    ) by {
        let l = after.layers[i];
        assert(after.layers.contains(l));
        assert(after.layers.to_multiset().count(l) > 0);
        assert(before.layers.contains(l));
        let j = choose|j: int| 0 <= j < before.layers.len() && before.layers[j] == l;
        assert(layer_ok(cache, before.layers[j]));
    }
}

/// An exchange of colors among the places of a valid design leaves a valid
/// design with as many layers.
pub proof fn recolored_layers_valid(before: Design, after: Design, cache: TextureBuffer)
    requires
        before.valid(cache),
        after.colors_shuffled_from(before),
    ensures
        after.valid(cache),
        after.layers.len() == before.layers.len(),
{
    assert(after.textures().len() == before.textures().len());
    let old_colors = before.colors();
    let new_colors = after.colors();
    assert forall|c: Color| new_colors.contains(c) implies in_palette(c) by {
        assert(new_colors.to_multiset().count(c) > 0);
        assert(old_colors.contains(c));
        let j = choose|j: int| 0 <= j < old_colors.len() && old_colors[j] == c;
        if j < before.layers.len() {
            assert(layer_ok(cache, before.layers[j]));
        }
    }
    assert(new_colors[after.layers.len() as int] == after.base_color);
    assert(new_colors.contains(after.base_color));
    assert forall|i: int| 0 <= i < after.layers.len() implies layer_ok(
        cache,
        #[trigger] after.layers[i],
    ) by {
        assert(new_colors[i] == after.layers[i].color);
        assert(new_colors.contains(after.layers[i].color));
        assert(after.textures()[i] == before.textures()[i]);
        assert(layer_ok(cache, before.layers[i]));
    }
}

/// Whatever operator is applied to a valid design, the outcome is valid: it
/// holds at most six layers, in palette colors, on textures of the cache.
pub proof fn mutation_keeps_valid(before: Design, after: Design, cache: TextureBuffer)
    requires
        before.valid(cache),
        after.mutated_from(before, cache),
    ensures
        after.valid(cache),
        after.layers.len() <= MAX_LAYERS,
{
    if after.inserted_from(before, cache) {
        let (at, layer) = choose|at: int, layer: Layer|
            0 <= at <= before.layers.len() && layer_ok(cache, layer) && after
                == #[trigger] before.with_insert(at, layer);
        assert forall|i: int| 0 <= i < after.layers.len() implies layer_ok(
            cache,
            #[trigger] after.layers[i],
        ) by {
            if before.layers.len() < MAX_LAYERS {
                if i < at {
                    assert(after.layers[i] == before.layers[i]);
                } else if i > at {
                    assert(after.layers[i] == before.layers[i - 1]);
                }
            }
        }
    } else if after.removed_from(before) {
        if before.layers.len() > 0 {
            let at = choose|at: int|
                0 <= at < before.layers.len() && after == #[trigger] before.with_remove(at);
            assert forall|i: int| 0 <= i < after.layers.len() implies layer_ok(
                cache,
                #[trigger] after.layers[i],
            ) by {
                if i < at {
                    assert(after.layers[i] == before.layers[i]);
                } else {
                    assert(after.layers[i] == before.layers[i + 1]);
                }
            }
        }
    } else if after.shuffled_from(before) {
        reordered_layers_valid(before, after, cache);
    } else if after.recolored_from(before) {
        let (at, color) = choose|at: int, color: Color|
            in_palette(color) && -1 <= at < before.layers.len() && after
                == #[trigger] before.with_color_at(at, color);
        assert forall|i: int| 0 <= i < after.layers.len() implies layer_ok(
            cache,
            #[trigger] after.layers[i],
        ) by {
            assert(layer_ok(cache, before.layers[i]));
        }
    } else {
        recolored_layers_valid(before, after, cache);
    }
}

impl<'a> Banner<'a> {
    /// Renders anew and forgets the fitness.
    fn refresh(&mut self)
        requires
            old(self).wf(),
        ensures
            final(self)@ == old(self)@,
            final(self).texture_buffer == old(self).texture_buffer,
            final(self).wf(),
            final(self).is_rendered(),
            final(self).fitness.is_none(),
    {
        self.fitness = None;
        self.render();
    }

    /// Inserts `layer` at position `at`, unless the banner already holds six
    /// layers; renders anew and forgets the fitness.
    pub fn insert_layer(&mut self, at: usize, layer: Layer)
        requires
            old(self).wf(),
            at <= old(self).layers@.len(),
            layer_ok(*old(self).texture_buffer, layer),
        ensures
            final(self)@ == old(self)@.with_insert(at as int, layer),
            final(self).texture_buffer == old(self).texture_buffer,
            final(self).wf(),
            final(self).is_rendered(),
            final(self).fitness.is_none(),
    {
        if self.layers.len() < MAX_LAYERS {
            self.layers.insert(at, layer);
        }
        self.refresh();
    }

    /// Removes the layer at position `at`; renders anew and forgets the
    /// fitness.
    pub fn remove_layer(&mut self, at: usize)
        requires
            old(self).wf(),
            at < old(self).layers@.len(),
        ensures
            final(self)@ == old(self)@.with_remove(at as int),
            final(self).texture_buffer == old(self).texture_buffer,
            final(self).wf(),
            final(self).is_rendered(),
            final(self).fitness.is_none(),
    {
        self.layers.remove(at);
        self.refresh();
    }

    /// Puts `color` at the base; renders anew and forgets the fitness.
    pub fn set_base_color(&mut self, color: Color)
        requires
            old(self).wf(),
            in_palette(color),
        ensures
            final(self)@ == old(self)@.with_base(color),
            final(self).texture_buffer == old(self).texture_buffer,
            final(self).wf(),
            final(self).is_rendered(),
            final(self).fitness.is_none(),
    {
        self.base_color = color;
        self.refresh();
    }

    /// Draws the layer at position `at` in `color`; renders anew and forgets
    /// the fitness.
    pub fn set_layer_color(&mut self, at: usize, color: Color)
        requires
            old(self).wf(),
            at < old(self).layers@.len(),
            in_palette(color),
        ensures
            final(self)@ == old(self)@.with_layer_color(at as int, color),
            final(self).texture_buffer == old(self).texture_buffer,
            final(self).wf(),
            final(self).is_rendered(),
            final(self).fitness.is_none(),
    {
        let texture = self.layers[at].texture;
        self.layers.set(at, Layer { color, texture });
        self.refresh();
    }

    /// Replaces every color: `colors` holds one for each layer in order, then
    /// one for the base. Renders anew and forgets the fitness.
    pub fn assign_colors(&mut self, colors: &Vec<Color>)
        requires
            old(self).wf(),
            colors@.len() == old(self).layers@.len() + 1,
            forall|i: int| 0 <= i < colors@.len() ==> in_palette(#[trigger] colors@[i]),
        ensures
            final(self)@ == old(self)@.with_colors(colors@),
            final(self).texture_buffer == old(self).texture_buffer,
            final(self).wf(),
            final(self).is_rendered(),
            final(self).fitness.is_none(),
    {
        let n = self.layers.len();
        let ghost before = self@;
        let mut i: usize = 0;
        while i < n
            invariant
                i <= n,
                n == before.layers.len(),
                self.layers@.len() == n,
                colors@.len() == n + 1,
                self.texture_buffer == old(self).texture_buffer,
                self.texture_buffer.wf(),
                before.valid(*self.texture_buffer),
                forall|k: int| 0 <= k < colors@.len() ==> in_palette(#[trigger] colors@[k]),
                forall|k: int|
                    0 <= k < i ==> #[trigger] self.layers@[k] == (Layer {
                        color: colors@[k],
                        texture: before.layers[k].texture,
                    }),
                forall|k: int| i <= k < n ==> #[trigger] self.layers@[k] == before.layers[k],
            decreases n - i,
        {
            let texture = self.layers[i].texture;
            self.layers.set(i, Layer { color: colors[i], texture });
            i += 1;
        }
        self.base_color = colors[n];
        assert(self@.layers =~= before.with_colors(colors@).layers);
        assert forall|k: int| 0 <= k < self@.layers.len() implies layer_ok(
            *self.texture_buffer,
            #[trigger] self@.layers[k],
        ) by {
            assert(layer_ok(*self.texture_buffer, before.layers[k]));
        }
        self.refresh();
    }

    /// The insert operator: no change to the design if the banner already
    /// holds six layers; else a uniformly drawn palette color on a uniformly
    /// drawn texture goes to a uniformly drawn position.
    pub fn mutate_insert(&mut self, rng: &mut rand::rngs::ThreadRng)
        requires
            old(self).wf(),
        ensures
            final(self)@.inserted_from(old(self)@, *old(self).texture_buffer),
            old(self).layers@.len() >= MAX_LAYERS ==> final(self)@ == old(self)@,
            old(self).layers@.len() < MAX_LAYERS ==> final(self).layers@.len() == old(self).layers@.len() + 1,
            final(self).texture_buffer == old(self).texture_buffer,
            final(self).wf(),
            final(self).is_rendered(),
            final(self).fitness.is_none(),
    {
        let layer = draw_layer(self.texture_buffer, rng);
        let at = draw_index(rng, self.layers.len() + 1);
        self.insert_layer(at, layer);
    }

    /// The remove operator: no change to the design if the banner has no
    /// layer; else one uniformly drawn layer leaves.
    pub fn mutate_remove(&mut self, rng: &mut rand::rngs::ThreadRng)
        requires
            old(self).wf(),
        ensures
            final(self)@.removed_from(old(self)@),
            final(self).texture_buffer == old(self).texture_buffer,
            final(self).wf(),
            final(self).is_rendered(),
            final(self).fitness.is_none(),
    {
        if self.layers.len() == 0 {
            self.refresh();
        } else {
            let at = draw_index(rng, self.layers.len());
            self.remove_layer(at);
        }
    }

    /// The shuffle operator: the layers are put in a uniformly drawn order.
    pub fn mutate_shuffle(&mut self, rng: &mut rand::rngs::ThreadRng)
        requires
            old(self).wf(),
        ensures
            final(self)@.shuffled_from(old(self)@),
            final(self).texture_buffer == old(self).texture_buffer,
            final(self).wf(),
            final(self).is_rendered(),
            final(self).fitness.is_none(),
    {
        shuffle(&mut self.layers, rng);
        proof {
            reordered_layers_valid(old(self)@, self@, *self.texture_buffer);
        }
        self.refresh();
    }

    /// The change-color operator: a uniformly drawn palette color goes to the
    /// base, on a fair coin or when there is no layer, and else to one
    /// uniformly drawn layer.
    pub fn mutate_change_color(&mut self, rng: &mut rand::rngs::ThreadRng)
        requires
            old(self).wf(),
        ensures
            final(self)@.recolored_from(old(self)@),
            final(self).texture_buffer == old(self).texture_buffer,
            final(self).wf(),
            final(self).is_rendered(),
            final(self).fitness.is_none(),
    {
        let color = draw_color(rng);
        let heads = draw_coin(rng);
        if heads || self.layers.len() == 0 {
            self.set_base_color(color);
            assert(self@ == old(self)@.with_color_at(-1, color));
        } else {
            let at = draw_index(rng, self.layers.len());
            self.set_layer_color(at, color);
            assert(self@ == old(self)@.with_color_at(at as int, color));
        }
    }

    /// The shuffle-color operator: the colors in use, those of the layers and
    /// of the base, are exchanged among these places in a uniformly drawn
    /// order.
    pub fn mutate_shuffle_color(&mut self, rng: &mut rand::rngs::ThreadRng)
        requires
            old(self).wf(),
        ensures
            final(self)@.colors_shuffled_from(old(self)@),
            final(self).layers@.len() == old(self).layers@.len(),
            final(self).texture_buffer == old(self).texture_buffer,
            final(self).wf(),
            final(self).is_rendered(),
            final(self).fitness.is_none(),
    {
        let n = self.layers.len();
        let mut colors: Vec<Color> = Vec::new();
        let mut i: usize = 0;
        while i < n
            invariant
                i <= n,
                n == self.layers@.len(),
                colors@.len() == i,
                forall|k: int| 0 <= k < i ==> #[trigger] colors@[k] == self.layers@[k].color,
            decreases n - i,
        {
            colors.push(self.layers[i].color);
            i += 1;
        }
        colors.push(self.base_color);
        let ghost before = colors@;
        assert(before =~= self@.colors());
        shuffle(&mut colors, rng);
        proof {
            assert(colors@.len() == colors@.to_multiset().len());
            assert(before.len() == before.to_multiset().len());
            assert forall|k: int| 0 <= k < colors@.len() implies in_palette(
                #[trigger] colors@[k],
            ) by {
                let c = colors@[k];
                assert(colors@.contains(c));
                assert(colors@.to_multiset().count(c) > 0);
                assert(before.contains(c));
                let j = choose|j: int| 0 <= j < before.len() && before[j] == c;
                if j < n {
                    assert(layer_ok(*self.texture_buffer, self.layers@[j]));
                }
            }
        }
        self.assign_colors(&colors);
        assert(self@.colors() =~= colors@);
        assert(self@.textures() =~= old(self)@.textures());
    }

    /// Mutates the banner at the given rate: one uniform draw decides whether
    /// anything happens, and if so exactly one of the five operators, drawn
    /// uniformly, is applied once. A rate of zero changes nothing; a rate of
    /// one or more always applies an operator.
    pub fn mutate(&mut self, rate: Rate, rng: &mut rand::rngs::ThreadRng)
        requires
            old(self).wf(),
            rate.wf(),
        ensures
            final(self).texture_buffer == old(self).texture_buffer,
            final(self).wf(),
            final(self).layers@.len() <= MAX_LAYERS,
            final(self).same_as(old(self)) || final(self).operated_from(old(self)),
            rate.num == 0 ==> final(self).same_as(old(self)),
            rate.num >= rate.den ==> final(self).operated_from(old(self)),
    {
        let drawn = uniform_below(rng, rate.den);
        if rate.fires(drawn) {
            let op = uniform_below(rng, 5);
            if op == 0 {
                self.mutate_insert(rng);
            } else if op == 1 {
                self.mutate_remove(rng);
            } else if op == 2 {
                self.mutate_shuffle(rng);
            } else if op == 3 {
                self.mutate_change_color(rng);
            } else {
                self.mutate_shuffle_color(rng);
            }
        }
    }

    /// One of the five operators was applied to `before`: the design is the
    /// operator's outcome, the render is that of the new design, and the
    /// fitness is forgotten.
    pub open spec fn operated_from(&self, before: &Banner<'a>) -> bool {
        &&& self@.mutated_from(before@, *before.texture_buffer)
        &&& self.is_rendered()
        &&& self.fitness.is_none()
    }
}

} // verus!
