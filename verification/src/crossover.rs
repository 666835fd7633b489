//! Crossover: a child made of the head of one parent's layers and the tail of
//! the other's.

use crate::banner::{layer_ok, Banner, Design, Layer, MAX_LAYERS};
use crate::random::{draw_coin, draw_index};
use crate::texture_buffer::TextureBuffer;
use vstd::prelude::*;

verus! {

impl Design {
    /// The child of this design and `other` for the cut points `cut_self` and
    /// `cut_other`: this design's layers before `cut_self`, then `other`'s
    /// layers from `cut_other` on, cut down to the first six. The base color
    /// is this design's if `own_base`, else `other`'s.
    pub open spec fn spliced(self, other: Design, cut_self: int, cut_other: int, own_base: bool)
        -> Design {
        let joined = self.layers.take(cut_self) + other.layers.skip(cut_other);
        Design {
            base_color: if own_base {
                self.base_color
            } else {
                other.base_color
            },
            layers: if joined.len() > MAX_LAYERS {
                joined.take(MAX_LAYERS as int)
            } else {
                joined
            },
        }
    }

    /// This design is a child of `first` and `second` for some cut points and
    /// some choice of base color.
    pub open spec fn crossed_from(self, first: Design, second: Design) -> bool {
        exists|cut_first: int, cut_second: int, own_base: bool|
            0 <= cut_first <= first.layers.len() && 0 <= cut_second <= second.layers.len() && self
                == #[trigger] first.spliced(second, cut_first, cut_second, own_base)
    }
}

/// A child holds at most six layers, each of them a layer of one of its
/// parents at the place the cut points give, and its base color is that of one
/// of its parents.
pub proof fn spliced_from_parents(
    first: Design,
    second: Design,
    cut_first: int,
    cut_second: int,
    own_base: bool,
)
    requires
        0 <= cut_first <= first.layers.len(),
        0 <= cut_second <= second.layers.len(),
    ensures
        ({
            let child = first.spliced(second, cut_first, cut_second, own_base);
            &&& child.layers.len() <= MAX_LAYERS
            &&& child.layers.len() <= cut_first + (second.layers.len() - cut_second)
            &&& child.base_color == first.base_color || child.base_color == second.base_color
            &&& forall|k: int|
                0 <= k < child.layers.len() ==> #[trigger] child.layers[k] == (if k < cut_first {
                    first.layers[k]
                } else {
                    second.layers[cut_second + (k - cut_first)]
                })
            &&& forall|k: int|
                0 <= k < child.layers.len() ==> first.layers.contains(#[trigger] child.layers[k])
                    || second.layers.contains(child.layers[k])
        }),
{
    let child = first.spliced(second, cut_first, cut_second, own_base);
    assert forall|k: int| 0 <= k < child.layers.len() implies first.layers.contains(
        #[trigger] child.layers[k],
    ) || second.layers.contains(child.layers[k]) by {
        if k < cut_first {
            assert(child.layers[k] == first.layers[k]);
        } else {
            assert(child.layers[k] == second.layers[cut_second + (k - cut_first)]);
        }
    }
}

/// A child of two designs that are valid for one cache is valid for it.
pub proof fn spliced_is_valid(
    first: Design,
    second: Design,
    cut_first: int,
    cut_second: int,
    own_base: bool,
    cache: TextureBuffer,
)
    requires
        first.valid(cache),
        second.valid(cache),
        0 <= cut_first <= first.layers.len(),
        0 <= cut_second <= second.layers.len(),
    ensures
        first.spliced(second, cut_first, cut_second, own_base).valid(cache),
{
    let child = first.spliced(second, cut_first, cut_second, own_base);
    spliced_from_parents(first, second, cut_first, cut_second, own_base);
    assert forall|k: int| 0 <= k < child.layers.len() implies layer_ok(
        cache,
        #[trigger] child.layers[k],
    ) by {
        if k < cut_first {
            assert(layer_ok(cache, first.layers[k]));
        } else {
            assert(layer_ok(cache, second.layers[cut_second + (k - cut_first)]));
        }
    }
}

/// Whatever the cut points, the child of two designs that are valid for one
/// cache is valid for it, holds at most six layers, and holds no layer that
/// neither parent has.
pub proof fn crossing_keeps_valid(first: Design, second: Design, child: Design, cache: TextureBuffer)
    requires
        first.valid(cache),
        second.valid(cache),
        child.crossed_from(first, second),
    ensures
        child.valid(cache),
        child.layers.len() <= MAX_LAYERS,
        forall|k: int|
            0 <= k < child.layers.len() ==> first.layers.contains(#[trigger] child.layers[k])
                || second.layers.contains(child.layers[k]),
{
    let (cut_first, cut_second, own_base) = choose|cut_first: int, cut_second: int, own_base: bool|
        0 <= cut_first <= first.layers.len() && 0 <= cut_second <= second.layers.len() && child
            == #[trigger] first.spliced(second, cut_first, cut_second, own_base);
    spliced_from_parents(first, second, cut_first, cut_second, own_base);
    spliced_is_valid(first, second, cut_first, cut_second, own_base, cache);
}

impl<'a> Banner<'a> {
    /// The child of this banner and `other` for given cut points and a given
    /// choice of base color: this banner's layers before `cut_self`, then
    /// `other`'s from `cut_other` on, cut down to six. The child is rendered
    /// and not yet evaluated.
    pub fn splice(&self, other: &Banner<'a>, cut_self: usize, cut_other: usize, own_base: bool)
        -> (child: Banner<'a>)
        requires
            self.wf(),
            other.wf(),
            other.texture_buffer == self.texture_buffer,
            cut_self <= self.layers@.len(),
            cut_other <= other.layers@.len(),
        ensures
            child@ == self@.spliced(other@, cut_self as int, cut_other as int, own_base),
            child.texture_buffer == self.texture_buffer,
            child.wf(),
            child.is_rendered(),
            child.fitness.is_none(),
    {
        let mut layers: Vec<Layer> = Vec::new();
        let mut i: usize = 0;
        while i < cut_self
            invariant
                i <= cut_self <= self.layers@.len(),
                layers@ == self.layers@.take(i as int),
            decreases cut_self - i,
        {
            layers.push(self.layers[i]);
            assert(self.layers@.take(i as int + 1) =~= self.layers@.take(i as int).push(
                self.layers@[i as int],
            ));
            i += 1;
        }
        let mut j: usize = cut_other;
        while j < other.layers.len()
            invariant
                cut_other <= j <= other.layers@.len(),
                layers@ == self.layers@.take(cut_self as int) + other.layers@.subrange(
                    cut_other as int,
                    j as int,
                ),
            decreases other.layers@.len() - j,
        {
            layers.push(other.layers[j]);
            assert(other.layers@.subrange(cut_other as int, j as int + 1)
                =~= other.layers@.subrange(cut_other as int, j as int).push(
                other.layers@[j as int],
            ));
            assert(layers@ =~= self.layers@.take(cut_self as int) + other.layers@.subrange(
                cut_other as int,
                j as int + 1,
            ));
            j += 1;
        }
        assert(other.layers@.subrange(cut_other as int, other.layers@.len() as int)
            =~= other.layers@.skip(cut_other as int));
        if layers.len() > MAX_LAYERS {
            layers.truncate(MAX_LAYERS);
        }
        let base_color = if own_base {
            self.base_color
        } else {
            other.base_color
        };
        proof {
            let child = self@.spliced(other@, cut_self as int, cut_other as int, own_base);
            assert(layers@ =~= child.layers);
            spliced_is_valid(
                self@,
                other@,
                cut_self as int,
                cut_other as int,
                own_base,
                *self.texture_buffer,
            );
        }
        Banner::new(base_color, layers, self.texture_buffer)
    }

    /// Crosses this banner with `other`: the cut points are drawn uniformly,
    /// one in each parent's layer list, ends included, and a fair coin picks
    /// the parent that gives the base color. The child holds at most six
    /// layers, all of them layers of its parents.
    pub fn crossover(&self, other: &Banner<'a>, rng: &mut rand::rngs::ThreadRng) -> (child: Banner<
        'a,
    >)
        requires
            self.wf(),
            other.wf(),
            other.texture_buffer == self.texture_buffer,
        ensures
            child@.crossed_from(self@, other@),
            child.layers@.len() <= MAX_LAYERS,
            forall|k: int|
                0 <= k < child.layers@.len() ==> self.layers@.contains(#[trigger] child.layers@[k])
                    || other.layers@.contains(child.layers@[k]),
            child.base_color == self.base_color || child.base_color == other.base_color,
            child.texture_buffer == self.texture_buffer,
            child.wf(),
            child.is_rendered(),
            child.fitness.is_none(),
    {
        let cut_self = draw_index(rng, self.layers.len() + 1);
        let cut_other = draw_index(rng, other.layers.len() + 1);
        let own_base = draw_coin(rng);
        proof {
            spliced_from_parents(self@, other@, cut_self as int, cut_other as int, own_base);
        }
        self.splice(other, cut_self, cut_other, own_base)
    }
}

} // verus!
