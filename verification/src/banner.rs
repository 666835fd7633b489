//! A banner: one candidate design, with its render and its fitness.

use crate::palette::{in_palette, Color};
use crate::raster::{overlaid, overlay, pixel_at, sq_distance, Raster};
use crate::texture_buffer::{TextureBuffer, TextureId};
use vstd::prelude::*;

verus! {

/// The most layers a banner can hold.
pub const MAX_LAYERS: usize = 6;

/// One layer of a design: a texture drawn in a color.
#[derive(Clone, Copy, Debug, PartialEq, Eq, Structural)]
pub struct Layer {
    pub color: Color,
    pub texture: TextureId,
}

/// What a banner is a design of: a base color under an ordered stack of
/// layers, the last layer on top.
pub struct Design {
    pub base_color: Color,
    pub layers: Seq<Layer>,
}

/// A candidate design with its render and, once evaluated, the squared
/// distance of that render from a target.
pub struct Banner<'a> {
    pub base_color: Color,
    pub layers: Vec<Layer>,
    pub render: Raster,
    pub texture_buffer: &'a TextureBuffer,
    /// The sum over all pixels and channels of the squared difference between
    /// the render and the target; the distance itself is its square root, and
    /// both order banners alike. `None` until evaluated.
    pub fitness: Option<u128>,
}

/// The layer names a palette color and a texture of the cache.
pub open spec fn layer_ok(cache: TextureBuffer, layer: Layer) -> bool {
    in_palette(layer.color) && layer.texture < cache.count()
}

/// The raster that a design renders to: the tinted base, with each layer's
/// tinted texture composited over it in list order.
pub open spec fn composite(cache: TextureBuffer, base_color: Color, layers: Seq<Layer>) -> Seq<u8>
    decreases layers.len(),
{
    if layers.len() == 0 {
        cache.tinted_base(base_color).data@
    } else {
        overlaid(
            composite(cache, base_color, layers.drop_last()),
            cache.tinted(layers.last().texture as int, layers.last().color).data@,
            cache.width,
            cache.height,
        )
    }
}

/// The pixel `p` of a design's render, where no blending decides it: the
/// pixel of the topmost layer that is opaque there, if every layer above it
/// is fully transparent there, or the pixel of the base if all layers are.
/// `None` where a layer that is neither opaque nor fully transparent shows.
pub open spec fn plain_pixel(cache: TextureBuffer, base_color: Color, layers: Seq<Layer>, p: int)
    -> Option<Seq<u8>>
    decreases layers.len(),
{
    if layers.len() == 0 {
        Some(pixel_at(cache.tinted_base(base_color).data@, p))
    } else {
        let top = cache.tinted(layers.last().texture as int, layers.last().color).data@;
        if top[4 * p + 3] == 255 {
            Some(pixel_at(top, p))
        } else if top[4 * p + 3] == 0 {
            plain_pixel(cache, base_color, layers.drop_last(), p)
        } else {
            None
        }
    }
}

/// In `data`, every pixel that no blending decides is the design's plain
/// pixel.
pub open spec fn shows_plain_pixels(
    data: Seq<u8>,
    cache: TextureBuffer,
    base_color: Color,
    layers: Seq<Layer>,
) -> bool {
    forall|p: int|
        0 <= p < cache.width * cache.height ==> (plain_pixel(cache, base_color, layers, p) matches Some(
            pixel,
        ) ==> #[trigger] pixel_at(data, p) == pixel)
}

impl Design {
    /// At most six layers, and only palette colors and textures of the cache.
    pub open spec fn valid(self, cache: TextureBuffer) -> bool {
        &&& in_palette(self.base_color)
        &&& self.layers.len() <= MAX_LAYERS
        &&& forall|i: int| 0 <= i < self.layers.len() ==> layer_ok(cache, #[trigger] self.layers[i])
    }

    /// The raster that this design renders to.
    pub open spec fn rendered(self, cache: TextureBuffer) -> Seq<u8> {
        composite(cache, self.base_color, self.layers)
    }

    /// Every color in use: the layers' colors in order, then the base color.
    pub open spec fn colors(self) -> Seq<Color> {
        Seq::new(self.layers.len(), |i: int| self.layers[i].color).push(self.base_color)
    }

    /// The layers' textures, in order.
    pub open spec fn textures(self) -> Seq<TextureId> {
        Seq::new(self.layers.len(), |i: int| self.layers[i].texture)
    }
}

impl<'a> View for Banner<'a> {
    type V = Design;

    open spec fn view(&self) -> Design {
        Design { base_color: self.base_color, layers: self.layers@ }
    }
}

/// Copies a list of layers.
fn copy_layers(layers: &Vec<Layer>) -> (copy: Vec<Layer>)
    ensures
        copy@ == layers@,
{
    let mut copy: Vec<Layer> = Vec::new();
    let mut i: usize = 0;
    while i < layers.len()
        invariant
            i <= layers@.len(),
            copy@ == layers@.take(i as int),
        decreases layers@.len() - i,
    {
        copy.push(layers[i]);
        assert(layers@.take(i as int + 1) =~= layers@.take(i as int).push(layers@[i as int]));
        i += 1;
    }
    assert(layers@.take(layers@.len() as int) =~= layers@);
    copy
}

impl<'a> Clone for Banner<'a> {
    fn clone(&self) -> (copy: Self)
        ensures
            copy.same_as(self),
    {
        Banner {
            base_color: self.base_color,
            layers: copy_layers(&self.layers),
            render: self.render.clone(),
            texture_buffer: self.texture_buffer,
            fitness: self.fitness,
        }
    }
}

impl<'a> Banner<'a> {
    /// The design is valid for the banner's texture cache, and the cache is
    /// complete.
    pub open spec fn wf(&self) -> bool {
        self.texture_buffer.wf() && self@.valid(*self.texture_buffer)
    }

    /// Nothing differs from `other`: design, render, fitness and cache.
    pub open spec fn same_as(&self, other: &Banner<'a>) -> bool {
        &&& self@ == other@
        &&& self.render.width == other.render.width
        &&& self.render.height == other.render.height
        &&& self.render.data@ == other.render.data@
        &&& self.fitness == other.fitness
        &&& self.texture_buffer == other.texture_buffer
    }

    /// The render is that of the current design: the composite of the tinted
    /// base and the layers' tinted textures, in which a layer's opaque pixels
    /// replace what is below and its fully transparent pixels leave it as it
    /// is.
    pub open spec fn is_rendered(&self) -> bool {
        &&& self.render.wf()
        &&& self.render.width == self.texture_buffer.width
        &&& self.render.height == self.texture_buffer.height
        &&& self.render.data@ == self@.rendered(*self.texture_buffer)
        &&& shows_plain_pixels(
            self.render.data@,
            *self.texture_buffer,
            self.base_color,
            self.layers@,
        )
    }

    /// The banner is rendered and its fitness is the squared distance of its
    /// render from `target`.
    pub open spec fn measured_against(&self, target: &Raster) -> bool {
        &&& self.is_rendered()
        &&& self.fitness matches Some(f) && f == sq_distance(self.render.data@, target.data@)
    }

    /// What evaluating `before` against `target` gives: the same design,
    /// rendered and measured.
    pub open spec fn evaluation_of(&self, before: &Banner<'a>, target: &Raster) -> bool {
        &&& self@ == before@
        &&& self.texture_buffer == before.texture_buffer
        &&& self.wf()
        &&& self.measured_against(target)
    }

    /// A banner of the given design, rendered, and not yet evaluated.
    pub fn new(base_color: Color, layers: Vec<Layer>, texture_buffer: &'a TextureBuffer) -> (banner:
        Self)
        requires
            texture_buffer.wf(),
            (Design { base_color, layers: layers@ }).valid(*texture_buffer),
        ensures
            banner@ == (Design { base_color, layers: layers@ }),
            banner.texture_buffer == texture_buffer,
            banner.wf(),
            banner.is_rendered(),
            banner.fitness.is_none(),
    {
        let render = Raster { width: 0, height: 0, data: Vec::new() };
        let mut banner = Banner { base_color, layers, render, texture_buffer, fitness: None };
        banner.render();
        banner
    }

    /// Renders the design anew: the tinted base, then each layer's tinted
    /// texture composited over it in list order.
    pub fn render(&mut self)
        requires
            old(self).wf(),
        ensures
            final(self)@ == old(self)@,
            final(self).texture_buffer == old(self).texture_buffer,
            final(self).fitness == old(self).fitness,
            final(self).wf(),
            final(self).is_rendered(),
    {
        let cache = self.texture_buffer;
        let mut canvas = cache.get_colored_base(self.base_color).clone();
        assert(self.layers@.take(0) =~= Seq::<Layer>::empty());
        let mut i: usize = 0;
        while i < self.layers.len()
            invariant
                i <= self.layers@.len(),
                cache == self.texture_buffer,
                self.wf(),
                canvas.wf(),
                canvas.width == cache.width,
                canvas.height == cache.height,
                canvas.data@ == composite(*cache, self.base_color, self.layers@.take(i as int)),
                shows_plain_pixels(
                    canvas.data@,
                    *cache,
                    self.base_color,
                    self.layers@.take(i as int),
                ),
            decreases self.layers@.len() - i,
        {
            let layer = self.layers[i];
            let top = cache.get_colored_texture(layer.texture, layer.color);
            let ghost below = canvas.data@;
            overlay(&mut canvas, top);
            proof {
                let upto = self.layers@.take(i as int + 1);
                assert(upto.drop_last() =~= self.layers@.take(i as int));
                assert(upto.last() == layer);
                assert forall|p: int| 0 <= p < cache.width * cache.height implies (plain_pixel(
                    *cache,
                    self.base_color,
                    upto,
                    p,
                ) matches Some(pixel) ==> #[trigger] pixel_at(canvas.data@, p) == pixel) by {
                    if top.data@[4 * p + 3] == 0 {
                        assert(pixel_at(canvas.data@, p) == pixel_at(below, p));
                    }
                }
            }
            i += 1;
        }
        assert(self.layers@.take(self.layers@.len() as int) =~= self.layers@);
        self.render = canvas;
    }

    /// Renders the design and measures it against `target`: the fitness
    /// becomes the squared distance between the render and the target, which
    /// is zero exactly when the two are identical.
    pub fn calculate_fitness(&mut self, target: &Raster)
        requires
            old(self).wf(),
            target.wf(),
            target.width == old(self).texture_buffer.width,
            target.height == old(self).texture_buffer.height,
        ensures
            final(self).evaluation_of(old(self), target),
            final(self).fitness matches Some(f) && f == sq_distance(
                old(self)@.rendered(*old(self).texture_buffer),
                target.data@,
            ),
            final(self).fitness == Some(0u128) <==> final(self).render.data@ == target.data@,
    {
        self.render();
        let d = self.render.sq_distance(target);
        self.fitness = Some(d);
    }
}

} // verus!
