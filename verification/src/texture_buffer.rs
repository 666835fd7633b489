//! The texture cache: every texture, and the base, already tinted with every
//! palette color.

use crate::palette::{index_of, in_palette, palette_index, Color};
use crate::raster::Raster;
use vstd::prelude::*;

verus! {

/// Identifies a texture: its position in the cache.
pub type TextureId = usize;

/// The tinted rasters of the base and of each texture, one per palette color,
/// all of one size.
pub struct TextureBuffer {
    /// Width of every raster in the cache.
    pub width: u32,
    /// Height of every raster in the cache.
    pub height: u32,
    /// The textures' names, by texture id.
    pub names: Vec<String>,
    /// The base, tinted with each palette color in palette order.
    pub base: Vec<Raster>,
    /// Each texture, by texture id, tinted with each palette color in palette
    /// order.
    pub colored: Vec<Vec<Raster>>,
}

/// A row of tinted rasters holds one well-formed raster of the given size
/// for each palette color.
pub open spec fn row_fits(row: Seq<Raster>, width: u32, height: u32) -> bool {
    &&& row.len() == 16
    &&& forall|c: int|
        0 <= c < 16 ==> (#[trigger] row[c]).wf() && row[c].width == width && row[c].height
            == height
}

/// What a cache can be made of: at least one texture, a name for each, and
/// full rows of rasters that all have the size of the first tinted base.
pub open spec fn cache_fits(names: Seq<String>, base: Seq<Raster>, colored: Seq<Vec<Raster>>)
    -> bool {
    &&& names.len() > 0
    &&& colored.len() == names.len()
    &&& base.len() == 16
    &&& row_fits(base, base[0].width, base[0].height)
    &&& forall|t: int|
        0 <= t < colored.len() ==> row_fits((#[trigger] colored[t])@, base[0].width, base[0].height)
}

/// Checks one row of tinted rasters.
fn check_row(row: &Vec<Raster>, width: u32, height: u32) -> (ok: bool)
    ensures
        ok == row_fits(row@, width, height),
{
    if row.len() != 16 {
        return false;
    }
    let mut c: usize = 0;
    while c < 16
        invariant
            c <= 16,
            row@.len() == 16,
            forall|k: int|
                0 <= k < c ==> (#[trigger] row@[k]).wf() && row@[k].width == width && row@[k].height
                    == height,
        decreases 16 - c,
    {
        let r = &row[c];
        if !(r.is_wf() && r.width == width && r.height == height) {
            return false;
        }
        c += 1;
    }
    true
}

impl TextureBuffer {
    /// The cache is complete and of one size.
    pub open spec fn wf(&self) -> bool {
        &&& cache_fits(self.names@, self.base@, self.colored@)
        &&& self.base@[0].width == self.width
        &&& self.base@[0].height == self.height
    }

    /// The number of textures.
    pub open spec fn count(&self) -> nat {
        self.names@.len()
    }

    /// The raster of texture `texture` tinted with `color`.
    pub open spec fn tinted(&self, texture: int, color: Color) -> Raster {
        self.colored@[texture]@[index_of(color)]
    }

    /// The raster of the base tinted with `color`.
    pub open spec fn tinted_base(&self, color: Color) -> Raster {
        self.base@[index_of(color)]
    }

    /// Makes a cache of tinted rasters: `Some` exactly when there is at least
    /// one texture, a name for each, and every row holds sixteen rasters of
    /// one common size.
    pub fn new(names: Vec<String>, base: Vec<Raster>, colored: Vec<Vec<Raster>>) -> (made: Option<
        TextureBuffer,
    >)
        ensures
            made.is_some() <==> cache_fits(names@, base@, colored@),
            made matches Some(cache) ==> cache.wf() && cache.names@ == names@ && cache.base@
                == base@ && cache.colored@ == colored@,
    {
        if names.len() == 0 || colored.len() != names.len() || base.len() != 16 {
            return None;
        }
        let width = base[0].width;
        let height = base[0].height;
        if !check_row(&base, width, height) {
            return None;
        }
        let mut t: usize = 0;
        while t < colored.len()
            invariant
                t <= colored@.len(),
                base@.len() == 16,
                width == base@[0].width,
                height == base@[0].height,
                forall|k: int| 0 <= k < t ==> row_fits((#[trigger] colored@[k])@, width, height),
            decreases colored@.len() - t,
        {
            if !check_row(&colored[t], width, height) {
                assert(!row_fits(colored@[t as int]@, base@[0].width, base@[0].height));
                return None;
            }
            t += 1;
        }
        Some(TextureBuffer { width, height, names, base, colored })
    }

    /// The number of textures.
    pub fn len(&self) -> (n: usize)
        ensures
            n == self.count(),
    {
        self.names.len()
    }

    /// The id of the texture named `name`: the first position that holds the
    /// name, or `None` if no texture has it.
    pub fn texture_id(&self, name: &str) -> (found: Option<TextureId>)
        ensures
            match found {
                Some(id) => id < self.count() && self.names@[id as int]@ == name@ && forall|j: int|
                    0 <= j < id ==> (#[trigger] self.names@[j])@ != name@,
                None => forall|j: int| 0 <= j < self.count() ==> (#[trigger] self.names@[j])@ != name@,
            },
    {
        let wanted = name.to_owned();
        let mut id: usize = 0;
        while id < self.names.len()
            invariant
                id <= self.names@.len(),
                wanted@ == name@,
                forall|j: int| 0 <= j < id ==> (#[trigger] self.names@[j])@ != name@,
            decreases self.names@.len() - id,
        {
            if self.names[id] == wanted {
                return Some(id);
            }
            id += 1;
        }
        None
    }

    /// The raster of texture `texture` tinted with the palette color `color`.
    pub fn get_colored_texture(&self, texture: TextureId, color: Color) -> (raster: &Raster)
        requires
            self.wf(),
            texture < self.count(),
            in_palette(color),
        ensures
            *raster == self.tinted(texture as int, color),
            raster.wf(),
            raster.width == self.width,
            raster.height == self.height,
    {
        match palette_index(color) {
            Some(c) => &self.colored[texture][c],
            None => {
                proof {
                    assert(false);
                }
                &self.base[0]
            },
        }
    }

    /// The raster of the base tinted with the palette color `color`.
    pub fn get_colored_base(&self, color: Color) -> (raster: &Raster)
        requires
            self.wf(),
            in_palette(color),
        ensures
            *raster == self.tinted_base(color),
            raster.wf(),
            raster.width == self.width,
            raster.height == self.height,
    {
        match palette_index(color) {
            Some(c) => &self.base[c],
            None => {
                proof {
                    assert(false);
                }
                &self.base[0]
            },
        }
    }
}

} // verus!
