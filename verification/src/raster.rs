//! Rasters of RGBA pixels, the distance between two of them, and compositing.

use vstd::prelude::*;

verus! {

/// An image of `width * height` RGBA pixels, stored row by row, four bytes per
/// pixel.
#[derive(Debug)]
pub struct Raster {
    pub width: u32,
    pub height: u32,
    pub data: Vec<u8>,
}

/// The squared difference of two channel values.
pub open spec fn sq_diff(a: u8, b: u8) -> nat {
    ((a as int - b as int) * (a as int - b as int)) as nat
}

/// The sum of the squared differences of the first `n` bytes of `a` and `b`.
pub open spec fn sq_distance_upto(a: Seq<u8>, b: Seq<u8>, n: nat) -> nat
    decreases n,
{
    if n == 0 {
        0
    } else {
        sq_distance_upto(a, b, (n - 1) as nat) + sq_diff(a[n - 1], b[n - 1])
    }
}

/// The squared Euclidean distance between two byte sequences of one length:
/// the sum over all pixels and all four channels of the squared difference.
pub open spec fn sq_distance(a: Seq<u8>, b: Seq<u8>) -> nat {
    sq_distance_upto(a, b, a.len())
}

/// The four bytes of pixel `p`.
pub open spec fn pixel_at(data: Seq<u8>, p: int) -> Seq<u8> {
    data.subrange(4 * p, 4 * p + 4)
}

/// What compositing `top` over `bottom` gives, both `width` by `height`: the
/// bytes that `image::imageops::overlay` leaves in the bottom image when the
/// top image is placed at its origin.
pub uninterp spec fn overlaid(bottom: Seq<u8>, top: Seq<u8>, width: u32, height: u32) -> Seq<u8>;

/// A single squared difference is at most `255 * 255`.
pub proof fn sq_diff_bound(a: u8, b: u8)
    ensures
        sq_diff(a, b) <= 65025,
        sq_diff(a, b) == 0 <==> a == b,
{
    let d = a as int - b as int;
    assert(-255 <= d <= 255);
    assert(d * d <= 65025) by (nonlinear_arith)
        requires
            -255 <= d <= 255,
    ;
    assert(d * d == 0 <==> d == 0) by (nonlinear_arith);
    assert(d * d >= 0) by (nonlinear_arith);
}

/// A partial sum is zero exactly when the two sequences agree on that prefix.
pub proof fn sq_distance_upto_zero(a: Seq<u8>, b: Seq<u8>, n: nat)
    requires
        n <= a.len(),
        n <= b.len(),
    ensures
        sq_distance_upto(a, b, n) == 0 <==> (forall|i: int| 0 <= i < n ==> a[i] == b[i]),
    decreases n,
{
    if n > 0 {
        sq_distance_upto_zero(a, b, (n - 1) as nat);
        sq_diff_bound(a[n - 1], b[n - 1]);
        if sq_distance_upto(a, b, n) == 0 {
            assert forall|i: int| 0 <= i < n implies a[i] == b[i] by {
                if i < n - 1 {
                } else {
                    assert(a[n - 1] == b[n - 1]);
                }
            }
        }
    }
}

/// The distance between two rasters of one size is zero exactly when they are
/// identical byte for byte.
pub proof fn sq_distance_zero_iff_equal(a: Seq<u8>, b: Seq<u8>)
    requires
        a.len() == b.len(),
    ensures
        sq_distance(a, b) == 0 <==> a == b,
{
    sq_distance_upto_zero(a, b, a.len());
    if sq_distance(a, b) == 0 {
        assert(a =~= b);
    }
}

impl Raster {
    /// The size matches the buffer: four bytes for each of `width * height`
    /// pixels.
    pub open spec fn wf(&self) -> bool {
        self.data@.len() == 4 * self.width * self.height
    }

    /// Two rasters have the same width and height.
    pub open spec fn same_size(&self, other: &Raster) -> bool {
        self.width == other.width && self.height == other.height
    }

    /// Makes a raster of a buffer: `Some` exactly when the buffer holds four
    /// bytes for each pixel.
    pub fn from_raw(width: u32, height: u32, data: Vec<u8>) -> (made: Option<Raster>)
        ensures
            made.is_some() <==> data@.len() == 4 * width * height,
            made matches Some(r) ==> r.wf() && r.width == width && r.height == height && r.data@
                == data@,
    {
        assert(width * height <= 0xFFFF_FFFF * 0xFFFF_FFFF) by (nonlinear_arith)
            requires
                0 <= width <= 0xFFFF_FFFF,
                0 <= height <= 0xFFFF_FFFF,
        ;
        let pixels: u64 = (width as u64) * (height as u64);
        let len: u128 = 4 * (pixels as u128);
        assert(len == 4 * width * height) by (nonlinear_arith)
            requires
                len == 4 * pixels,
                pixels == width * height,
        ;
        if data.len() as u128 == len {
            Some(Raster { width, height, data })
        } else {
            None
        }
    }

    /// Whether the buffer holds four bytes for each pixel.
    pub fn is_wf(&self) -> (ok: bool)
        ensures
            ok == self.wf(),
    {
        let width = self.width;
        let height = self.height;
        assert(width * height <= 0xFFFF_FFFF * 0xFFFF_FFFF) by (nonlinear_arith)
            requires
                0 <= width <= 0xFFFF_FFFF,
                0 <= height <= 0xFFFF_FFFF,
        ;
        let pixels: u64 = (width as u64) * (height as u64);
        let len: u128 = 4 * (pixels as u128);
        assert(len == 4 * width * height) by (nonlinear_arith)
            requires
                len == 4 * pixels,
                pixels == width * height,
        ;
        self.data.len() as u128 == len
    }

    /// Hands the buffer back.
    pub fn into_raw(self) -> (data: Vec<u8>)
        ensures
            data@ == self.data@,
    {
        self.data
    }

    /// The squared distance to `other`: the sum over all pixels and channels
    /// of the squared difference.
    pub fn sq_distance(&self, other: &Raster) -> (d: u128)
        requires
            self.data@.len() == other.data@.len(),
        ensures
            d == sq_distance(self.data@, other.data@),
            d == 0 <==> self.data@ == other.data@,
    {
        let n = self.data.len();
        let mut acc: u128 = 0;
        let mut i: usize = 0;
        while i < n
            invariant
                n == self.data@.len(),
                n == other.data@.len(),
                i <= n,
                acc == sq_distance_upto(self.data@, other.data@, i as nat),
                acc <= 65025 * i,
            decreases n - i,
        {
            let a = self.data[i];
            let b = other.data[i];
            let d: u128 = if a >= b {
                (a - b) as u128
            } else {
                (b - a) as u128
            };
            proof {
                sq_diff_bound(a, b);
                assert(d * d == sq_diff(a, b)) by (nonlinear_arith)
                    requires
                        d == a as int - b as int || d == b as int - a as int,
                        sq_diff(a, b) == ((a as int - b as int) * (a as int - b as int)) as nat,
                ;
            }
            acc = acc + d * d;
            i += 1;
        }
        proof {
            sq_distance_zero_iff_equal(self.data@, other.data@);
        }
        acc
    }
}

impl Clone for Raster {
    fn clone(&self) -> (copy: Self)
        ensures
            copy.width == self.width,
            copy.height == self.height,
            copy.data@ == self.data@,
    {
        let data = self.data.clone();
        assert(data@ =~= self.data@);
        Raster { width: self.width, height: self.height, data }
    }
}

/// Composites `top` over `bottom` in place, pixel by pixel, with
/// `image::imageops::overlay` at the origin.
///
/// Trusted: the bottom raster keeps its size and holds the bytes named
/// `overlaid`; where a pixel of `top` is fully transparent the pixel below is
/// kept, and where it is fully opaque it replaces the pixel below.
#[verifier::external_body]
pub(crate) fn overlay(bottom: &mut Raster, top: &Raster)
    requires
        old(bottom).wf(),
        top.wf(),
        old(bottom).same_size(top),
    ensures
        final(bottom).width == old(bottom).width,
        final(bottom).height == old(bottom).height,
        final(bottom).data@ == overlaid(old(bottom).data@, top.data@, top.width, top.height),
        final(bottom).data@.len() == old(bottom).data@.len(),
        forall|p: int|
            0 <= p < top.width * top.height && top.data@[4 * p + 3] == 0 ==> #[trigger] pixel_at(
                final(bottom).data@,
                p,
            ) == pixel_at(old(bottom).data@, p),
        forall|p: int|
            0 <= p < top.width * top.height && top.data@[4 * p + 3] == 255 ==> #[trigger] pixel_at(
                final(bottom).data@,
                p,
            ) == pixel_at(top.data@, p),
{
    let below = std::mem::take(&mut bottom.data);
    let mut canvas = image::RgbaImage::from_raw(bottom.width, bottom.height, below).unwrap();
    let above = image::ImageBuffer::<image::Rgba<u8>, &[u8]>::from_raw(
        top.width,
        top.height,
        top.data.as_slice(),
    ).unwrap();
    image::imageops::overlay(&mut canvas, &above, 0, 0);
    bottom.data = canvas.into_raw();
}

} // verus!
