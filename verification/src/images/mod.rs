//! Images as rows of 8-bit RGBA pixels, and their decoding.
use vstd::prelude::*;

pub mod bmp;
pub mod spritesheet;
pub mod utils;

verus! {

/// One pixel: red, green, blue and alpha intensities out of 255.
#[derive(Debug, Clone, Copy, PartialEq, Eq, Structural)]
pub struct Rgba8 {
    pub r: u8,
    pub g: u8,
    pub b: u8,
    pub a: u8,
}

/// An image of `width` by `height` pixels, stored row by row.
#[derive(Debug)]
pub struct Image {
    pub width: usize,
    pub height: usize,
    pub data: Vec<Rgba8>,
}

/// The bytes of a sequence of pixels, four per pixel in red, green, blue,
/// alpha order.
pub open spec fn pixel_bytes(pixels: Seq<Rgba8>) -> Seq<u8> {
    Seq::new(
        (pixels.len() * 4) as nat,
        |i: int|
            {
                let p = pixels[i / 4];
                if i % 4 == 0 {
                    p.r
                } else if i % 4 == 1 {
                    p.g
                } else if i % 4 == 2 {
                    p.b
                } else {
                    p.a
                }
            },
    )
}

/// The pixel whose four bytes start at byte `4 * k` of `data`.
pub open spec fn pixel_at(data: Seq<u8>, k: int) -> Rgba8 {
    Rgba8 { r: data[4 * k], g: data[4 * k + 1], b: data[4 * k + 2], a: data[4 * k + 3] }
}

impl Image {
    /// The image's pixels as bytes, four per pixel in red, green, blue,
    /// alpha order.
    pub fn raw_pixels(&self) -> (r: Vec<u8>)
        requires
            self.data@.len() * 4 <= usize::MAX,
        ensures
            r@ == pixel_bytes(self.data@),
    {
        let mut raw: Vec<u8> = Vec::new();
        let n = self.data.len();
        let mut i: usize = 0;
        while i < n
            invariant
                n == self.data@.len(),
                n * 4 <= usize::MAX,
                i <= n,
                raw@ =~= pixel_bytes(self.data@.take(i as int)),
            decreases n - i,
        {
            let color = self.data[i];
            raw.push(color.r);
            raw.push(color.g);
            raw.push(color.b);
            raw.push(color.a);
            i += 1;
            assert(raw@ =~= pixel_bytes(self.data@.take(i as int))) by {
                assert forall|k: int| 0 <= k < raw@.len() implies raw@[k] == pixel_bytes(
                    self.data@.take(i as int),
                )[k] by {
                    assert(self.data@.take(i as int)[k / 4] == self.data@[k / 4]);
                    if k < 4 * (i - 1) {
                        assert(self.data@.take(i - 1)[k / 4] == self.data@[k / 4]);
                    }
                }
            }
        }
        assert(self.data@.take(n as int) =~= self.data@);
        return raw;
    }

    /// The pixels of a `w` by `h` image given as bytes, four per pixel in
    /// red, green, blue, alpha order, row by row.
    pub fn data_from_raw_pixels(w: usize, h: usize, data: Vec<u8>) -> (r: Vec<Rgba8>)
        requires
            w * h * 4 <= data@.len(),
        ensures
            r@.len() == w * h,
            forall|k: int| 0 <= k < w * h ==> #[trigger] r@[k] == pixel_at(data@, k),
    {
        let mut res: Vec<Rgba8> = Vec::new();
        let mut y: usize = 0;
        while y < h
            invariant
                w * h * 4 <= data@.len(),
                y <= h,
                res@.len() == y * w,
                forall|k: int| 0 <= k < y * w ==> #[trigger] res@[k] == pixel_at(data@, k),
            decreases h - y,
        {
            let mut x: usize = 0;
            while x < w
                invariant
                    w * h * 4 <= data@.len(),
                    y < h,
                    x <= w,
                    res@.len() == y * w + x,
                    forall|k: int| 0 <= k < y * w + x ==> #[trigger] res@[k] == pixel_at(data@, k),
                decreases w - x,
            {
                assert(y * w + x < w * h) by (nonlinear_arith)
                    requires
                        y < h,
                        x < w,
                ;
                assert(y * w * 4 + x * 4 + 3 < w * h * 4 && y * w * 4 == (y * w) * 4) by (nonlinear_arith)
                    requires
                        y * w + x < w * h,
                ;
                assert(data@.len() == data.len());
                let base = y * w * 4 + x * 4;
                let r = data[base];
                let g = data[base + 1];
                let b = data[base + 2];
                let a = data[base + 3];
                res.push(Rgba8 { r, g, b, a });
                x += 1;
            }
            assert((y + 1) * w == y * w + w) by (nonlinear_arith);
            y += 1;
        }
        assert(y * w == w * h) by (nonlinear_arith)
            requires
                y == h,
        ;
        return res;
    }
}

/// Decoding the bytes of a sequence of pixels gives the pixels back:
/// `data_from_raw_pixels` undoes `raw_pixels`.
pub proof fn lemma_pixel_bytes_roundtrip(pixels: Seq<Rgba8>)
    ensures
        forall|k: int| 0 <= k < pixels.len() ==> #[trigger] pixel_at(pixel_bytes(pixels), k) == pixels[k],
{
    assert forall|k: int| 0 <= k < pixels.len() implies #[trigger] pixel_at(pixel_bytes(pixels), k)
        == pixels[k] by {
        let b = pixel_bytes(pixels);
        assert((4 * k) / 4 == k && (4 * k) % 4 == 0);
        assert((4 * k + 1) / 4 == k && (4 * k + 1) % 4 == 1);
        assert((4 * k + 2) / 4 == k && (4 * k + 2) % 4 == 2);
        assert((4 * k + 3) / 4 == k && (4 * k + 3) % 4 == 3);
    }
}

} // verus!
