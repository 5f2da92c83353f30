//! Decoding of 24-bit uncompressed BMP files.
use vstd::prelude::*;
use crate::images::{Image, Rgba8};
use crate::images::utils::{be_u16, be_u32, u16_from_bytes, u32_from_bytes};

verus! {

/// The file header and info header of a BMP file.
#[derive(Debug, Clone, Copy)]
pub struct BitmapHeader {
    pub file_type: u16,
    pub file_size: u32,
    pub r1: u16,
    pub r2: u16,
    pub bmp_offset: u32,
    pub size: u32,
    pub width: u32,
    pub height: u32,
    pub planes: u16,
    pub bpp: u16,
    pub compression: u32,
    pub size_of_bmp: u32,
    pub horz_res: i32,
    pub vert_res: i32,
    pub colors_used: u32,
    pub colors_imp: u32,
    pub red_mask: u32,
    pub green_mask: u32,
    pub blue_mask: u32,
    pub alpha_mask: u32,
}

/// A decoded bitmap: its header and its pixels, top row first.
#[derive(Debug)]
pub struct Bitmap {
    pub header: BitmapHeader,
    pub contents: Vec<Rgba8>,
}

/// The little-endian `u16` at byte `i` of `c`.
pub open spec fn le_u16_at(c: Seq<u8>, i: int) -> int {
    be_u16(c[i + 1], c[i])
}

/// The little-endian `u32` at byte `i` of `c`.
pub open spec fn le_u32_at(c: Seq<u8>, i: int) -> int {
    be_u32(c[i + 3], c[i + 2], c[i + 1], c[i])
}

/// The header fields of a BMP file, each read little-endian from its fixed
/// position in the first 70 bytes.
pub open spec fn header_of(c: Seq<u8>) -> BitmapHeader {
    BitmapHeader {
        file_type: le_u16_at(c, 0) as u16,
        file_size: le_u32_at(c, 2) as u32,
        r1: le_u16_at(c, 6) as u16,
        r2: le_u16_at(c, 8) as u16,
        bmp_offset: le_u32_at(c, 10) as u32,
        size: le_u32_at(c, 14) as u32,
        width: le_u32_at(c, 18) as u32,
        height: le_u32_at(c, 22) as u32,
        planes: le_u16_at(c, 26) as u16,
        bpp: le_u16_at(c, 28) as u16,
        compression: le_u32_at(c, 30) as u32,
        size_of_bmp: le_u32_at(c, 34) as u32,
        horz_res: le_u32_at(c, 38) as u32 as i32,
        vert_res: le_u32_at(c, 42) as u32 as i32,
        colors_used: le_u32_at(c, 46) as u32,
        colors_imp: le_u32_at(c, 50) as u32,
        red_mask: le_u32_at(c, 54) as u32,
        green_mask: le_u32_at(c, 58) as u32,
        blue_mask: le_u32_at(c, 62) as u32,
        alpha_mask: le_u32_at(c, 66) as u32,
    }
}

/// Number of pixels stored in the pixel data: one per three bytes of the
/// `size_of_bmp` bytes, the last two of which are padding.
pub open spec fn stored_pixel_count(h: BitmapHeader) -> int {
    h.size_of_bmp as int / 3
}

/// Stored pixel `p`: three bytes in blue, green, red order starting at
/// byte `offset + 3 * p`; fully opaque.
pub open spec fn stored_pixel(c: Seq<u8>, offset: int, p: int) -> Rgba8 {
    Rgba8 { r: c[offset + 3 * p + 2], g: c[offset + 3 * p + 1], b: c[offset + 3 * p], a: 255 }
}

/// The bytes the decoder accepts: a complete header, pixel data that lies
/// inside the file, and at least `width * height` stored pixels.
pub open spec fn bitmap_accepted(c: Seq<u8>) -> bool {
    &&& c.len() >= 70
    &&& header_of(c).size_of_bmp >= 2
    &&& stored_pixel_count(header_of(c)) > 0 ==> header_of(c).bmp_offset + 3 * (stored_pixel_count(
        header_of(c),
    ) - 1) + 2 < c.len()
    &&& header_of(c).width > 0 && header_of(c).height > 0 ==> header_of(c).width * header_of(
        c,
    ).height <= stored_pixel_count(header_of(c))
}

/// The decoded pixels, top row first: the file stores rows bottom row first,
/// so row `j` of the image is stored row `height - 1 - j`.
pub open spec fn decoded_pixels(c: Seq<u8>) -> Seq<Rgba8> {
    let h = header_of(c);
    Seq::new(
        (h.width * h.height) as nat,
        |k: int|
            stored_pixel(c, h.bmp_offset as int, (h.height - 1 - k / h.width as int) * h.width + k % h.width as int),
    )
}

/// Decoding flips the rows and keeps the columns: pixel `i` of image row `j`
/// (rows counted from the top) is the pixel stored at position
/// `(height - 1 - j) * width + i`, i.e. the first decoded row is the last
/// stored row; its three bytes are blue, green, red, and it is opaque.
pub proof fn lemma_decode_flips_rows(c: Seq<u8>, j: int, i: int)
    requires
        0 <= j < header_of(c).height,
        0 <= i < header_of(c).width,
    ensures
        decoded_pixels(c).len() == header_of(c).width * header_of(c).height,
        j * header_of(c).width + i < decoded_pixels(c).len(),
        ({
            let w = header_of(c).width as int;
            let o = header_of(c).bmp_offset + 3 * ((header_of(c).height - 1 - j) * w + i);
            decoded_pixels(c)[j * w + i] == Rgba8 { r: c[o + 2], g: c[o + 1], b: c[o], a: 255 }
        }),
{
    let w = header_of(c).width as int;
    let hh = header_of(c).height as int;
    assert(j * w + i < w * hh) by (nonlinear_arith)
        requires
            0 <= j < hh,
            0 <= i < w,
    ;
    assert(0 <= w * hh) by (nonlinear_arith)
        requires
            0 <= w,
            0 <= hh,
    ;
    vstd::arithmetic::div_mod::lemma_fundamental_div_mod_converse(j * w + i, w, j, i);
}

fn read_u16(c: &[u8], i: usize) -> (r: u16)
    requires
        i + 1 < c@.len(),
    ensures
        r == le_u16_at(c@, i as int),
{
    assert(c@.len() == c.len());
    u16_from_bytes([c[i + 1], c[i]])
}

fn read_u32(c: &[u8], i: usize) -> (r: u32)
    requires
        i + 3 < c@.len(),
    ensures
        r == le_u32_at(c@, i as int),
{
    assert(c@.len() == c.len());
    u32_from_bytes([c[i + 3], c[i + 2], c[i + 1], c[i]])
}

/// Reads the header fields of a BMP file.
fn read_header(c: &[u8]) -> (r: BitmapHeader)
    requires
        c@.len() >= 70,
    ensures
        r == header_of(c@),
{
    BitmapHeader {
        file_type: read_u16(c, 0),
        file_size: read_u32(c, 2),
        r1: read_u16(c, 6),
        r2: read_u16(c, 8),
        bmp_offset: read_u32(c, 10),
        size: read_u32(c, 14),
        width: read_u32(c, 18),
        height: read_u32(c, 22),
        planes: read_u16(c, 26),
        bpp: read_u16(c, 28),
        compression: read_u32(c, 30),
        size_of_bmp: read_u32(c, 34),
        horz_res: read_u32(c, 38) as i32,
        vert_res: read_u32(c, 42) as i32,
        colors_used: read_u32(c, 46),
        colors_imp: read_u32(c, 50),
        red_mask: read_u32(c, 54),
        green_mask: read_u32(c, 58),
        blue_mask: read_u32(c, 62),
        alpha_mask: read_u32(c, 66),
    }
}

impl Bitmap {
    /// Whether `from_bytes` accepts `c`.
    pub fn is_decodable(c: &[u8]) -> (r: bool)
        ensures
            r == bitmap_accepted(c@),
    {
        if c.len() < 70 {
            return false;
        }
        let header = read_header(c);
        if header.size_of_bmp < 2 {
            return false;
        }
        let n: u64 = (header.size_of_bmp / 3) as u64;
        if n > 0 {
            let last: u64 = header.bmp_offset as u64 + 3 * (n - 1) + 2;
            if last >= c.len() as u64 {
                return false;
            }
        }
        if header.width > 0 && header.height > 0 {
            let w = header.width as u64;
            let h = header.height as u64;
            assert(w * h <= u32::MAX * u32::MAX) by (nonlinear_arith)
                requires
                    w <= u32::MAX,
                    h <= u32::MAX,
            ;
            if w * h > n {
                return false;
            }
        }
        true
    }

    /// The bitmap as an image.
    pub fn image(&self) -> (r: Image)
        ensures
            r.width == self.header.width,
            r.height == self.header.height,
            r.data@ == self.contents@,
    {
        Image {
            width: self.header.width as usize,
            height: self.header.height as usize,
            data: self.contents.clone(),
        }
    }

    /// Decodes a BMP file: the header, then `size_of_bmp / 3` stored pixels
    /// from `bmp_offset` on, of which the first `width * height` are
    /// reordered top row first.
    pub fn from_bytes(c: &[u8]) -> (r: Bitmap)
        requires
            bitmap_accepted(c@),
        ensures
            r.header == header_of(c@),
            r.contents@ == decoded_pixels(c@),
    {
        let header = read_header(c);
        let ghost n = stored_pixel_count(header);
        let offset = header.bmp_offset as usize;
        let end: u32 = header.size_of_bmp - 2;
        let mut res: Vec<Rgba8> = Vec::new();
        let mut i: u32 = 0;
        assert(c@.len() == c.len());
        while i < end
            invariant
                header == header_of(c@),
                bitmap_accepted(c@),
                n == stored_pixel_count(header),
                offset == header.bmp_offset,
                end == header.size_of_bmp - 2,
                c@.len() == c.len(),
                i % 3 == 0,
                i < end + 3,
                res@.len() == i / 3,
                forall|p: int| 0 <= p < res@.len() ==> #[trigger] res@[p] == stored_pixel(c@, offset as int, p),
            decreases end + 3 - i,
        {
            assert(i / 3 < n);
            let base = offset + i as usize;
            res.push(Rgba8 { r: c[base + 2], g: c[base + 1], b: c[base], a: 255 });
            i += 3;
        }
        assert(res@.len() == n);
        let width = header.width;
        let height = header.height;
        let mut flipped: Vec<Rgba8> = Vec::new();
        let mut row: u32 = height;
        while row > 0
            invariant
                header == header_of(c@),
                bitmap_accepted(c@),
                n == stored_pixel_count(header),
                width == header.width,
                height == header.height,
                res@.len() == n,
                forall|p: int| 0 <= p < res@.len() ==> #[trigger] res@[p] == stored_pixel(c@, offset as int, p),
                offset == header.bmp_offset,
                row <= height,
                flipped@.len() == (height - row) * width,
                forall|k: int|
                    0 <= k < flipped@.len() ==> #[trigger] flipped@[k] == decoded_pixels(c@)[k],
            decreases row,
        {
            row -= 1;
            let mut x: u32 = 0;
            while x < width
                invariant
                    header == header_of(c@),
                    bitmap_accepted(c@),
                    n == stored_pixel_count(header),
                    width == header.width,
                    height == header.height,
                    res@.len() == n,
                    forall|p: int|
                        0 <= p < res@.len() ==> #[trigger] res@[p] == stored_pixel(c@, offset as int, p),
                    offset == header.bmp_offset,
                    row < height,
                    x <= width,
                    flipped@.len() == (height - 1 - row) * width + x,
                    forall|k: int|
                        0 <= k < flipped@.len() ==> #[trigger] flipped@[k] == decoded_pixels(c@)[k],
                decreases width - x,
            {
                assert(row * width + x < width * height) by (nonlinear_arith)
                    requires
                        row < height,
                        x < width,
                ;
                let p = row * width + x;
                let pixel = res[p as usize];
                proof {
                    let k = (height - 1 - row) * width + x;
                    assert(k < width * height) by (nonlinear_arith)
                        requires
                            k == (height - 1 - row) * width + x,
                            row < height,
                            x < width,
                    ;
                    vstd::arithmetic::div_mod::lemma_fundamental_div_mod_converse(
                        k,
                        width as int,
                        height - 1 - row,
                        x as int,
                    );
                    assert(decoded_pixels(c@)[k] == stored_pixel(c@, offset as int, p as int));
                }
                flipped.push(pixel);
                x += 1;
            }
            assert((height - row) * width == (height - 1 - row) * width + width) by (nonlinear_arith);
        }
        assert(flipped@ =~= decoded_pixels(c@)) by {
            assert((height - 0) * width == width * height) by (nonlinear_arith);
        }
        return Bitmap { header, contents: flipped };
    }
}

} // verus!
