//! Sprite sheets: images cut into a grid of equally sized sprites.
use vstd::prelude::*;
use crate::images::{Image, Rgba8};

verus! {

/// An image holding `rows` by `columns` sprites of equal size.
pub struct Spritesheet {
    rows: usize,
    columns: usize,
    image: Image,
}

/// Pixel `(i, j)` of the sprite at column `x`, row `y` of a sheet whose
/// image is `width` pixels wide and whose sprites are `sw` by `sh`: the
/// sheet pixel at column `sw * x + i`, row `sh * y + j`.
pub open spec fn sprite_source_index(width: int, sw: int, sh: int, x: int, y: int, i: int, j: int) -> int {
    width * (sh * y + j) + sw * x + i
}

/// Sprite pixel `(i, j)` comes from the sheet's row `sh * y + j` and column
/// `sw * x + i`: sprites tile the sheet left to right and top to bottom,
/// each keeping its own pixels in place.
pub proof fn lemma_sprite_pixel_position(width: int, sw: int, sh: int, x: int, y: int, i: int, j: int)
    requires
        0 <= x,
        0 <= y,
        0 <= i < sw,
        0 <= j < sh,
        sw * (x + 1) <= width,
    ensures
        sprite_source_index(width, sw, sh, x, y, i, j) / width == sh * y + j,
        sprite_source_index(width, sw, sh, x, y, i, j) % width == sw * x + i,
{
    assert(sw * x + i < width) by (nonlinear_arith)
        requires
            0 <= i < sw,
            sw * (x + 1) <= width,
    ;
    assert(0 <= sw * x) by (nonlinear_arith)
        requires
            0 <= x,
            0 <= sw,
    ;
    assert(width * (sh * y + j) == (sh * y + j) * width) by (nonlinear_arith);
    vstd::arithmetic::div_mod::lemma_fundamental_div_mod_converse(
        sprite_source_index(width, sw, sh, x, y, i, j),
        width,
        sh * y + j,
        sw * x + i,
    );
}

impl Spritesheet {
    /// Number of sprite rows.
    pub closed spec fn spec_rows(&self) -> usize {
        self.rows
    }

    /// Number of sprite columns.
    pub closed spec fn spec_columns(&self) -> usize {
        self.columns
    }

    /// The whole sheet.
    pub closed spec fn spec_image(&self) -> &Image {
        &self.image
    }

    /// Width of one sprite: the sheet's width shared out over the columns.
    pub open spec fn sprite_width(&self) -> int {
        self.spec_image().width as int / self.spec_columns() as int
    }

    /// Height of one sprite: the sheet's height shared out over the rows.
    pub open spec fn sprite_height(&self) -> int {
        self.spec_image().height as int / self.spec_rows() as int
    }

    /// A sheet of `rows` by `columns` sprites cut from `image`.
    pub fn new(rows: usize, columns: usize, image: Image) -> (r: Spritesheet)
        ensures
            r.spec_rows() == rows,
            r.spec_columns() == columns,
            r.spec_image() == image,
    {
        Spritesheet { rows, columns, image }
    }

    /// Whether `sprite(x, y)` reads only inside the sheet and computes no
    /// index beyond `usize`.
    pub open spec fn can_cut(&self, x: usize, y: usize) -> bool {
        &&& self.spec_rows() > 0
        &&& self.spec_columns() > 0
        &&& self.sprite_height() * (y + 1) <= usize::MAX
        &&& self.sprite_height() > 0 ==> self.sprite_width() * (x + 1) <= usize::MAX
        &&& self.sprite_height() > 0 && self.sprite_width() > 0 ==> sprite_source_index(
            self.spec_image().width as int,
            self.sprite_width(),
            self.sprite_height(),
            x as int,
            y as int,
            self.sprite_width() - 1,
            self.sprite_height() - 1,
        ) < self.spec_image().data@.len()
    }

    /// The sprite at column `x`, row `y`, as an image of its own.
    pub fn sprite(&self, x: usize, y: usize) -> (r: Image)
        requires
            self.can_cut(x, y),
        ensures
            r.width == self.sprite_width(),
            r.height == self.sprite_height(),
            r.data@.len() == r.width * r.height,
            forall|i: int, j: int|
                0 <= i < r.width && 0 <= j < r.height ==> #[trigger] r.data@[j * r.width + i]
                    == self.spec_image().data@[sprite_source_index(
                    self.spec_image().width as int,
                    r.width as int,
                    r.height as int,
                    x as int,
                    y as int,
                    i,
                    j,
                )],
    {
        let width = self.image.width;
        let height = self.image.height;
        let sprite_width = width / self.columns;
        let sprite_height = height / self.rows;
        let ghost len = self.image.data@.len();
        let mut data: Vec<Rgba8> = Vec::new();
        assert(sprite_height * y + sprite_height == sprite_height * (y + 1)) by (nonlinear_arith);
        let y0 = sprite_height * y;
        let y1 = sprite_height * y + sprite_height;
        let mut yy = y0;
        while yy < y1
            invariant
                self.can_cut(x, y),
                sprite_width == self.sprite_width(),
                sprite_height == self.sprite_height(),
                width == self.spec_image().width,
                len == self.spec_image().data@.len(),
                y0 == sprite_height * y,
                y1 == y0 + sprite_height,
                y0 <= yy <= y1,
                data@.len() == (yy - y0) * sprite_width,
                forall|i: int, j: int|
                    0 <= i < sprite_width && 0 <= j < yy - y0 ==> #[trigger] data@[j * sprite_width + i]
                        == self.spec_image().data@[sprite_source_index(
                        width as int,
                        sprite_width as int,
                        sprite_height as int,
                        x as int,
                        y as int,
                        i,
                        j,
                    )],
            decreases y1 - yy,
        {
            assert(sprite_width * x + sprite_width == sprite_width * (x + 1)) by (nonlinear_arith);
            let x0 = sprite_width * x;
            let x1 = sprite_width * x + sprite_width;
            let mut xx = x0;
            while xx < x1
                invariant
                    self.can_cut(x, y),
                    sprite_width == self.sprite_width(),
                    sprite_height == self.sprite_height(),
                    width == self.spec_image().width,
                    len == self.spec_image().data@.len(),
                    y0 == sprite_height * y,
                    y1 == y0 + sprite_height,
                    y0 <= yy < y1,
                    x0 == sprite_width * x,
                    x1 == x0 + sprite_width,
                    x0 <= xx <= x1,
                    data@.len() == (yy - y0) * sprite_width + (xx - x0),
                    forall|i: int, j: int|
                        0 <= i < sprite_width && 0 <= j < yy - y0 ==> #[trigger] data@[j * sprite_width + i]
                            == self.spec_image().data@[sprite_source_index(
                            width as int,
                            sprite_width as int,
                            sprite_height as int,
                            x as int,
                            y as int,
                            i,
                            j,
                        )],
                    forall|i: int|
                        0 <= i < xx - x0 ==> #[trigger] data@[(yy - y0) * sprite_width + i]
                            == self.spec_image().data@[sprite_source_index(
                            width as int,
                            sprite_width as int,
                            sprite_height as int,
                            x as int,
                            y as int,
                            i,
                            yy - y0,
                        )],
                decreases x1 - xx,
            {
                proof {
                    let i = xx - x0;
                    let j = yy - y0;
                    assert(width * yy + xx <= sprite_source_index(
                        width as int,
                        sprite_width as int,
                        sprite_height as int,
                        x as int,
                        y as int,
                        sprite_width - 1,
                        sprite_height - 1,
                    )) by (nonlinear_arith)
                        requires
                            0 <= i < sprite_width,
                            0 <= j < sprite_height,
                            yy == sprite_height * y + j,
                            xx == sprite_width * x + i,
                            width >= 0,
                    ;
                    assert(width * yy == width * (sprite_height * y + j));
                    assert(self.spec_image().data@.len() == self.image.data.len());
                }
                let ghost before = data@;
                data.push(self.image.data[width * yy + xx]);
                proof {
                    let row = yy - y0;
                    assert forall|i: int, j: int| 0 <= i < sprite_width && 0 <= j < row implies #[trigger] data@[j
                        * sprite_width + i] == before[j * sprite_width + i] by {
                        assert(0 <= j * sprite_width + i < row * sprite_width) by (nonlinear_arith)
                            requires
                                0 <= i < sprite_width,
                                0 <= j < row,
                        ;
                    }
                }
                xx += 1;
            }
            proof {
                let j = yy - y0;
                assert forall|i: int, jj: int|
                    0 <= i < sprite_width && 0 <= jj < j + 1 implies #[trigger] data@[jj * sprite_width + i]
                        == self.spec_image().data@[sprite_source_index(
                        width as int,
                        sprite_width as int,
                        sprite_height as int,
                        x as int,
                        y as int,
                        i,
                        jj,
                    )] by {
                    if jj == j {
                    }
                }
                assert((j + 1) * sprite_width == j * sprite_width + sprite_width) by (nonlinear_arith);
            }
            yy += 1;
        }
        assert((y1 - y0) * sprite_width == sprite_width * sprite_height) by (nonlinear_arith)
            requires
                y1 - y0 == sprite_height,
        ;
        Image { width: sprite_width, height: sprite_height, data }
    }
}

} // verus!
