//! The order in which the sampler emits pixels: rows from the top of the
//! image (row `height - 1`) down to row 0, each row from column 0 rightwards.

use vstd::arithmetic::div_mod::lemma_fundamental_div_mod;
use vstd::arithmetic::div_mod::lemma_fundamental_div_mod_converse;
use vstd::prelude::*;

verus! {

/// Number of pixels of an image; a side that is not positive gives none.
pub open spec fn pixel_count(height: int, width: int) -> int {
    if height > 0 && width > 0 {
        height * width
    } else {
        0
    }
}

/// Column of the pixel at position `k` of the emission order.
pub open spec fn column_at(k: int, width: int) -> int {
    k % width
}

/// Row of the pixel at position `k` of the emission order.
pub open spec fn row_at(k: int, height: int, width: int) -> int {
    height - 1 - k / width
}

/// Position in the emission order of the pixel at column `x`, row `y`.
pub open spec fn raster_index(x: int, y: int, height: int, width: int) -> int {
    (height - 1 - y) * width + x
}

/// Every pixel of the frame has a position in the emission order, and that
/// position leads back to it.
pub proof fn lemma_raster_index_round_trip(x: int, y: int, height: int, width: int)
    requires
        0 <= x < width,
        0 <= y < height,
    ensures
        0 <= raster_index(x, y, height, width) < pixel_count(height, width),
        column_at(raster_index(x, y, height, width), width) == x,
        row_at(raster_index(x, y, height, width), height, width) == y,
{
    let q = height - 1 - y;
    let k = raster_index(x, y, height, width);
    assert(0 <= q * width <= (height - 1) * width) by (nonlinear_arith)
        requires
            0 <= q <= height - 1,
            width > 0,
    ;
    assert((height - 1) * width + width == height * width) by (nonlinear_arith);
    lemma_fundamental_div_mod_converse(k, width, q, x);
}

/// Every position of the emission order names a pixel inside the frame, and
/// that pixel's position is the one it came from.
pub proof fn lemma_pixel_in_frame(k: int, height: int, width: int)
    requires
        0 <= k < pixel_count(height, width),
    ensures
        0 <= column_at(k, width) < width,
        0 <= row_at(k, height, width) < height,
        raster_index(column_at(k, width), row_at(k, height, width), height, width) == k,
{
    lemma_fundamental_div_mod(k, width);
    let q = k / width;
    let r = k % width;
    assert(0 <= q < height) by (nonlinear_arith)
        requires
            k == width * q + r,
            0 <= r < width,
            0 <= k < height * width,
    ;
    assert((height - 1 - (height - 1 - q)) * width + r == width * q + r) by (nonlinear_arith);
}

/// Rows come top to bottom and, within a row, pixels left to right: of two
/// positions, the earlier lies on a higher row, or on the same row further
/// left.
pub proof fn lemma_raster_order_monotone(height: int, width: int, i: int, j: int)
    requires
        0 < width,
        0 <= i < j,
    ensures
        row_at(i, height, width) > row_at(j, height, width) || (row_at(i, height, width)
            == row_at(j, height, width) && column_at(i, width) < column_at(j, width)),
{
    lemma_fundamental_div_mod(i, width);
    lemma_fundamental_div_mod(j, width);
    let qi = i / width;
    let qj = j / width;
    let ri = i % width;
    let rj = j % width;
    assert(qi < qj || (qi == qj && ri < rj)) by (nonlinear_arith)
        requires
            i == width * qi + ri,
            j == width * qj + rj,
            0 <= ri < width,
            0 <= rj < width,
            i < j,
    ;
}

/// The pixel coordinates `(x, y)` of an image in the order the sampler emits
/// them. A side that is not positive gives an empty image.
pub fn raster_order(image_height: i32, image_width: i32) -> (r: Vec<(i32, i32)>)
    ensures
        r@.len() == pixel_count(image_height as int, image_width as int),
        forall|k: int|
            0 <= k < r@.len() ==> {
                &&& r@[k].0 as int == column_at(k, image_width as int)
                &&& r@[k].1 as int == row_at(k, image_height as int, image_width as int)
            },
{
    let mut r: Vec<(i32, i32)> = Vec::new();
    if image_height <= 0 || image_width <= 0 {
        return r;
    }
    let ghost h = image_height as int;
    let ghost w = image_width as int;
    let mut y: i32 = image_height;
    while y > 0
        invariant
            0 <= y <= h,
            w > 0,
            h == image_height,
            w == image_width,
            r@.len() == (h - y) * w,
            forall|k: int|
                0 <= k < r@.len() ==> {
                    &&& r@[k].0 as int == column_at(k, w)
                    &&& r@[k].1 as int == row_at(k, h, w)
                },
        decreases y,
    {
        y = y - 1;
        let mut x: i32 = 0;
        assert((h - (y + 1)) * w == (h - 1 - y) * w);
        while x < image_width
            invariant
                0 <= x <= w,
                0 <= y < h,
                h == image_height,
                w == image_width,
                r@.len() == (h - 1 - y) * w + x,
                forall|k: int|
                    0 <= k < r@.len() ==> {
                        &&& r@[k].0 as int == column_at(k, w)
                        &&& r@[k].1 as int == row_at(k, h, w)
                    },
            decreases w - x,
        {
            proof {
                lemma_raster_index_round_trip(x as int, y as int, h, w);
            }
            r.push((x, y));
            x = x + 1;
        }
        assert((h - 1 - y) * w + w == (h - y) * w) by (nonlinear_arith);
    }
    assert((h - 0) * w == h * w);
    r
}

} // verus!
