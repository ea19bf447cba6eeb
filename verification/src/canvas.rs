//! Addressing of the pixels of an image: one ray per pixel, numbered row by
//! row from the top left.

use vstd::prelude::*;
use vstd::arithmetic::div_mod::lemma_fundamental_div_mod;
use vstd::arithmetic::div_mod::lemma_fundamental_div_mod_converse;

verus! {

/// The number of the ray through the pixel at (`column`, `row`) of an image
/// that is `image_width` pixels wide.
pub open spec fn ray_number(column: int, row: int, image_width: int) -> int {
    row * image_width + column
}

/// The (column, row) of the pixel that ray `ray_index` goes through, in an
/// image that is `image_width` pixels wide.
pub fn pixel_position(ray_index: usize, image_width: usize) -> (position: (usize, usize))
    requires
        image_width > 0,
    ensures
        position.0 == ray_index % image_width,
        position.1 == ray_index / image_width,
        position.0 < image_width,
        ray_number(position.0 as int, position.1 as int, image_width as int) == ray_index,
{
    proof {
        lemma_fundamental_div_mod(ray_index as int, image_width as int);
        assert((ray_index / image_width) * image_width == image_width * (ray_index / image_width))
            by (nonlinear_arith);
    }
    (ray_index % image_width, ray_index / image_width)
}

/// The number of the ray through the pixel at (`column`, `row`), or `None`
/// where the pixel lies outside the image's width or its number does not fit
/// the machine's word.
pub fn ray_index(column: usize, row: usize, image_width: usize) -> (index: Option<usize>)
    ensures
        index is Some <==> column < image_width && ray_number(
            column as int,
            row as int,
            image_width as int,
        ) <= usize::MAX,
        index is Some ==> index->0 == ray_number(column as int, row as int, image_width as int),
{
    if column >= image_width {
        return None;
    }
    match row.checked_mul(image_width) {
        Some(start) => start.checked_add(column),
        None => {
            None
        },
    }
}

/// Numbering a pixel and locating the ray of that number gives the pixel
/// back: the two addressings of an image agree.
pub proof fn lemma_position_of_ray_number(column: int, row: int, image_width: int)
    requires
        0 <= column < image_width,
        0 <= row,
    ensures
        ray_number(column, row, image_width) % image_width == column,
        ray_number(column, row, image_width) / image_width == row,
{
    lemma_fundamental_div_mod_converse(
        ray_number(column, row, image_width),
        image_width,
        row,
        column,
    );
}

/// The rays of an image that is `image_width` by `image_height` are numbered
/// from zero up to, and not including, the number of its pixels.
pub proof fn lemma_ray_number_in_image(
    column: int,
    row: int,
    image_width: int,
    image_height: int,
)
    requires
        0 <= column < image_width,
        0 <= row < image_height,
    ensures
        0 <= ray_number(column, row, image_width) < image_width * image_height,
{
    assert(row * image_width + column < image_width * image_height) by (nonlinear_arith)
        requires
            0 <= column < image_width,
            0 <= row < image_height,
    ;
    assert(0 <= row * image_width) by (nonlinear_arith)
        requires
            0 <= row,
            0 < image_width,
    ;
}

} // verus!
