//! The plain-text PPM form of a finished image.

use vstd::prelude::*;
use vstd::string::*;
use vstd::arithmetic::div_mod::lemma_fundamental_div_mod_converse;

verus! {

/// The decimal digit for `d`, which is less than ten.
pub open spec fn digit_char(d: nat) -> char {
    if d == 0 {
        '0'
    } else if d == 1 {
        '1'
    } else if d == 2 {
        '2'
    } else if d == 3 {
        '3'
    } else if d == 4 {
        '4'
    } else if d == 5 {
        '5'
    } else if d == 6 {
        '6'
    } else if d == 7 {
        '7'
    } else if d == 8 {
        '8'
    } else {
        '9'
    }
}

/// The number that a decimal digit stands for; zero for any other character.
pub open spec fn digit_value(c: char) -> nat {
    if c == '1' {
        1
    } else if c == '2' {
        2
    } else if c == '3' {
        3
    } else if c == '4' {
        4
    } else if c == '5' {
        5
    } else if c == '6' {
        6
    } else if c == '7' {
        7
    } else if c == '8' {
        8
    } else if c == '9' {
        9
    } else {
        0
    }
}

/// Whether `c` is one of the ten decimal digits.
pub open spec fn is_digit(c: char) -> bool {
    c == '0' || c == '1' || c == '2' || c == '3' || c == '4' || c == '5' || c == '6' || c == '7'
        || c == '8' || c == '9'
}

/// `n` in decimal, most significant digit first, without leading zeros.
pub open spec fn decimal(n: nat) -> Seq<char>
    decreases n,
{
    if n < 10 {
        seq![digit_char(n)]
    } else {
        decimal(n / 10).push(digit_char(n % 10))
    }
}

/// The number that a sequence of decimal digits denotes.
pub open spec fn decimal_value(digits: Seq<char>) -> nat
    decreases digits.len(),
{
    if digits.len() == 0 {
        0
    } else {
        10 * decimal_value(digits.drop_last()) + digit_value(digits.last())
    }
}

/// The three lines that open an image of `width` by `height` pixels: the
/// format's name, the two sizes, and the greatest value of a channel. The
/// second and third line are indented by eight spaces.
pub open spec fn ppm_header(width: nat, height: nat) -> Seq<char> {
    "P3\n        "@ + decimal(width) + " "@ + decimal(height) + "\n        255\n"@
}

/// The line for one pixel: its first three channels, in decimal.
pub open spec fn pixel_line(pixel: Seq<u8>) -> Seq<char> {
    decimal(pixel[0] as nat) + "  "@ + decimal(pixel[1] as nat) + "  "@ + decimal(pixel[2] as nat)
        + "\n"@
}

/// The lines of the first `count` pixels of `pixels`, counted row by row.
/// `pixels` holds one sequence per column, so pixel `n` of an image that is
/// `w` wide stands at column `n % w`, row `n / w`.
pub open spec fn ppm_body(pixels: Seq<Seq<Seq<u8>>>, count: nat) -> Seq<char>
    decreases count,
{
    if count == 0 {
        Seq::empty()
    } else {
        let n: nat = (count - 1) as nat;
        ppm_body(pixels, n) + pixel_line(
            pixels[n as int % pixels.len() as int][n as int / pixels.len() as int],
        )
    }
}

/// The image in plain-text PPM: the header, then one line per pixel, row by
/// row. The image is as wide as `pixels` is long and as high as its first
/// column.
pub open spec fn ppm_text(pixels: Seq<Seq<Seq<u8>>>) -> Seq<char> {
    ppm_header(pixels.len(), pixels[0].len()) + ppm_body(pixels, pixels.len() * pixels[0].len())
}

/// Whether `pixels` holds a pixel at (`column`, `row`) with at least three
/// channels.
pub open spec fn has_pixel(pixels: Seq<Seq<Seq<u8>>>, column: int, row: int) -> bool {
    0 <= column < pixels.len() && 0 <= row < pixels[column].len() && pixels[column][row].len() >= 3
}

/// An image that can be written: at least one column, and a pixel of three
/// channels or more in every column for each row of the first.
pub open spec fn drawable(pixels: Seq<Seq<Seq<u8>>>) -> bool {
    &&& pixels.len() > 0
    &&& forall|column: int, row: int|
        0 <= column < pixels.len() && 0 <= row < pixels[0].len() ==> #[trigger] has_pixel(
            pixels,
            column,
            row,
        )
}

/// The digits of `n` denote `n`, and `n` alone: the decimal form of a
/// number determines it.
pub proof fn lemma_decimal_denotes(n: nat)
    ensures
        decimal_value(decimal(n)) == n,
        decimal(n).len() >= 1,
        forall|i: int| 0 <= i < decimal(n).len() ==> is_digit(#[trigger] decimal(n)[i]),
    decreases n,
{
    if n < 10 {
        assert(decimal_value(decimal(n).drop_last()) == 0);
    } else {
        lemma_decimal_denotes(n / 10);
        assert(decimal(n).drop_last() =~= decimal(n / 10));
    }
}

/// A number of ten or more starts with a digit other than zero.
pub proof fn lemma_decimal_no_leading_zero(n: nat)
    requires
        n >= 10,
    ensures
        decimal(n)[0] != '0',
    decreases n,
{
    lemma_decimal_denotes(n / 10);
    if n / 10 >= 10 {
        lemma_decimal_no_leading_zero(n / 10);
    }
}

/// Whether `pixel_array` can be written: whether it is `drawable`.
pub fn is_drawable(pixel_array: &Vec<Vec<Vec<u8>>>) -> (ok: bool)
    ensures
        ok == drawable(pixel_array.deep_view()),
{
    let ghost pixels = pixel_array.deep_view();
    if pixel_array.len() == 0 {
        return false;
    }
    let image_width: usize = pixel_array.len();
    let image_height: usize = pixel_array[0].len();
    let mut i: usize = 0;
    while i < image_width
        invariant
            pixels == pixel_array.deep_view(),
            image_width == pixels.len(),
            image_width > 0,
            image_height == pixels[0].len(),
            i <= image_width,
            forall|a: int, b: int|
                0 <= a < i && 0 <= b < image_height ==> #[trigger] has_pixel(pixels, a, b),
        decreases image_width - i,
    {
        if pixel_array[i].len() < image_height {
            assert(!has_pixel(pixels, i as int, pixels[i as int].len() as int));
            return false;
        }
        let mut j: usize = 0;
        while j < image_height
            invariant
                pixels == pixel_array.deep_view(),
                image_width == pixels.len(),
                image_height == pixels[0].len(),
                i < image_width,
                j <= image_height,
                image_height <= pixels[i as int].len(),
                pixels[i as int].len() == pixel_array@[i as int]@.len(),
                forall|b: int| 0 <= b < j ==> #[trigger] has_pixel(pixels, i as int, b),
            decreases image_height - j,
        {
            if pixel_array[i][j].len() < 3 {
                assert(!has_pixel(pixels, i as int, j as int));
                return false;
            }
            j += 1;
        }
        i += 1;
    }
    true
}

/// The one-character string of a decimal digit.
fn digit_str(d: usize) -> (s: &'static str)
    requires
        d < 10,
    ensures
        s@ == seq![digit_char(d as nat)],
{
    proof {
        reveal_strlit("0");
        reveal_strlit("1");
        reveal_strlit("2");
        reveal_strlit("3");
        reveal_strlit("4");
        reveal_strlit("5");
        reveal_strlit("6");
        reveal_strlit("7");
        reveal_strlit("8");
        reveal_strlit("9");
    }
    if d == 0 {
        "0"
    } else if d == 1 {
        "1"
    } else if d == 2 {
        "2"
    } else if d == 3 {
        "3"
    } else if d == 4 {
        "4"
    } else if d == 5 {
        "5"
    } else if d == 6 {
        "6"
    } else if d == 7 {
        "7"
    } else if d == 8 {
        "8"
    } else {
        "9"
    }
}

/// Appends `n` in decimal.
fn append_decimal(out: &mut String, n: usize)
    ensures
        final(out)@ == old(out)@ + decimal(n as nat),
    decreases n,
{
    if n >= 10 {
        append_decimal(out, n / 10);
    }
    out.append(digit_str(n % 10));
}

/// Appends the line of one pixel.
fn append_pixel_line(out: &mut String, pixel: &Vec<u8>)
    requires
        pixel.len() >= 3,
    ensures
        final(out)@ == old(out)@ + pixel_line(pixel@),
{
    append_decimal(out, pixel[0] as usize);
    out.append("  ");
    append_decimal(out, pixel[1] as usize);
    out.append("  ");
    append_decimal(out, pixel[2] as usize);
    out.append("\n");
}

/// Writes an image in plain-text PPM. `pixel_array` holds one vector per
/// column, each with one pixel per row, each pixel with its red, green and
/// blue channel from 0 to 255.
pub fn pixel_array_to_ppm_string(pixel_array: &Vec<Vec<Vec<u8>>>) -> (ppm_string: String)
    requires
        drawable(pixel_array.deep_view()),
    ensures
        ppm_string@ == ppm_text(pixel_array.deep_view()),
{
    let image_width: usize = pixel_array.len();
    let image_height: usize = pixel_array[0].len();
    let ghost pixels = pixel_array.deep_view();
    let mut ppm_string = String::new();
    ppm_string.append("P3\n        ");
    append_decimal(&mut ppm_string, image_width);
    ppm_string.append(" ");
    append_decimal(&mut ppm_string, image_height);
    ppm_string.append("\n        255\n");
    let mut j: usize = 0;
    while j < image_height
        invariant
            drawable(pixels),
            pixels == pixel_array.deep_view(),
            image_width == pixels.len(),
            image_height == pixels[0].len(),
            j <= image_height,
            ppm_string@ == ppm_header(pixels.len(), pixels[0].len()) + ppm_body(
                pixels,
                (j * image_width) as nat,
            ),
        decreases image_height - j,
    {
        let mut i: usize = 0;
        while i < image_width
            invariant
                drawable(pixels),
                pixels == pixel_array.deep_view(),
                image_width == pixels.len(),
                image_height == pixels[0].len(),
                j < image_height,
                i <= image_width,
                ppm_string@ == ppm_header(pixels.len(), pixels[0].len()) + ppm_body(
                    pixels,
                    (j * image_width + i) as nat,
                ),
            decreases image_width - i,
        {
            proof {
                let n: int = j * image_width + i;
                assert(0 <= j * image_width) by (nonlinear_arith)
                    requires
                        0 <= j,
                        0 <= image_width,
                ;
                lemma_fundamental_div_mod_converse(n, image_width as int, j as int, i as int);
                assert(has_pixel(pixels, i as int, j as int));
            }
            append_pixel_line(&mut ppm_string, &pixel_array[i][j]);
            i += 1;
            assert(ppm_string@ =~= ppm_header(pixels.len(), pixels[0].len()) + ppm_body(
                pixels,
                (j * image_width + i) as nat,
            ));
        }
        j += 1;
        assert((j - 1) * image_width + image_width == j * image_width) by (nonlinear_arith);
    }
    assert(j * image_width == image_width * image_height) by (nonlinear_arith)
        requires
            j == image_height,
    ;
    ppm_string
}

} // verus!
