//! The fractal image: an 800 by 800 raster whose red and blue channels
//! follow a coordinate gradient and whose green channel carries the
//! escape-time count that the dispatcher's per-pixel loop produces.

use vstd::arithmetic::div_mod::lemma_fundamental_div_mod_converse;
use vstd::prelude::*;

verus! {

/// Width of the generated fractal image, in pixels.
pub const FRACTAL_WIDTH: usize = 800;

/// Height of the generated fractal image, in pixels.
pub const FRACTAL_HEIGHT: usize = 800;

/// The cap on the escape-time count, and so the largest green value.
pub const GREEN_CAP: u8 = 255;

/// The red channel at column `x`: three tenths of `x`, rounded down.
pub open spec fn red_of(x: int) -> int {
    3 * x / 10
}

/// The blue channel at row `y`: three tenths of `y`, rounded down.
pub open spec fn blue_of(y: int) -> int {
    3 * y / 10
}

/// Whether the escape-time loop takes another step: the count has not
/// reached the cap and the iterate is still within the escape radius.
pub open spec fn escape_continue_spec(green: u8, within_radius: bool) -> bool {
    green < GREEN_CAP && within_radius
}

/// One decision of the escape-time loop. The caller iterates while this
/// returns true, mapping the iterate and raising the count by one each
/// step, and reads the final count as the pixel's green channel.
pub fn escape_continue(green: u8, within_radius: bool) -> (r: bool)
    ensures
        r == escape_continue_spec(green, within_radius),
{
    green < GREEN_CAP && within_radius
}

/// A pixel whose iterate never leaves the escape radius keeps iterating
/// until the count reaches the cap, and stops there: its green channel
/// reads exactly 255.
pub proof fn lemma_nonescaping_saturates(green: u8)
    ensures
        escape_continue_spec(green, true) <==> green != GREEN_CAP,
{
}

/// The count a loop driven by `escape_continue` ends with, starting at
/// `g`, when `within[n]` says whether the iterate of step `n` is still
/// within the escape radius.
pub open spec fn green_count_from(within: Seq<bool>, g: int) -> int
    decreases GREEN_CAP - g,
{
    if 0 <= g < GREEN_CAP && g < within.len() {
        if escape_continue_spec(g as u8, within[g]) {
            green_count_from(within, g + 1)
        } else {
            g
        }
    } else {
        g
    }
}

/// The green channel the escape-time loop produces for a pixel whose
/// radius checks came out as `within`, one per step up to the cap.
pub open spec fn green_count(within: Seq<bool>) -> int {
    green_count_from(within, 0)
}

/// The count never leaves the byte range: green is always in [0, 255].
pub proof fn lemma_green_count_bounds(within: Seq<bool>, g: int)
    requires
        0 <= g <= GREEN_CAP,
    ensures
        g <= green_count_from(within, g) <= GREEN_CAP,
    decreases GREEN_CAP - g,
{
    if 0 <= g < GREEN_CAP && g < within.len() && escape_continue_spec(g as u8, within[g]) {
        lemma_green_count_bounds(within, g + 1);
    }
}

/// A pixel whose iterate stays within the escape radius for every step
/// reads a green of exactly 255.
pub proof fn lemma_green_count_saturates(within: Seq<bool>)
    requires
        within.len() >= GREEN_CAP,
        forall|n: int| 0 <= n < GREEN_CAP ==> within[n],
    ensures
        green_count(within) == GREEN_CAP,
{
    lemma_green_count_saturates_from(within, 0);
}

proof fn lemma_green_count_saturates_from(within: Seq<bool>, g: int)
    requires
        0 <= g <= GREEN_CAP,
        within.len() >= GREEN_CAP,
        forall|n: int| 0 <= n < GREEN_CAP ==> within[n],
    ensures
        green_count_from(within, g) == GREEN_CAP,
    decreases GREEN_CAP - g,
{
    if g < GREEN_CAP {
        lemma_green_count_saturates_from(within, g + 1);
    }
}

/// A pixel whose iterate first leaves the escape radius at step `e`,
/// before the cap, reads a green of exactly `e`: the final count is the
/// escape time.
pub proof fn lemma_green_count_is_escape_time(within: Seq<bool>, e: int)
    requires
        0 <= e < GREEN_CAP,
        e < within.len(),
        !within[e],
        forall|n: int| 0 <= n < e ==> within[n],
    ensures
        green_count(within) == e,
{
    lemma_green_count_escape_from(within, 0, e);
}

proof fn lemma_green_count_escape_from(within: Seq<bool>, g: int, e: int)
    requires
        0 <= g <= e < GREEN_CAP,
        e < within.len(),
        !within[e],
        forall|n: int| 0 <= n < e ==> within[n],
    ensures
        green_count_from(within, g) == e,
    decreases GREEN_CAP - g,
{
    if g < e {
        lemma_green_count_escape_from(within, g + 1, e);
    }
}

/// The raster the fractal renderer owes, given the green channel of each
/// pixel in row-major order: three bytes per pixel, red then green then
/// blue, the rows concatenated.
pub open spec fn fractal_rgb_spec(greens: Seq<u8>) -> Seq<u8> {
    Seq::new(
        (3 * (FRACTAL_WIDTH as int) * (FRACTAL_HEIGHT as int)) as nat,
        |n: int|
            {
                let p = n / 3;
                if n % 3 == 0 {
                    red_of(p % (FRACTAL_WIDTH as int)) as u8
                } else if n % 3 == 1 {
                    greens[p]
                } else {
                    blue_of(p / (FRACTAL_WIDTH as int)) as u8
                }
            },
    )
}

/// The channels of the pixel at column `x` and row `y`: red is three
/// tenths of the column, green is the escape-time count handed in, blue
/// is three tenths of the row.
pub proof fn lemma_fractal_pixel_channels(greens: Seq<u8>, x: int, y: int)
    requires
        greens.len() == (FRACTAL_WIDTH as int) * (FRACTAL_HEIGHT as int),
        0 <= x < FRACTAL_WIDTH,
        0 <= y < FRACTAL_HEIGHT,
    ensures
        fractal_rgb_spec(greens)[3 * (y * (FRACTAL_WIDTH as int) + x)] == red_of(x) as u8,
        fractal_rgb_spec(greens)[3 * (y * (FRACTAL_WIDTH as int) + x) + 1] == greens[y * (
        FRACTAL_WIDTH as int) + x],
        fractal_rgb_spec(greens)[3 * (y * (FRACTAL_WIDTH as int) + x) + 2] == blue_of(y) as u8,
{
    let w = FRACTAL_WIDTH as int;
    let p = y * w + x;
    assert(0 <= p && p < w * (FRACTAL_HEIGHT as int)) by (nonlinear_arith)
        requires
            0 <= x < w,
            0 <= y < FRACTAL_HEIGHT as int,
            p == y * w + x,
    ;
    lemma_fundamental_div_mod_converse(3 * p, 3, p, 0);
    lemma_fundamental_div_mod_converse(3 * p + 1, 3, p, 1);
    lemma_fundamental_div_mod_converse(3 * p + 2, 3, p, 2);
    lemma_fundamental_div_mod_converse(p, w, y, x);
}

/// Assembles the fractal raster from the per-pixel escape-time counts,
/// handed in row-major order. The result is a pure function of those
/// counts alone, so equal counts give a byte-identical image.
pub fn fractal_pixels(greens: &Vec<u8>) -> (r: Vec<u8>)
    requires
        greens@.len() == FRACTAL_WIDTH * FRACTAL_HEIGHT,
    ensures
        r@ == fractal_rgb_spec(greens@),
        r@.len() == 3 * FRACTAL_WIDTH * FRACTAL_HEIGHT,
{
    let npixels: usize = FRACTAL_WIDTH * FRACTAL_HEIGHT;
    let mut out: Vec<u8> = Vec::new();
    let mut p: usize = 0;
    proof {
        assert(out@ =~= fractal_rgb_spec(greens@).take(0));
    }
    while p < npixels
        invariant
            p <= npixels,
            npixels == FRACTAL_WIDTH * FRACTAL_HEIGHT,
            greens@.len() == npixels,
            out@ == fractal_rgb_spec(greens@).take(3 * p),
        decreases npixels - p,
    {
        let x: usize = p % FRACTAL_WIDTH;
        let y: usize = p / FRACTAL_WIDTH;
        assert(3 * x / 10 < 256 && 3 * y / 10 < 256) by {
            assert(y < FRACTAL_HEIGHT) by (nonlinear_arith)
                requires
                    y as int == (p as int) / (FRACTAL_WIDTH as int),
                    0 <= p as int,
                    (p as int) < (FRACTAL_WIDTH as int) * (FRACTAL_HEIGHT as int),
            ;
        }
        out.push((3 * x / 10) as u8);
        out.push(greens[p]);
        out.push((3 * y / 10) as u8);
        proof {
            let sp = fractal_rgb_spec(greens@);
            lemma_fundamental_div_mod_converse(3 * (p as int), 3, p as int, 0);
            lemma_fundamental_div_mod_converse(3 * (p as int) + 1, 3, p as int, 1);
            lemma_fundamental_div_mod_converse(3 * (p as int) + 2, 3, p as int, 2);
            assert(sp[3 * (p as int)] == red_of(x as int) as u8);
            assert(sp[3 * (p as int) + 1] == greens@[p as int]);
            assert(sp[3 * (p as int) + 2] == blue_of(y as int) as u8);
            assert(out@ =~= sp.take(3 * (p as int) + 3));
        }
        p = p + 1;
    }
    proof {
        assert(out@ =~= fractal_rgb_spec(greens@));
    }
    out
}

} // verus!
