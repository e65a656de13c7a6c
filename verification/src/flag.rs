//! Putting a flag together: the stripes first, the emblem over them.

use vstd::prelude::*;
use vstd::arithmetic::div_mod::{lemma_fundamental_div_mod, lemma_mod_bound, lemma_div_pos_is_pos};
use vstd::arithmetic::div_mod::lemma_multiply_divide_lt;
use crate::background::{FlagBackground, MAX_STRIPES};
use crate::canvas::{buffer_from_stripes, cell, image_size, lemma_cell_in_range, FlagImage};
use crate::foreground::FlagForeground;
use crate::rng::random_bool;
use crate::shape::FlagForegroundShape;

verus! {

/// The channels of pixel `(x, y)` of the flag of the given size that is made
/// of a background and, where there is one, an emblem: the color of the
/// pixel's stripe, with the emblem painted over it.
pub open spec fn flag_color_at(
    background: FlagBackground,
    foreground: Option<FlagForeground>,
    x: int,
    y: int,
    width: int,
    height: int,
) -> (u8, u8, u8) {
    let under = background.spec_color_at(x, y, width, height)@;
    match foreground {
        Some(emblem) => emblem.over(under, x, y, width, height),
        None => under,
    }
}

/// The grid is the flag of the given size that is made of the background
/// and the emblem.
pub open spec fn is_flag_of(
    flag: FlagImage,
    background: FlagBackground,
    foreground: Option<FlagForeground>,
    width: u32,
    height: u32,
) -> bool {
    &&& flag.wf()
    &&& image_size(flag) == (width as nat, height as nat)
    &&& forall|x: int, y: int|
        flag.has(x, y) ==> #[trigger] flag.pixel_at(x, y) == flag_color_at(
            background,
            foreground,
            x,
            y,
            width as int,
            height as int,
        )
}

/// A background and an emblem go together where a solid background has an
/// emblem, and that emblem is a circle.
pub open spec fn matched(background: FlagBackground, foreground: Option<FlagForeground>) -> bool {
    background.is_solid() ==> foreground.is_some() && foreground.unwrap().shape
        == FlagForegroundShape::Circle
}

/// What a sampled design is known to be: one to five stripes, an emblem
/// that goes with them, and a ring of a sampled width where the emblem is
/// one.
pub open spec fn sampled_design(
    background: FlagBackground,
    foreground: Option<FlagForeground>,
) -> bool {
    &&& background.wf()
    &&& background.lines@.len() <= MAX_STRIPES
    &&& matched(background, foreground)
    &&& foreground.is_some() ==> foreground.unwrap().shape.sampled()
}

/// A flag is determined by what it is made of: two grids that are both the
/// flag of one background, one emblem and one size agree in their size and in
/// every pixel.
pub proof fn lemma_flag_determined(
    first: FlagImage,
    second: FlagImage,
    background: FlagBackground,
    foreground: Option<FlagForeground>,
    width: u32,
    height: u32,
)
    requires
        is_flag_of(first, background, foreground, width, height),
        is_flag_of(second, background, foreground, width, height),
    ensures
        image_size(first) == image_size(second),
        first@ == second@,
{
    assert forall|k: int| 0 <= k < first@.len() implies first@[k] == second@[k] by {
        let w = width as int;
        let x = k % w;
        let y = k / w;
        assert(w > 0) by (nonlinear_arith)
            requires
                0 <= k < w * height,
                0 <= w,
        ;
        lemma_fundamental_div_mod(k, w);
        lemma_mod_bound(k, w);
        lemma_div_pos_is_pos(k, w);
        assert(w * y == y * w) by (nonlinear_arith);
        assert(w * height == height * w) by (nonlinear_arith);
        lemma_multiply_divide_lt(k, w, height as int);
        assert(cell(w, x, y) == k);
        assert(first.has(x, y));
        assert(first.pixel_at(x, y) == first@[k]);
        assert(second.pixel_at(x, y) == second@[k]);
    }
    assert(first@ =~= second@);
}

/// Renders a flag of the given size: each pixel takes the color of the
/// stripe it lies in, and the emblem, where there is one, is painted over
/// the stripes.
///
/// A grid with no pixels comes back where either side is zero. The size must
/// leave the grid's bytes, three for each pixel, within what a vector holds.
pub fn create_flag(
    background: FlagBackground,
    foreground: Option<FlagForeground>,
    width: u32,
    height: u32,
) -> (flag: FlagImage)
    requires
        background.wf(),
        3 * width * height <= isize::MAX,
    ensures
        is_flag_of(flag, background, foreground, width, height),
{
    let mut flag = buffer_from_stripes(&background, width, height);
    proof {
        assert forall|x: int, y: int| flag.has(x, y) implies #[trigger] flag.pixel_at(x, y)
            == background.spec_color_at(x, y, width as int, height as int)@ by {
            lemma_cell_in_range(width as int, height as int, x, y);
        }
    }
    if let Some(emblem) = foreground {
        emblem.draw_on(&mut flag);
    }
    flag
}

/// Whether a flag on this background gets an emblem, given the coin that was
/// flipped for it: a solid background gets one whatever the coin shows.
pub fn wants_foreground(background: &FlagBackground, coin: bool) -> (wanted: bool)
    ensures
        wanted == (coin || background.is_solid()),
{
    coin || background.solid()
}

/// Fits a sampled emblem to the background: on a solid background its shape
/// becomes a circle, on any other it stays as it was sampled. The color
/// stays in both cases.
pub fn fit_foreground(background: &FlagBackground, sampled: FlagForeground) -> (fitted:
    FlagForeground)
    ensures
        fitted.color == sampled.color,
        fitted.shape == (if background.is_solid() {
            FlagForegroundShape::Circle
        } else {
            sampled.shape
        }),
{
    if background.solid() {
        FlagForeground { color: sampled.color, shape: FlagForegroundShape::Circle }
    } else {
        sampled
    }
}

/// Samples what a flag is made of: a background, a coin flip for the emblem,
/// and the emblem where one is wanted, fitted to the background.
pub fn random_design() -> (design: (FlagBackground, Option<FlagForeground>))
    ensures
        sampled_design(design.0, design.1),
{
    let background = FlagBackground::random();
    let coin = random_bool();
    let foreground = if wants_foreground(&background, coin) {
        Some(fit_foreground(&background, FlagForeground::random()))
    } else {
        None
    };
    (background, foreground)
}

/// Renders a sampled flag of the given size.
///
/// The size must leave the grid's bytes, three for each pixel, within what a
/// vector holds.
pub fn random_flag(width: u32, height: u32) -> (flag: FlagImage)
    requires
        3 * width * height <= isize::MAX,
    ensures
        exists|background: FlagBackground, foreground: Option<FlagForeground>|
            sampled_design(background, foreground) && #[trigger] is_flag_of(
                flag,
                background,
                foreground,
                width,
                height,
            ),
{
    let (background, foreground) = random_design();
    let ghost made_of = (background, foreground);
    let flag = create_flag(background, foreground, width, height);
    assert(sampled_design(made_of.0, made_of.1) && is_flag_of(
        flag,
        made_of.0,
        made_of.1,
        width,
        height,
    ));
    flag
}

} // verus!
