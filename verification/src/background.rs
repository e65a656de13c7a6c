//! The striped background of a flag.

use vstd::prelude::*;
use vstd::arithmetic::div_mod::lemma_multiply_divide_lt;
use crate::color::{random_color, Color};
use crate::rng::{random_bool, random_usize};

verus! {

/// The most stripes that a sampled background has.
pub const MAX_STRIPES: usize = 5;

/// A background of parallel stripes.
///
/// `lines` holds the colors of the stripes in order: from left to right
/// where `horizontal` is set, else from top to bottom.
#[derive(Clone, Debug, PartialEq, Eq)]
pub struct FlagBackground {
    pub horizontal: bool,
    pub lines: Vec<Color>,
}

/// The stripe that position `pos` falls into, where an axis of `extent`
/// pixels is cut into `count` stripes of equal length: the whole part of
/// `pos / extent * count`.
pub open spec fn stripe_index(pos: int, extent: int, count: int) -> int {
    pos * count / extent
}

/// The stripe of a position on the axis is one of the `count` stripes, and it
/// is stripe `k` exactly for the positions from `k / count` of the extent up
/// to, and without, `(k + 1) / count` of it.
pub proof fn lemma_stripe_index_bounds(pos: int, extent: int, count: int)
    requires
        0 <= pos < extent,
        0 < count,
    ensures
        0 <= stripe_index(pos, extent, count) < count,
        stripe_index(pos, extent, count) * extent <= pos * count,
        pos * count < (stripe_index(pos, extent, count) + 1) * extent,
{
    let k = stripe_index(pos, extent, count);
    assert(0 <= pos * count < extent * count) by (nonlinear_arith)
        requires
            0 <= pos < extent,
            0 < count,
    ;
    lemma_multiply_divide_lt(pos * count, extent, count);
    vstd::arithmetic::div_mod::lemma_fundamental_div_mod(pos * count, extent);
    vstd::arithmetic::div_mod::lemma_mod_bound(pos * count, extent);
    vstd::arithmetic::div_mod::lemma_div_pos_is_pos(pos * count, extent);
    assert(extent * k == k * extent) by (nonlinear_arith);
    assert((k + 1) * extent == k * extent + extent) by (nonlinear_arith);
}

/// Two stripes side by side meet in the middle of the grid: a pixel left of
/// the middle has the first color, any other pixel the second, whatever its
/// row. In a grid of odd width the middle column belongs to the first
/// stripe.
pub proof fn lemma_two_stripes_meet_in_middle(
    background: FlagBackground,
    x: int,
    y: int,
    width: int,
    height: int,
)
    requires
        background.horizontal,
        background.lines@.len() == 2,
        0 <= x < width,
    ensures
        2 * x < width ==> background.spec_color_at(x, y, width, height) == background.lines@[0],
        2 * x >= width ==> background.spec_color_at(x, y, width, height) == background.lines@[1],
{
    lemma_stripe_index_bounds(x, width, 2);
    let k = stripe_index(x, width, 2);
    assert(0 * width == 0 && 1 * width == width && 2 * width == width + width)
        by (nonlinear_arith);
}

impl FlagBackground {
    /// A background has at least one stripe.
    pub open spec fn wf(&self) -> bool {
        self.lines@.len() >= 1
    }

    /// A background of a single stripe is one solid color.
    pub open spec fn is_solid(&self) -> bool {
        self.lines@.len() == 1
    }

    /// The color that the background gives pixel `(x, y)` of a grid of the
    /// given size: that of the stripe which the pixel's column falls into
    /// where the background is horizontal, else its row.
    pub open spec fn spec_color_at(&self, x: int, y: int, width: int, height: int) -> Color {
        if self.horizontal {
            self.lines@[stripe_index(x, width, self.lines@.len() as int)]
        } else {
            self.lines@[stripe_index(y, height, self.lines@.len() as int)]
        }
    }

    /// Whether the background is one solid color.
    pub fn solid(&self) -> (b: bool)
        ensures
            b == self.is_solid(),
    {
        self.lines.len() == 1
    }

    /// The color of pixel `(x, y)` in a grid of the given size.
    pub fn color_at(&self, x: u32, y: u32, width: u32, height: u32) -> (c: Color)
        requires
            self.wf(),
            x < width,
            y < height,
        ensures
            c == self.spec_color_at(x as int, y as int, width as int, height as int),
    {
        let count: u128 = self.lines.len() as u128;
        let (pos, extent): (u128, u128) = if self.horizontal {
            (x as u128, width as u128)
        } else {
            (y as u128, height as u128)
        };
        proof {
            lemma_stripe_index_bounds(pos as int, extent as int, count as int);
            assert(pos * count <= 0xffff_ffff * count) by (nonlinear_arith)
                requires
                    pos <= 0xffff_ffff,
                    0 <= count,
            ;
        }
        let index: u128 = pos * count / extent;
        self.lines[index as usize]
    }

    /// Samples a background: first the number of stripes, from one to five,
    /// then a color for each stripe in order, then the direction.
    pub fn random() -> (background: Self)
        ensures
            background.wf(),
            background.lines@.len() <= MAX_STRIPES,
    {
        let amount: usize = random_usize(1, MAX_STRIPES + 1);
        let mut lines: Vec<Color> = Vec::new();
        while lines.len() < amount
            invariant
                lines@.len() <= amount,
            decreases amount - lines@.len(),
        {
            lines.push(random_color());
        }
        let horizontal = random_bool();
        FlagBackground { horizontal, lines }
    }
}

} // verus!
