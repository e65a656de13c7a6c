//! The shapes of an emblem, and which pixels of a grid each of them covers.
//!
//! A pixel is measured against the shorter side of the grid, so a shape keeps
//! its size in pixels along that side and is stretched along the other. All
//! lengths are fractions of the shorter side, and each rule below compares
//! such fractions with the denominators multiplied out, so that it is exact
//! in whole numbers.

use vstd::prelude::*;
use crate::rng::{random_u32, random_usize};

verus! {

/// The number of shapes to pick from.
pub const SHAPE_COUNT: usize = 3;

/// The least width of a sampled ring, in millionths of the shorter side: a
/// tenth of it.
pub const RING_WIDTH_LOW: u32 = 100_000;

/// The bound that the width of a sampled ring stays under, in millionths of
/// the shorter side: six tenths of it.
pub const RING_WIDTH_HIGH: u32 = 600_000;

/// The shape of an emblem.
#[derive(Clone, Copy, Debug, PartialEq, Eq, Structural)]
pub enum FlagForegroundShape {
    /// A disc around the middle of the grid, of radius four tenths of the
    /// shorter side.
    Circle,
    /// What is left of the disc when a smaller disc is taken out of its
    /// middle. The number is the ring's width in millionths of the shorter
    /// side; half of it is taken off the disc's radius.
    Ring(u32),
    /// A triangle with one side on the left edge and its tip pointing right.
    LeftTriangle,
}

/// The shorter of the two sides of a grid.
pub open spec fn shorter_side(width: int, height: int) -> int {
    if width <= height {
        width
    } else {
        height
    }
}

/// The square of the distance, in pixels, from pixel `(x, y)` to the middle
/// pixel `(width / 2, height / 2)` of the grid.
pub open spec fn center_distance_squared(x: int, y: int, width: int, height: int) -> int {
    (x - width / 2) * (x - width / 2) + (y - height / 2) * (y - height / 2)
}

/// The pixel is at most four tenths of the shorter side away from the
/// middle: `d / s <= 2 / 5`, squared and multiplied out.
pub open spec fn in_disc(x: int, y: int, width: int, height: int) -> bool {
    let s = shorter_side(width, height);
    25 * center_distance_squared(x, y, width, height) <= 4 * (s * s)
}

/// The pixel is at least the inner radius of the ring away from the middle.
///
/// The inner radius is four tenths of the shorter side less half the ring's
/// width, `(800000 - ring_width) / 2000000` of the shorter side. A ring as
/// wide as eight tenths or more has no hole left.
pub open spec fn beyond_hole(ring_width: int, x: int, y: int, width: int, height: int) -> bool {
    let s = shorter_side(width, height);
    let inner = 800_000 - ring_width;
    inner <= 0 || 4_000_000_000_000 * center_distance_squared(x, y, width, height) >= inner
        * inner * (s * s)
}

/// The pixel lies in the triangle: with `u = x / s` and `v = y / s`, it has
/// `u + |v - 1/2| < 1/2`, multiplied by `2 * s`.
pub open spec fn in_left_triangle(x: int, y: int, width: int, height: int) -> bool {
    let s = shorter_side(width, height);
    let off = 2 * y - s;
    2 * x + (if off < 0 {
        -off
    } else {
        off
    }) < s
}

impl FlagForegroundShape {
    /// Whether the shape covers pixel `(x, y)` of a grid of the given size.
    pub open spec fn covers(self, x: int, y: int, width: int, height: int) -> bool {
        match self {
            FlagForegroundShape::Circle => in_disc(x, y, width, height),
            FlagForegroundShape::Ring(ring_width) => in_disc(x, y, width, height) && beyond_hole(
                ring_width as int,
                x,
                y,
                width,
                height,
            ),
            FlagForegroundShape::LeftTriangle => in_left_triangle(x, y, width, height),
        }
    }

    /// What sampling gives: a ring is at least a tenth and less than six
    /// tenths of the shorter side wide.
    pub open spec fn sampled(self) -> bool {
        match self {
            FlagForegroundShape::Ring(ring_width) => RING_WIDTH_LOW <= ring_width
                < RING_WIDTH_HIGH,
            _ => true,
        }
    }

    /// Whether the shape covers pixel `(x, y)` of a grid of the given size.
    pub fn contains(&self, x: u32, y: u32, width: u32, height: u32) -> (inside: bool)
        ensures
            inside == self.covers(x as int, y as int, width as int, height as int),
    {
        let s: i128 = if width <= height {
            width as i128
        } else {
            height as i128
        };
        match self {
            FlagForegroundShape::LeftTriangle => {
                let off: i128 = 2 * (y as i128) - s;
                let away: i128 = if off < 0 {
                    -off
                } else {
                    off
                };
                2 * (x as i128) + away < s
            },
            FlagForegroundShape::Circle => {
                let d2: i128 = distance_squared(x, y, width, height);
                let s2: i128 = side_squared(s);
                25 * d2 <= 4 * s2
            },
            FlagForegroundShape::Ring(ring_width) => {
                let d2: i128 = distance_squared(x, y, width, height);
                let s2: i128 = side_squared(s);
                if 25 * d2 > 4 * s2 {
                    false
                } else if *ring_width >= 800_000 {
                    true
                } else {
                    let inner: i128 = 800_000 - (*ring_width as i128);
                    assert(0 < inner * inner <= 640_000_000_000) by (nonlinear_arith)
                        requires
                            0 < inner <= 800_000,
                    ;
                    let inner2: i128 = inner * inner;
                    assert(inner2 * s2 <= 640_000_000_000 * 0x1_0000_0000_0000_0000)
                        by (nonlinear_arith)
                        requires
                            0 <= inner2 <= 640_000_000_000,
                            0 <= s2 <= 0x1_0000_0000_0000_0000,
                    ;
                    4_000_000_000_000 * d2 >= inner2 * s2
                }
            },
        }
    }

    /// The shape with the given number, counted from zero in the order
    /// circle, ring, triangle. Only the ring has a width; the other two pass
    /// it by.
    pub fn from_index(index: usize, ring_width: u32) -> (shape: Self)
        requires
            index < SHAPE_COUNT,
        ensures
            index == 0 ==> shape == FlagForegroundShape::Circle,
            index == 1 ==> shape == FlagForegroundShape::Ring(ring_width),
            index == 2 ==> shape == FlagForegroundShape::LeftTriangle,
    {
        if index == 0 {
            FlagForegroundShape::Circle
        } else if index == 1 {
            FlagForegroundShape::Ring(ring_width)
        } else {
            FlagForegroundShape::LeftTriangle
        }
    }

    /// Samples a shape: one of the three, each as likely as the others,
    /// and for a ring then its width, from a tenth of the shorter side up to,
    /// and without, six tenths of it.
    pub fn random() -> (shape: Self)
        ensures
            shape.sampled(),
    {
        let index: usize = random_usize(0, SHAPE_COUNT);
        let ring_width: u32 = if index == 1 {
            random_u32(RING_WIDTH_LOW, RING_WIDTH_HIGH)
        } else {
            RING_WIDTH_LOW
        };
        FlagForegroundShape::from_index(index, ring_width)
    }
}

/// On a square grid the circle covers the middle pixel.
pub proof fn lemma_circle_covers_center(side: int)
    requires
        side >= 1,
    ensures
        FlagForegroundShape::Circle.covers(side / 2, side / 2, side, side),
{
    assert(0 <= side * side) by (nonlinear_arith);
}

/// On a square grid of side three, or of side five or more, the circle
/// covers none of the four corner pixels.
///
/// On the squares of side one, two and four the disc reaches a corner: with
/// side four its radius is 1.6 pixels, and the corner `(3, 3)` is one pixel
/// right of and one below the middle pixel `(2, 2)`.
pub proof fn lemma_circle_misses_corners(side: int)
    requires
        side == 3 || side >= 5,
    ensures
        !FlagForegroundShape::Circle.covers(0, 0, side, side),
        !FlagForegroundShape::Circle.covers(side - 1, 0, side, side),
        !FlagForegroundShape::Circle.covers(0, side - 1, side, side),
        !FlagForegroundShape::Circle.covers(side - 1, side - 1, side, side),
{
    let near = side / 2;
    let far = side - 1 - near;
    assert(0 <= far <= near);
    assert(2 * far >= side - 2);
    assert(50 * (far * far) > 4 * (side * side)) by (nonlinear_arith)
        requires
            side == 3 || side >= 5,
            2 * far >= side - 2,
            side == 3 ==> far == 1,
    ;
    assert(near * near >= far * far) by (nonlinear_arith)
        requires
            0 <= far <= near,
    ;
    assert((0 - near) * (0 - near) == near * near) by (nonlinear_arith);
}

/// The triangle covers the pixel in the middle of the left edge, wherever
/// the grid has two rows or more and is wider than half its height.
///
/// On other grids that pixel is not below the middle of the shorter side:
/// in a grid one pixel wide and four high, `(0, 2)` lies two shorter sides
/// down.
pub proof fn lemma_left_triangle_covers_left_middle(width: int, height: int)
    requires
        height >= 2,
        height / 2 < width,
    ensures
        FlagForegroundShape::LeftTriangle.covers(0, height / 2, width, height),
{
}

/// The triangle never covers the top-right corner pixel.
pub proof fn lemma_left_triangle_misses_top_right(width: int, height: int)
    requires
        width >= 1,
        height >= 1,
    ensures
        !FlagForegroundShape::LeftTriangle.covers(width - 1, 0, width, height),
{
}

/// The square of the distance from `(x, y)` to the middle pixel of the grid.
fn distance_squared(x: u32, y: u32, width: u32, height: u32) -> (d2: i128)
    ensures
        d2 == center_distance_squared(x as int, y as int, width as int, height as int),
        0 <= d2 <= 0x2_0000_0000_0000_0000,
{
    let dx: i128 = (x as i128) - ((width / 2) as i128);
    let dy: i128 = (y as i128) - ((height / 2) as i128);
    assert(0 <= dx * dx <= 0x1_0000_0000_0000_0000) by (nonlinear_arith)
        requires
            -0x1_0000_0000 <= dx <= 0x1_0000_0000,
    ;
    assert(0 <= dy * dy <= 0x1_0000_0000_0000_0000) by (nonlinear_arith)
        requires
            -0x1_0000_0000 <= dy <= 0x1_0000_0000,
    ;
    dx * dx + dy * dy
}

/// The square of the shorter side.
fn side_squared(s: i128) -> (s2: i128)
    requires
        0 <= s <= 0xffff_ffff,
    ensures
        s2 == s * s,
        0 <= s2 <= 0x1_0000_0000_0000_0000,
{
    assert(0 <= s * s <= 0x1_0000_0000_0000_0000) by (nonlinear_arith)
        requires
            0 <= s <= 0xffff_ffff,
    ;
    s * s
}

} // verus!
