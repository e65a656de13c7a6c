//! The emblem of a flag, and how it is painted onto a grid.

use vstd::prelude::*;
use crate::canvas::{
    buffer_height,
    buffer_put,
    buffer_width,
    image_size,
    lemma_cell_distinct,
    lemma_cell_in_range,
    FlagImage,
};
use crate::color::{random_color, Color};
use crate::shape::FlagForegroundShape;

verus! {

/// An emblem: a shape in one color.
#[derive(Clone, Copy, Debug, PartialEq, Eq, Structural)]
pub struct FlagForeground {
    pub color: Color,
    pub shape: FlagForegroundShape,
}

/// Whether pixel `(i, j)` comes before pixel `(x, y)` when a grid is walked
/// row by row, each row from the left.
pub open spec fn before_in_walk(i: int, j: int, x: int, y: int) -> bool {
    j < y || (j == y && i < x)
}

impl FlagForeground {
    /// The channels of pixel `(x, y)` of a grid of the given size once the
    /// emblem is painted over a pixel that held `under`: the emblem's color
    /// where its shape covers the pixel, else what was there.
    pub open spec fn over(
        &self,
        under: (u8, u8, u8),
        x: int,
        y: int,
        width: int,
        height: int,
    ) -> (u8, u8, u8) {
        if self.shape.covers(x, y, width, height) {
            self.color@
        } else {
            under
        }
    }

    /// Samples an emblem: a color, then a shape.
    pub fn random() -> (emblem: Self)
        ensures
            emblem.shape.sampled(),
    {
        let color = random_color();
        let shape = FlagForegroundShape::random();
        FlagForeground { color, shape }
    }

    /// Paints the emblem onto the grid: every pixel that the shape covers
    /// takes the emblem's color, and every other pixel stays as it was.
    pub fn draw_on(&self, image: &mut FlagImage)
        requires
            old(image).wf(),
        ensures
            final(image).wf(),
            image_size(*final(image)) == image_size(*old(image)),
            forall|x: int, y: int|
                old(image).has(x, y) ==> #[trigger] final(image).pixel_at(x, y) == self.over(
                    old(image).pixel_at(x, y),
                    x,
                    y,
                    old(image).spec_width() as int,
                    old(image).spec_height() as int,
                ),
    {
        let width: u32 = buffer_width(image);
        let height: u32 = buffer_height(image);
        let ghost before = *image;
        let mut y: u32 = 0;
        while y < height
            invariant
                y <= height,
                before.wf(),
                image.wf(),
                image_size(*image) == image_size(before),
                image_size(before) == (width as nat, height as nat),
                forall|i: int, j: int|
                    before.has(i, j) ==> #[trigger] image.pixel_at(i, j) == (if j < y {
                        self.over(before.pixel_at(i, j), i, j, width as int, height as int)
                    } else {
                        before.pixel_at(i, j)
                    }),
            decreases height - y,
        {
            let mut x: u32 = 0;
            while x < width
                invariant
                    x <= width,
                    y < height,
                    before.wf(),
                    image.wf(),
                    image_size(*image) == image_size(before),
                    image_size(before) == (width as nat, height as nat),
                    forall|i: int, j: int|
                        before.has(i, j) ==> #[trigger] image.pixel_at(i, j) == (
                        if before_in_walk(i, j, x as int, y as int) {
                            self.over(before.pixel_at(i, j), i, j, width as int, height as int)
                        } else {
                            before.pixel_at(i, j)
                        }),
                decreases width - x,
            {
                if self.shape.contains(x, y, width, height) {
                    let ghost unpainted = *image;
                    buffer_put(image, x, y, self.color);
                    proof {
                        lemma_cell_in_range(width as int, height as int, x as int, y as int);
                        assert forall|i: int, j: int| before.has(i, j) implies (
                        #[trigger] image.pixel_at(i, j)) == (if before_in_walk(
                            i,
                            j,
                            x + 1,
                            y as int,
                        ) {
                            self.over(before.pixel_at(i, j), i, j, width as int, height as int)
                        } else {
                            before.pixel_at(i, j)
                        }) by {
                            lemma_cell_in_range(width as int, height as int, i, j);
                            if i != x || j != y {
                                lemma_cell_distinct(width as int, x as int, y as int, i, j);
                                assert(image.pixel_at(i, j) == unpainted.pixel_at(i, j));
                            }
                        }
                    }
                }
                x += 1;
            }
            y += 1;
        }
    }
}

} // verus!
