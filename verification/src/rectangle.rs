use vstd::math::{max, min};
use vstd::prelude::*;

use crate::canvas::{Displayable, PixelOp};
use crate::color::Color;
use crate::drawable::Drawable;
use crate::line::{line_ops, Line};
use crate::point::Point;

verus! {

/// The corners a rectangle stores for two given input points: the first
/// carries the minimum x and y, the second the maximum x and y, whatever
/// order the caller supplied.
pub open spec fn normalized_corners(x1: int, y1: int, x2: int, y2: int) -> (
    (int, int),
    (int, int),
) {
    ((min(x1, x2), min(y1, y2)), (max(x1, x2), max(y1, y2)))
}

/// Corner normalization is commutative under the order of the two input
/// points.
pub proof fn lemma_normalized_corners_commute(x1: int, y1: int, x2: int, y2: int)
    ensures
        normalized_corners(x1, y1, x2, y2) == normalized_corners(x2, y2, x1, y1),
{
}

/// The pixel-set calls one rectangle draw emits: four lines around the
/// closed quadrilateral, from the top-left corner clockwise through the
/// derived top-right and bottom-left corners, all in one color.
pub open spec fn rect_ops(ax: int, ay: int, bx: int, by: int, color: Color) -> Seq<PixelOp> {
    line_ops(ax, ay, bx, ay, color) + line_ops(bx, ay, bx, by, color) + line_ops(
        bx,
        by,
        ax,
        by,
        color,
    ) + line_ops(ax, by, ax, ay, color)
}

/// An axis-aligned rectangle, held by its two normalized corners: `a` is
/// the minimum-x/minimum-y corner and `b` the maximum-x/maximum-y corner,
/// regardless of the order the constructor was given.
pub struct Rectangle {
    pub a: Point,
    pub b: Point,
}

impl Rectangle {
    /// A rectangle spanning the two points, its corners normalized so that
    /// `a.x <= b.x` and `a.y <= b.y` always hold afterwards.
    pub fn new(p1: &Point, p2: &Point) -> (rect: Rectangle)
        ensures
            ((rect.a.x as int, rect.a.y as int), (rect.b.x as int, rect.b.y as int))
                == normalized_corners(p1.x as int, p1.y as int, p2.x as int, p2.y as int),
            rect.a.x <= rect.b.x,
            rect.a.y <= rect.b.y,
    {
        let ax = if p1.x <= p2.x { p1.x } else { p2.x };
        let ay = if p1.y <= p2.y { p1.y } else { p2.y };
        let bx = if p1.x >= p2.x { p1.x } else { p2.x };
        let by = if p1.y >= p2.y { p1.y } else { p2.y };
        Rectangle { a: Point::new(ax, ay), b: Point::new(bx, by) }
    }

    /// Rasterize the four edges onto the surface, all with the given color.
    pub fn draw_with_color<D: Displayable>(&self, image: &mut D, color: Color)
        ensures
            final(image).pixels() == old(image).pixels() + rect_ops(
                self.a.x as int,
                self.a.y as int,
                self.b.x as int,
                self.b.y as int,
                color,
            ),
    {
        let ghost base = image.pixels();
        let top_right = Point::new(self.b.x, self.a.y);
        let bottom_left = Point::new(self.a.x, self.b.y);
        Line::new(&self.a, &top_right).draw_with_color(image, color.clone());
        Line::new(&top_right, &self.b).draw_with_color(image, color.clone());
        Line::new(&self.b, &bottom_left).draw_with_color(image, color.clone());
        Line::new(&bottom_left, &self.a).draw_with_color(image, color.clone());
        proof {
            assert(image.pixels() =~= base + rect_ops(
                self.a.x as int,
                self.a.y as int,
                self.b.x as int,
                self.b.y as int,
                color,
            ));
        }
    }
}

impl Drawable for Rectangle {
    /// The invariant the constructor establishes: `a` holds the minima and
    /// `b` the maxima of the two corner coordinates.
    open spec fn wf(&self) -> bool {
        self.a.x <= self.b.x && self.a.y <= self.b.y
    }

    open spec fn draw_ops(&self, color: Color) -> Seq<PixelOp> {
        rect_ops(self.a.x as int, self.a.y as int, self.b.x as int, self.b.y as int, color)
    }

    fn draw<D: Displayable>(&self, image: &mut D) {
        let c = self.color();
        self.draw_with_color(image, c);
        proof {
            assert(image.pixels() == old(image).pixels() + self.draw_ops(c));
        }
    }
}

} // verus!
