use vstd::prelude::*;

use crate::canvas::{Displayable, PixelOp};
use crate::color::Color;
use crate::drawable::Drawable;
use crate::line::{line_ops, Line};
use crate::point::Point;

verus! {

/// The pixel-set calls one triangle draw emits: the three edges a->b,
/// b->c and c->a, all in one color.
pub open spec fn triangle_ops(
    ax: int,
    ay: int,
    bx: int,
    by: int,
    cx: int,
    cy: int,
    color: Color,
) -> Seq<PixelOp> {
    line_ops(ax, ay, bx, by, color) + line_ops(bx, by, cx, cy, color) + line_ops(
        cx,
        cy,
        ax,
        ay,
        color,
    )
}

/// A triangle: three owned vertices, each copied at construction.
pub struct Triangle {
    pub a: Point,
    pub b: Point,
    pub c: Point,
}

impl Triangle {
    /// A triangle over copies of the three points.
    pub fn new(a: &Point, b: &Point, c: &Point) -> (t: Triangle)
        ensures
            t.a.x == a.x && t.a.y == a.y,
            t.b.x == b.x && t.b.y == b.y,
            t.c.x == c.x && t.c.y == c.y,
    {
        Triangle { a: Point::new(a.x, a.y), b: Point::new(b.x, b.y), c: Point::new(c.x, c.y) }
    }
}

impl Drawable for Triangle {
    open spec fn wf(&self) -> bool {
        true
    }

    open spec fn draw_ops(&self, color: Color) -> Seq<PixelOp> {
        triangle_ops(
            self.a.x as int,
            self.a.y as int,
            self.b.x as int,
            self.b.y as int,
            self.c.x as int,
            self.c.y as int,
            color,
        )
    }

    fn draw<D: Displayable>(&self, image: &mut D) {
        let ghost base = image.pixels();
        let color = self.color();
        Line::new(&self.a, &self.b).draw_with_color(image, color.clone());
        Line::new(&self.b, &self.c).draw_with_color(image, color.clone());
        Line::new(&self.c, &self.a).draw_with_color(image, color.clone());
        proof {
            assert(image.pixels() =~= base + self.draw_ops(color));
            assert(image.pixels() == old(image).pixels() + self.draw_ops(color));
        }
    }
}

} // verus!
