use vstd::math::{abs, max, min};
use vstd::prelude::*;

use crate::canvas::{Displayable, PixelOp};
use crate::color::Color;
use crate::drawable::Drawable;
use crate::line::{line_ops, Line};
use crate::point::Point;
use crate::rectangle::{rect_ops, Rectangle};

verus! {

/// The depth offset of the cube's back face: a third of the side's
/// absolute length, shifted up-and-right.
pub open spec fn cube_depth(side: int) -> int {
    abs(side) as int / 3
}

/// The pixel-set calls one cube draw emits: the front square, the back
/// square shifted by the depth offset, then the four connecting edges from
/// each front corner to its shifted copy, all in one color.
pub open spec fn cube_ops(x1: int, y1: int, side: int, color: Color) -> Seq<PixelOp> {
    let x3 = x1 + side;
    let y3 = y1 + side;
    let d = cube_depth(side);
    rect_ops(min(x1, x3), min(y1, y3), max(x1, x3), max(y1, y3), color) + rect_ops(
        min(x1, x3) + d,
        min(y1, y3) - d,
        max(x1, x3) + d,
        max(y1, y3) - d,
        color,
    ) + line_ops(x1, y1, x1 + d, y1 - d, color) + line_ops(x3, y1, x3 + d, y1 - d, color)
        + line_ops(x3, y3, x3 + d, y3 - d, color) + line_ops(x1, y3, x1 + d, y3 - d, color)
}

/// A pseudo-3D cube: one owned reference corner and an integer side
/// length; every other vertex is derived at draw time.
pub struct Cube {
    pub point1: Point,
    pub side: i32,
}

impl Cube {
    /// A cube at a copy of the given reference corner.
    pub fn new(p1: &Point, side: i32) -> (c: Cube)
        ensures
            c.point1.x == p1.x,
            c.point1.y == p1.y,
            c.side == side,
    {
        Cube { point1: Point { x: p1.x, y: p1.y, color: p1.color }, side }
    }
}

impl Drawable for Cube {
    /// Every derived vertex, of the front face, of the shifted back face
    /// and of the connecting edges, stays within the surface's i32
    /// coordinates.
    open spec fn wf(&self) -> bool {
        let x1 = self.point1.x as int;
        let y1 = self.point1.y as int;
        let s = self.side as int;
        let d = cube_depth(s);
        &&& i32::MIN as int <= x1 + s <= i32::MAX as int
        &&& i32::MIN as int <= y1 + s <= i32::MAX as int
        &&& x1 + d <= i32::MAX as int
        &&& x1 + s + d <= i32::MAX as int
        &&& i32::MIN as int <= y1 - d
        &&& i32::MIN as int <= y1 + s - d
    }

    open spec fn draw_ops(&self, color: Color) -> Seq<PixelOp> {
        cube_ops(self.point1.x as int, self.point1.y as int, self.side as int, color)
    }

    fn draw<D: Displayable>(&self, image: &mut D) {
        let ghost base = image.pixels();
        let p1 = &self.point1;
        let p2 = Point::new(self.point1.x + self.side, self.point1.y);
        let p3 = Point::new(self.point1.x + self.side, self.point1.y + self.side);
        let p4 = Point::new(self.point1.x, self.point1.y + self.side);
        let m: u64 = if self.side < 0 {
            (-(self.side as i64)) as u64
        } else {
            self.side as u64
        };
        let d = (m / 3) as i32;
        assert(d == cube_depth(self.side as int));
        let p1_b = Point::new(p1.x + d, p1.y - d);
        let p2_b = Point::new(p2.x + d, p2.y - d);
        let p3_b = Point::new(p3.x + d, p3.y - d);
        let p4_b = Point::new(p4.x + d, p4.y - d);

        let color = self.color();
        Rectangle::new(p1, &p3).draw_with_color(image, color.clone());
        Rectangle::new(&p1_b, &p3_b).draw_with_color(image, color.clone());
        Line::new(p1, &p1_b).draw_with_color(image, color.clone());
        Line::new(&p2, &p2_b).draw_with_color(image, color.clone());
        Line::new(&p3, &p3_b).draw_with_color(image, color.clone());
        Line::new(&p4, &p4_b).draw_with_color(image, color.clone());
        proof {
            assert(image.pixels() =~= base + self.draw_ops(color));
            assert(image.pixels() == old(image).pixels() + self.draw_ops(color));
        }
    }
}

} // verus!
