use vstd::prelude::*;

use crate::canvas::{Displayable, PixelOp};
use crate::color::{random_color, Color};
use crate::drawable::Drawable;
use crate::sample::sample_below;

verus! {

/// The atomic geometric unit: an integer coordinate pair with an owned
/// color.  Shapes copy the points they are built from, so mutating a
/// caller's point after construction has no observable effect.
#[derive(Clone)]
pub struct Point {
    pub x: i32,
    pub y: i32,
    pub color: Color,
}

impl Point {
    /// A point at (x, y) with a freshly randomized color.
    pub fn new(x: i32, y: i32) -> (p: Point)
        ensures
            p.x == x,
            p.y == y,
    {
        Point { x, y, color: random_color() }
    }

    /// A point drawn uniformly from [0, width) x [0, height), with a
    /// randomized color.
    pub fn random(width: i32, height: i32) -> (p: Point)
        requires
            width > 0,
            height > 0,
        ensures
            0 <= p.x < width,
            0 <= p.y < height,
    {
        Point { x: sample_below(0, width), y: sample_below(0, height), color: random_color() }
    }
}

impl Drawable for Point {
    open spec fn wf(&self) -> bool {
        true
    }

    /// A point's draw sets its own pixel to its own stored color, whatever
    /// color was chosen for the draw.
    open spec fn draw_ops(&self, color: Color) -> Seq<PixelOp> {
        seq![PixelOp { x: self.x as int, y: self.y as int, color: self.color }]
    }

    fn draw<D: Displayable>(&self, image: &mut D) {
        image.display(self.x, self.y, self.color.clone());
        proof {
            let c = self.color;
            assert(image.pixels() =~= old(image).pixels() + self.draw_ops(c));
        }
    }
}

} // verus!
