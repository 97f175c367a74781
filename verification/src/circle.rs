use vstd::math::abs;
use vstd::prelude::*;

use crate::canvas::{Displayable, PixelOp};
use crate::color::Color;
use crate::drawable::Drawable;
use crate::point::Point;
use crate::sample::sample_through;

verus! {

/// Four times the midpoint decision value x^2 + (y + 1/2)^2 - r^2 at the
/// candidate (x, y): positive exactly when the midpoint lies outside the
/// circle, which moves y one row toward the center.
pub open spec fn circle_decision(r: int, x: int, y: int) -> int {
    4 * (x * x) + (2 * y + 1) * (2 * y + 1) - 4 * (r * r)
}

/// The eight octant-symmetric reflections of the offset (x, y) around the
/// center, in emission order.  Reflections may coincide on the cardinal and
/// diagonal boundaries; they are emitted all the same.
pub open spec fn octant_ops(cx: int, cy: int, x: int, y: int, color: Color) -> Seq<PixelOp> {
    seq![
        PixelOp { x: cx + x, y: cy + y, color },
        PixelOp { x: cx - x, y: cy + y, color },
        PixelOp { x: cx - x, y: cy - y, color },
        PixelOp { x: cx + x, y: cy - y, color },
        PixelOp { x: cx + y, y: cy + x, color },
        PixelOp { x: cx - y, y: cy + x, color },
        PixelOp { x: cx - y, y: cy - x, color },
        PixelOp { x: cx + y, y: cy - x, color },
    ]
}

/// The pixel-set calls the midpoint loop emits from the state (x, y) on:
/// while x < -y, the decision value at the current state may pull y inward,
/// then the eight reflections of the updated offset are emitted and x
/// advances.
pub open spec fn circle_arc_ops(cx: int, cy: int, r: int, x: int, y: int, color: Color) -> Seq<
    PixelOp,
>
    decreases (if x < -y {
        -y - x
    } else {
        0
    }),
{
    if x < -y {
        let y2 = if circle_decision(r, x, y) > 0 {
            y + 1
        } else {
            y
        };
        octant_ops(cx, cy, x, y2, color) + circle_arc_ops(cx, cy, r, x + 1, y2, color)
    } else {
        Seq::empty()
    }
}

/// The pixel-set calls one circle draw emits: a single pixel at the center
/// for radius zero, otherwise the midpoint loop started at (0, -r).  Both
/// axes reflect around the center's own coordinate, cx for x and cy for y,
/// so the drawn circle is centered on the stated center along both axes.
pub open spec fn circle_ops(cx: int, cy: int, r: int, color: Color) -> Seq<PixelOp> {
    if r == 0 {
        seq![PixelOp { x: cx, y: cy, color }]
    } else {
        circle_arc_ops(cx, cy, r, 0, -r, color)
    }
}

/// Radius zero emits exactly one pixel-set call, at the center.
pub proof fn lemma_circle_ops_zero_radius(cx: int, cy: int, color: Color)
    ensures
        circle_ops(cx, cy, 0, color) == seq![PixelOp { x: cx, y: cy, color }],
{
}

/// From a state within the first octant, the midpoint loop runs at most
/// -y - x more iterations of eight calls each, and every call it emits
/// stays within Chebyshev distance r of the center.
proof fn lemma_circle_arc_ops_bounded(cx: int, cy: int, r: int, x: int, y: int, color: Color)
    requires
        0 <= x,
        -r <= y <= 0,
    ensures
        circle_arc_ops(cx, cy, r, x, y, color).len() <= 8 * (if x < -y {
            -y - x
        } else {
            0
        }),
        forall|i: int|
            0 <= i < circle_arc_ops(cx, cy, r, x, y, color).len() ==> abs(
                circle_arc_ops(cx, cy, r, x, y, color)[i].x - cx,
            ) <= r && abs(circle_arc_ops(cx, cy, r, x, y, color)[i].y - cy) <= r,
    decreases (if x < -y {
        -y - x
    } else {
        0
    }),
{
    if x < -y {
        let y2 = if circle_decision(r, x, y) > 0 {
            y + 1
        } else {
            y
        };
        lemma_circle_arc_ops_bounded(cx, cy, r, x + 1, y2, color);
    }
}

/// A circle of positive radius emits at most 8 * r pixel-set calls (the
/// loop runs at most r iterations), and every emitted pixel lies within
/// Chebyshev distance r of the center.
pub proof fn lemma_circle_ops_bounded(cx: int, cy: int, r: int, color: Color)
    requires
        r > 0,
    ensures
        circle_ops(cx, cy, r, color).len() <= 8 * r,
        forall|i: int|
            0 <= i < circle_ops(cx, cy, r, color).len() ==> abs(
                circle_ops(cx, cy, r, color)[i].x - cx,
            ) <= r && abs(circle_ops(cx, cy, r, color)[i].y - cy) <= r,
{
    lemma_circle_arc_ops_bounded(cx, cy, r, 0, -r, color);
}

/// A circle: an owned center point and an integer radius.  Radius zero is
/// the valid degenerate case meaning a single pixel.
pub struct Circle {
    pub center: Point,
    pub radius: i32,
}

impl Circle {
    /// A circle around a copy of the given center.
    pub fn new(p: &Point, r: i32) -> (c: Circle)
        ensures
            c.center.x == p.x,
            c.center.y == p.y,
            c.radius == r,
    {
        Circle { center: Point { x: p.x, y: p.y, color: p.color }, radius: r }
    }

    /// A circle with a center drawn uniformly from [0, width) x [0, height)
    /// and a radius drawn uniformly from 0..=height.
    pub fn random(width: i32, height: i32) -> (c: Circle)
        requires
            width > 0,
            height > 0,
        ensures
            0 <= c.center.x < width,
            0 <= c.center.y < height,
            0 <= c.radius <= height,
    {
        let center = Point::random(width, height);
        let radius = sample_through(0, height);
        Circle::new(&center, radius)
    }
}

impl Drawable for Circle {
    /// The radius is non-negative and the circle's bounding square stays
    /// within the surface's i32 coordinates.
    open spec fn wf(&self) -> bool {
        &&& 0 <= self.radius
        &&& i32::MIN as int <= self.center.x as int - self.radius as int
        &&& self.center.x as int + self.radius as int <= i32::MAX as int
        &&& i32::MIN as int <= self.center.y as int - self.radius as int
        &&& self.center.y as int + self.radius as int <= i32::MAX as int
    }

    open spec fn draw_ops(&self, color: Color) -> Seq<PixelOp> {
        circle_ops(self.center.x as int, self.center.y as int, self.radius as int, color)
    }

    fn draw<D: Displayable>(&self, img: &mut D) {
        let color = self.color();
        let cx = self.center.x;
        let cy = self.center.y;
        let r = self.radius;
        let ghost total = circle_ops(cx as int, cy as int, r as int, color);
        if r == 0 {
            img.display(cx, cy, color);
            proof {
                assert(img.pixels() =~= old(img).pixels() + total);
                assert(img.pixels() == old(img).pixels() + self.draw_ops(color));
            }
            return;
        }
        let ghost base = img.pixels();
        let mut x: i32 = 0;
        let mut y: i32 = -r;
        while x < -y
            invariant
                0 < r,
                r == self.radius,
                cx == self.center.x,
                cy == self.center.y,
                self.wf(),
                0 <= x,
                -r <= y <= 0,
                total == circle_ops(cx as int, cy as int, r as int, color),
                img.pixels() + circle_arc_ops(
                    cx as int,
                    cy as int,
                    r as int,
                    x as int,
                    y as int,
                    color,
                ) == base + total,
            decreases r as int - x as int,
        {
            let ghost y_at = y as int;
            let xi = x as i128;
            let yi = y as i128;
            let ri = r as i128;
            proof {
                assert(xi * xi <= 0x4000_0000_0000_0000i128 && ri * ri
                    <= 0x4000_0000_0000_0000i128 && (2 * yi + 1) * (2 * yi + 1)
                    <= 0x1_0000_0004_0000_0000i128 && xi * xi >= 0 && ri * ri >= 0 && (2 * yi + 1)
                    * (2 * yi + 1) >= 0) by (nonlinear_arith)
                    requires
                        -0x8000_0000i128 <= xi <= 0x7fff_ffffi128,
                        -0x8000_0000i128 <= yi <= 0x7fff_ffffi128,
                        -0x8000_0000i128 <= ri <= 0x7fff_ffffi128,
                ;
            }
            let p: i128 = 4 * (xi * xi) + (2 * yi + 1) * (2 * yi + 1) - 4 * (ri * ri);
            if p > 0 {
                y = y + 1;
            }
            proof {
                assert(p as int == circle_decision(r as int, x as int, y_at));
                assert(y as int == (if circle_decision(r as int, x as int, y_at) > 0 {
                    y_at + 1
                } else {
                    y_at
                }));
            }
            let ghost pre = img.pixels();
            img.display(cx + x, cy + y, color.clone());
            img.display(cx - x, cy + y, color.clone());
            img.display(cx - x, cy - y, color.clone());
            img.display(cx + x, cy - y, color.clone());
            img.display(cx + y, cy + x, color.clone());
            img.display(cx - y, cy + x, color.clone());
            img.display(cx - y, cy - x, color.clone());
            img.display(cx + y, cy - x, color.clone());
            proof {
                let cxi = cx as int;
                let cyi = cy as int;
                assert(img.pixels() =~= pre + octant_ops(cxi, cyi, x as int, y as int, color));
                assert(circle_arc_ops(cxi, cyi, r as int, x as int, y_at, color) == octant_ops(
                    cxi,
                    cyi,
                    x as int,
                    y as int,
                    color,
                ) + circle_arc_ops(cxi, cyi, r as int, x as int + 1, y as int, color));
                assert((pre + octant_ops(cxi, cyi, x as int, y as int, color)) + circle_arc_ops(
                    cxi,
                    cyi,
                    r as int,
                    x as int + 1,
                    y as int,
                    color,
                ) =~= pre + circle_arc_ops(cxi, cyi, r as int, x as int, y_at, color));
            }
            x = x + 1;
        }
        proof {
            assert(circle_arc_ops(cx as int, cy as int, r as int, x as int, y as int, color)
                =~= Seq::<PixelOp>::empty());
            assert(img.pixels() =~= img.pixels() + Seq::<PixelOp>::empty());
            assert(img.pixels() =~= base + total);
            assert(img.pixels() == old(img).pixels() + self.draw_ops(color));
        }
    }
}

} // verus!
