use vstd::arithmetic::div_mod::{
    lemma_div_is_ordered, lemma_div_multiples_vanish, lemma_div_pos_is_pos,
};
use vstd::math::{abs, max, min};
use vstd::prelude::*;

use crate::canvas::{Displayable, PixelOp};
use crate::color::Color;
use crate::drawable::Drawable;
use crate::point::Point;

verus! {

/// The quotient of p by q rounded toward zero, as casting the exact real
/// quotient to an integer does.
pub open spec fn div_toward_zero(p: int, q: int) -> int
    recommends
        q > 0,
{
    if p >= 0 {
        p / q
    } else {
        -((-p) / q)
    }
}

/// Rounding a multiple of q toward zero divides exactly.
pub proof fn lemma_div_toward_zero_multiple(a: int, q: int)
    requires
        q > 0,
    ensures
        div_toward_zero(a * q, q) == a,
{
    if a >= 0 {
        lemma_div_multiples_vanish(a, q);
        assert(a * q >= 0 && a * q == q * a) by (nonlinear_arith)
            requires
                a >= 0,
                q > 0,
        ;
        assert((a * q) / q == a);
    } else {
        lemma_div_multiples_vanish(-a, q);
        assert(a * q < 0 && -(a * q) == q * (-a)) by (nonlinear_arith)
            requires
                a < 0,
                q > 0,
        ;
        assert((-(a * q)) / q == -a);
    }
}

/// A quotient rounded toward zero lies between any integer bounds whose
/// multiples of q enclose the numerator.
pub proof fn lemma_div_toward_zero_between(p: int, q: int, lo: int, hi: int)
    requires
        q > 0,
        lo * q <= p,
        p <= hi * q,
    ensures
        lo <= div_toward_zero(p, q),
        div_toward_zero(p, q) <= hi,
{
    assert(lo * q == q * lo && hi * q == q * hi) by (nonlinear_arith);
    if p >= 0 {
        lemma_div_multiples_vanish(lo, q);
        lemma_div_multiples_vanish(hi, q);
        lemma_div_is_ordered(q * lo, p, q);
        lemma_div_is_ordered(p, q * hi, q);
        if lo * q < 0 {
            lemma_div_pos_is_pos(p, q);
            assert(lo < 0) by (nonlinear_arith)
                requires
                    lo * q < 0,
                    q > 0,
            ;
        }
    } else {
        let m = -p;
        lemma_div_pos_is_pos(m, q);
        // lower bound: lo * q <= p < 0 forces lo < 0, and m <= (-lo) * q
        assert(lo < 0 && m <= q * (-lo)) by (nonlinear_arith)
            requires
                q > 0,
                lo * q <= p,
                p < 0,
                m == -p,
        ;
        lemma_div_multiples_vanish(-lo, q);
        lemma_div_is_ordered(m, q * (-lo), q);
        assert(div_toward_zero(p, q) == -(m / q) && m / q <= -lo);
        // upper bound
        if hi >= 0 {
            assert(div_toward_zero(p, q) <= 0 <= hi);
        } else {
            assert(q * (-hi) <= m) by (nonlinear_arith)
                requires
                    q > 0,
                    p <= hi * q,
                    m == -p,
            ;
            lemma_div_multiples_vanish(-hi, q);
            lemma_div_is_ordered(q * (-hi), m, q);
        }
    }
}

/// The number of steps the line rasterizer takes between two endpoints:
/// the dominant axis's absolute span.
pub open spec fn dda_step_count(x0: int, y0: int, x1: int, y1: int) -> int {
    max(abs(x1 - x0) as int, abs(y1 - y0) as int)
}

/// The pixel hit at step i: the exact real position x0 + i * dx / s,
/// truncated toward zero, and likewise for y.
pub open spec fn dda_pixel(x0: int, y0: int, x1: int, y1: int, i: int) -> (int, int)
    recommends
        dda_step_count(x0, y0, x1, y1) > 0,
{
    let s = dda_step_count(x0, y0, x1, y1);
    (div_toward_zero(x0 * s + i * (x1 - x0), s), div_toward_zero(y0 * s + i * (y1 - y0), s))
}

/// Every pixel the line rasterizer hits, in emission order: one per step
/// along the dominant axis, both endpoints included; a single pixel when
/// the endpoints coincide.
pub open spec fn line_points(x0: int, y0: int, x1: int, y1: int) -> Seq<(int, int)> {
    let s = dda_step_count(x0, y0, x1, y1);
    if s == 0 {
        seq![(x0, y0)]
    } else {
        Seq::new((s + 1) as nat, |i: int| dda_pixel(x0, y0, x1, y1, i))
    }
}

/// The pixel-set calls a line draw emits: its pixels, each with the one
/// color chosen for the line.
pub open spec fn line_ops(x0: int, y0: int, x1: int, y1: int, color: Color) -> Seq<PixelOp> {
    line_points(x0, y0, x1, y1).map_values(
        |p: (int, int)| PixelOp { x: p.0, y: p.1, color },
    )
}

/// The degenerate line: coinciding endpoints emit exactly one pixel-set
/// call, at that point.
pub proof fn lemma_line_ops_single(x: int, y: int, color: Color)
    ensures
        line_ops(x, y, x, y, color) == seq![PixelOp { x, y, color }],
{
    assert(line_points(x, y, x, y) =~= seq![(x, y)]);
    assert(line_ops(x, y, x, y, color) =~= seq![PixelOp { x, y, color }]);
}

/// Distinct endpoints: the emission count is the dominant-axis span plus
/// one, and the first and last calls land exactly on the endpoints.
pub proof fn lemma_line_ops_span(x0: int, y0: int, x1: int, y1: int, color: Color)
    requires
        x0 != x1 || y0 != y1,
    ensures
        line_ops(x0, y0, x1, y1, color).len() == dda_step_count(x0, y0, x1, y1) + 1,
        line_ops(x0, y0, x1, y1, color).first() == (PixelOp { x: x0, y: y0, color }),
        line_ops(x0, y0, x1, y1, color).last() == (PixelOp { x: x1, y: y1, color }),
{
    let s = dda_step_count(x0, y0, x1, y1);
    assert(s > 0);
    lemma_div_toward_zero_multiple(x0, s);
    lemma_div_toward_zero_multiple(y0, s);
    lemma_div_toward_zero_multiple(x1, s);
    lemma_div_toward_zero_multiple(y1, s);
    assert(x0 * s + 0 * (x1 - x0) == x0 * s && y0 * s + 0 * (y1 - y0) == y0 * s)
        by (nonlinear_arith);
    assert(x0 * s + s * (x1 - x0) == x1 * s && y0 * s + s * (y1 - y0) == y1 * s)
        by (nonlinear_arith);
}

/// The exec counterpart of `div_toward_zero`: i128 division in Rust rounds
/// toward zero.
fn div_toward_zero_i128(p: i128, q: i128) -> (r: i128)
    requires
        q > 0,
        p > i128::MIN,
    ensures
        r == div_toward_zero(p as int, q as int),
{
    if p >= 0 {
        ((p as u128) / (q as u128)) as i128
    } else {
        let m = (-p) as u128;
        let d = m / (q as u128);
        -(d as i128)
    }
}

/// A straight segment between two owned endpoints, each copied at
/// construction: mutating the caller's points afterwards cannot affect it.
pub struct Line {
    pub start: Point,
    pub end: Point,
}

impl Line {
    /// A line from copies of the two points; the copies carry fresh colors.
    pub fn new(start: &Point, end: &Point) -> (l: Line)
        ensures
            l.start.x == start.x,
            l.start.y == start.y,
            l.end.x == end.x,
            l.end.y == end.y,
    {
        Line { start: Point::new(start.x, start.y), end: Point::new(end.x, end.y) }
    }

    /// A line between two points drawn uniformly from
    /// [0, width) x [0, height).
    pub fn random(width: i32, height: i32) -> (l: Line)
        requires
            width > 0,
            height > 0,
        ensures
            0 <= l.start.x < width,
            0 <= l.start.y < height,
            0 <= l.end.x < width,
            0 <= l.end.y < height,
    {
        let p1 = Point::random(width, height);
        let p2 = Point::random(width, height);
        Line::new(&p1, &p2)
    }

    /// Rasterize the line onto the surface with the given color, stepping
    /// along the dominant axis and truncating the exact accumulated
    /// position at every step.
    pub fn draw_with_color<D: Displayable>(&self, img: &mut D, color: Color)
        ensures
            final(img).pixels() == old(img).pixels() + line_ops(
                self.start.x as int,
                self.start.y as int,
                self.end.x as int,
                self.end.y as int,
                color,
            ),
    {
        let x0 = self.start.x;
        let y0 = self.start.y;
        let x1 = self.end.x;
        let y1 = self.end.y;
        let ghost total = line_ops(x0 as int, y0 as int, x1 as int, y1 as int, color);
        let dx: i64 = x1 as i64 - x0 as i64;
        let dy: i64 = y1 as i64 - y0 as i64;
        let adx: i64 = if dx < 0 { -dx } else { dx };
        let ady: i64 = if dy < 0 { -dy } else { dy };
        let steps: i64 = if adx >= ady { adx } else { ady };
        assert(steps == dda_step_count(x0 as int, y0 as int, x1 as int, y1 as int));
        if steps == 0 {
            img.display(x0, y0, color);
            proof {
                lemma_line_ops_single(x0 as int, y0 as int, color);
                assert(img.pixels() =~= old(img).pixels() + total);
            }
            return;
        }
        let ghost lo_x: int = min(x0 as int, x1 as int);
        let ghost hi_x: int = max(x0 as int, x1 as int);
        let ghost lo_y: int = min(y0 as int, y1 as int);
        let ghost hi_y: int = max(y0 as int, y1 as int);
        let ghost base = img.pixels();
        let mut i: i64 = 0;
        while i <= steps
            invariant
                0 < steps <= 0xffff_ffffi64,
                0 <= i <= steps + 1,
                -0x8000_0000i64 <= x0 as i64 <= 0x7fff_ffffi64,
                -0x8000_0000i64 <= y0 as i64 <= 0x7fff_ffffi64,
                dx == x1 as int - x0 as int,
                dy == y1 as int - y0 as int,
                -0x1_0000_0000i64 <= dx <= 0x1_0000_0000i64,
                -0x1_0000_0000i64 <= dy <= 0x1_0000_0000i64,
                steps == dda_step_count(x0 as int, y0 as int, x1 as int, y1 as int),
                lo_x == min(x0 as int, x1 as int),
                hi_x == max(x0 as int, x1 as int),
                lo_y == min(y0 as int, y1 as int),
                hi_y == max(y0 as int, y1 as int),
                total == line_ops(x0 as int, y0 as int, x1 as int, y1 as int, color),
                total.len() == steps + 1,
                img.pixels() == base + total.take(i as int),
            decreases steps + 1 - i,
        {
            proof {
                assert((x0 as int) * (steps as int) <= 0x8000_0000_0000_0000i128
                    && (x0 as int) * (steps as int) >= -0x8000_0000_0000_0000i128
                    && (y0 as int) * (steps as int) <= 0x8000_0000_0000_0000i128
                    && (y0 as int) * (steps as int) >= -0x8000_0000_0000_0000i128
                    && (i as int) * (dx as int) <= 0x1_0000_0000_0000_0000i128
                    && (i as int) * (dx as int) >= -0x1_0000_0000_0000_0000i128
                    && (i as int) * (dy as int) <= 0x1_0000_0000_0000_0000i128
                    && (i as int) * (dy as int) >= -0x1_0000_0000_0000_0000i128)
                    by (nonlinear_arith)
                    requires
                        -0x8000_0000 <= x0 as int <= 0x7fff_ffff,
                        -0x8000_0000 <= y0 as int <= 0x7fff_ffff,
                        -0x1_0000_0000 <= dx as int <= 0x1_0000_0000,
                        -0x1_0000_0000 <= dy as int <= 0x1_0000_0000,
                        0 <= i as int <= 0x1_0000_0000,
                        0 < steps as int <= 0x1_0000_0000,
                ;
            }
            let num_x: i128 = (x0 as i128) * (steps as i128) + (i as i128) * (dx as i128);
            let num_y: i128 = (y0 as i128) * (steps as i128) + (i as i128) * (dy as i128);
            proof {
                lemma_dda_num_in_span(x0 as int, x1 as int, steps as int, i as int);
                lemma_dda_num_in_span(y0 as int, y1 as int, steps as int, i as int);
            }
            let px_w = div_toward_zero_i128(num_x, steps as i128);
            let py_w = div_toward_zero_i128(num_y, steps as i128);
            proof {
                lemma_div_toward_zero_between(num_x as int, steps as int, lo_x, hi_x);
                lemma_div_toward_zero_between(num_y as int, steps as int, lo_y, hi_y);
            }
            let px = px_w as i32;
            let py = py_w as i32;
            img.display(px, py, color.clone());
            proof {
                assert(total[i as int] == (PixelOp { x: px as int, y: py as int, color }));
                assert(total.take(i as int + 1) =~= total.take(i as int).push(total[i as int]));
                assert(img.pixels() =~= base + total.take(i as int + 1));
            }
            i = i + 1;
        }
        proof {
            assert(total.take(steps as int + 1) =~= total);
        }
    }
}

/// The numerator of the dominant-axis stepper stays between the endpoint
/// multiples of the step count.
proof fn lemma_dda_num_in_span(a: int, b: int, s: int, i: int)
    requires
        0 < s,
        0 <= i <= s,
    ensures
        min(a, b) * s <= a * s + i * (b - a),
        a * s + i * (b - a) <= max(a, b) * s,
{
    if a <= b {
        assert(a * s <= a * s + i * (b - a) <= b * s) by (nonlinear_arith)
            requires
                0 < s,
                0 <= i <= s,
                a <= b,
        ;
    } else {
        assert(b * s <= a * s + i * (b - a) <= a * s) by (nonlinear_arith)
            requires
                0 < s,
                0 <= i <= s,
                b < a,
        ;
    }
}

impl Drawable for Line {
    open spec fn wf(&self) -> bool {
        true
    }

    /// A line draws itself with one freshly chosen color for the whole
    /// segment.
    open spec fn draw_ops(&self, color: Color) -> Seq<PixelOp> {
        line_ops(self.start.x as int, self.start.y as int, self.end.x as int, self.end.y as int, color)
    }

    fn draw<D: Displayable>(&self, img: &mut D) {
        let c = self.color();
        self.draw_with_color(img, c);
        proof {
            assert(img.pixels() == old(img).pixels() + self.draw_ops(c));
        }
    }
}

} // verus!
