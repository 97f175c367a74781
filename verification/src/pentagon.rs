use vstd::prelude::*;

use crate::canvas::{Displayable, PixelOp};
use crate::color::Color;
use crate::drawable::Drawable;
use crate::line::{line_ops, Line};
use crate::point::Point;
use crate::sample::sample_below;

verus! {

/// The integer square root: the largest s with s * s <= n.
pub open spec fn isqrt_spec(n: nat) -> nat
    decreases n,
{
    if n == 0 {
        0
    } else {
        let s = isqrt_spec((n - 1) as nat);
        if (s + 1) * (s + 1) <= n {
            s + 1
        } else {
            s
        }
    }
}

/// `isqrt_spec` is squeezed between the two squares that define it.
pub proof fn lemma_isqrt_spec_bounds(n: nat)
    ensures
        isqrt_spec(n) * isqrt_spec(n) <= n,
        n < (isqrt_spec(n) + 1) * (isqrt_spec(n) + 1),
    decreases n,
{
    let t = isqrt_spec(n);
    if n == 0 {
        assert(t == 0);
        assert(n < (t + 1) * (t + 1)) by (nonlinear_arith)
            requires
                n == 0,
                t == 0,
        ;
    } else {
        lemma_isqrt_spec_bounds((n - 1) as nat);
        let s = isqrt_spec((n - 1) as nat);
        if (s + 1) * (s + 1) <= n {
            assert(t == s + 1);
            assert(n <= (s + 1) * (s + 1)) by {
                assert(((n - 1) as nat) < (s + 1) * (s + 1));
            }
            assert(t * t <= n && n < (t + 1) * (t + 1)) by (nonlinear_arith)
                requires
                    t == s + 1,
                    (s + 1) * (s + 1) <= n,
                    n <= (s + 1) * (s + 1),
            ;
        } else {
            assert(t == s);
            assert(s * s <= (n - 1) as nat <= n);
            assert(t * t <= n && n < (t + 1) * (t + 1)) by (nonlinear_arith)
                requires
                    t == s,
                    s * s <= n,
                    n < (s + 1) * (s + 1),
            ;
        }
    }
}

/// Any b whose next square exceeds n bounds the integer square root above.
pub proof fn lemma_isqrt_le(n: nat, b: nat)
    requires
        n < (b + 1) * (b + 1),
    ensures
        isqrt_spec(n) <= b,
{
    lemma_isqrt_spec_bounds(n);
    let s = isqrt_spec(n);
    if s > b {
        assert((b + 1) * (b + 1) <= s * s) by (nonlinear_arith)
            requires
                b + 1 <= s,
        ;
    }
}

/// Any b whose square is at most n bounds the integer square root below.
pub proof fn lemma_isqrt_ge(n: nat, b: nat)
    requires
        b * b <= n,
    ensures
        b <= isqrt_spec(n),
{
    lemma_isqrt_spec_bounds(n);
    let s = isqrt_spec(n);
    if s < b {
        assert((s + 1) * (s + 1) <= b * b) by (nonlinear_arith)
            requires
                s + 1 <= b,
        ;
    }
}

/// The integer square root, by binary search on the answer.
fn isqrt_u128(n: u128) -> (s: u128)
    ensures
        s as nat == isqrt_spec(n as nat),
        (s as nat) * (s as nat) <= n as nat,
        (n as nat) < (s as nat + 1) * (s as nat + 1),
{
    let mut lo: u128 = 0;
    let mut hi: u128 = 0x1_0000_0000_0000_0000u128;
    proof {
        assert((hi as nat) * (hi as nat) > n as nat) by (nonlinear_arith)
            requires
                hi as nat == 0x1_0000_0000_0000_0000 as nat,
                (n as nat) < 0x1_0000_0000_0000_0000_0000_0000_0000_0000 as nat,
        ;
    }
    while hi - lo > 1
        invariant
            lo < hi <= 0x1_0000_0000_0000_0000u128,
            (lo as nat) * (lo as nat) <= n as nat,
            (n as nat) < (hi as nat) * (hi as nat),
        decreases hi - lo,
    {
        let mid = lo + (hi - lo) / 2;
        proof {
            assert((mid as nat) * (mid as nat) < 0x1_0000_0000_0000_0000_0000_0000_0000_0000 as nat)
                by (nonlinear_arith)
                requires
                    (mid as nat) < 0x1_0000_0000_0000_0000 as nat,
            ;
        }
        let sq = mid * mid;
        if sq <= n {
            lo = mid;
        } else {
            hi = mid;
        }
    }
    proof {
        lemma_isqrt_ge(n as nat, lo as nat);
        lemma_isqrt_le(n as nat, lo as nat);
    }
    lo
}

/// floor(r * cos 72), as integers: cos 72 is (sqrt 5 - 1) / 4, so the exact
/// value is (sqrt(5 r^2) - r) / 4 and its floor survives replacing the
/// inner root by the integer square root.
pub open spec fn pent_shift_outer(r: int) -> int
    recommends
        0 <= r,
{
    (isqrt_spec((5 * r * r) as nat) - r) / 4
}

/// floor(r * cos 144) and floor(r * cos 216), as integers: cos 144 is
/// -(sqrt 5 + 1) / 4, and for r > 0 the enclosed value is irrational, so
/// its floor is one below the floor of the negated mirror value.
pub open spec fn pent_shift_inner(r: int) -> int
    recommends
        0 <= r,
{
    if r == 0 {
        0
    } else {
        -((r + isqrt_spec((5 * r * r) as nat)) / 4) - 1
    }
}

/// floor(sqrt(20 r^4)), the inner root shared by the two rise values:
/// sin 72 and sin 144 are sqrt(10 +- 2 sqrt 5) / 4, and 2 r^2 sqrt 5 is
/// sqrt(20 r^4).
pub open spec fn pent_root20(r: int) -> nat
    recommends
        0 <= r,
{
    isqrt_spec((20 * r * r * r * r) as nat)
}

/// floor(r * sin 72), as integers: floor(sqrt(10 r^2 + sqrt(20 r^4)) / 4),
/// where each nested floor leaves the outer floor unchanged.
pub open spec fn pent_rise_outer(r: int) -> int
    recommends
        0 <= r,
{
    isqrt_spec((10 * r * r + pent_root20(r)) as nat) as int / 4
}

/// floor(r * sin 144), as integers: floor(sqrt(10 r^2 - sqrt(20 r^4)) / 4).
/// For r > 0 the inner value is irrational, so flooring it costs one.
pub open spec fn pent_rise_inner(r: int) -> int
    recommends
        0 <= r,
{
    if r == 0 {
        0
    } else {
        isqrt_spec((10 * r * r - pent_root20(r) - 1) as nat) as int / 4
    }
}

/// The i-th vertex of the pentagon, at angle i * 72 degrees from the point
/// directly right of the center at distance r; the fifth angle is a full
/// turn, landing back on the start.  Vertical offsets at 216 and 288
/// degrees are the floors of negated irrational values, one below the
/// negated floors.
pub open spec fn pentagon_vertex(cx: int, cy: int, r: int, i: int) -> (int, int)
    recommends
        0 <= r,
        0 <= i <= 5,
{
    if i == 1 {
        (cx + pent_shift_outer(r), cy + pent_rise_outer(r))
    } else if i == 2 {
        (cx + pent_shift_inner(r), cy + pent_rise_inner(r))
    } else if i == 3 {
        (cx + pent_shift_inner(r), cy + (if r == 0 {
            0
        } else {
            -pent_rise_inner(r) - 1
        }))
    } else if i == 4 {
        (cx + pent_shift_outer(r), cy + (if r == 0 {
            0
        } else {
            -pent_rise_outer(r) - 1
        }))
    } else {
        (cx + r, cy)
    }
}

/// The pixel-set calls one pentagon draw emits: exactly five line
/// segments, each from the previous vertex to the next, all in one color.
pub open spec fn pentagon_ops(cx: int, cy: int, r: int, color: Color) -> Seq<PixelOp> {
    let v0 = pentagon_vertex(cx, cy, r, 0);
    let v1 = pentagon_vertex(cx, cy, r, 1);
    let v2 = pentagon_vertex(cx, cy, r, 2);
    let v3 = pentagon_vertex(cx, cy, r, 3);
    let v4 = pentagon_vertex(cx, cy, r, 4);
    let v5 = pentagon_vertex(cx, cy, r, 5);
    line_ops(v0.0, v0.1, v1.0, v1.1, color) + line_ops(v1.0, v1.1, v2.0, v2.1, color) + line_ops(
        v2.0,
        v2.1,
        v3.0,
        v3.1,
        color,
    ) + line_ops(v3.0, v3.1, v4.0, v4.1, color) + line_ops(v4.0, v4.1, v5.0, v5.1, color)
}

/// The vertex offsets never leave the radius: each shift and rise lies in
/// [-r, r], and for positive radius the strict variants leave room for the
/// extra one the negated floors cost.
pub proof fn lemma_pent_offsets_in_radius(r: int)
    requires
        0 <= r,
    ensures
        0 <= pent_shift_outer(r) <= r,
        -r <= pent_shift_inner(r) <= 0,
        0 <= pent_rise_outer(r),
        0 <= pent_rise_inner(r),
        r == 0 ==> pent_rise_outer(r) == 0,
        r > 0 ==> pent_rise_outer(r) <= r - 1,
        r > 0 ==> pent_rise_inner(r) <= r - 1,
{
    let n5 = (5 * r * r) as nat;
    assert(5 * r * r >= r * r >= 0) by (nonlinear_arith);
    let s5 = isqrt_spec(n5);
    assert((r as nat) * (r as nat) <= n5) by (nonlinear_arith)
        requires
            0 <= r,
            n5 == 5 * r * r,
    ;
    lemma_isqrt_ge(n5, r as nat);
    if r == 0 {
        assert(5 * r * r == 0 && 10 * r * r == 0 && 20 * r * r * r * r == 0) by (nonlinear_arith)
            requires
                r == 0,
        ;
        assert(isqrt_spec(0nat) == 0);
        assert(pent_rise_outer(0) == 0);
    } else {
        let rr = r * r;
        assert(rr >= 1 && 5 * r * r == 5 * rr && 10 * r * r == 10 * rr && 20 * r * r * r * r == 20
            * (rr * rr) && rr * rr >= 1) by (nonlinear_arith)
            requires
                r >= 1,
                rr == r * r,
        ;
        // s5 <= 3r - 1, since (3r)^2 exceeds 5r^2
        assert(n5 < ((3 * r - 1) as nat + 1) * ((3 * r - 1) as nat + 1)) by (nonlinear_arith)
            requires
                r >= 1,
                n5 == 5 * r * r,
        ;
        lemma_isqrt_le(n5, (3 * r - 1) as nat);
        // shift_outer = (s5 - r) / 4 <= (2r - 1) / 4 <= r; >= 0 since s5 >= r
        assert(0 <= (s5 - r) / 4 && (s5 - r) / 4 <= r);
        // shift_inner: (r + s5) / 4 <= (4r - 1) / 4 = r - 1
        assert((r + s5) / 4 <= r - 1 && 0 <= (r + s5) / 4);
        let n20 = (20 * r * r * r * r) as nat;
        assert(20 * r * r * r * r >= 0) by (nonlinear_arith)
            requires
                r >= 1,
        ;
        let s20 = pent_root20(r);
        // 4r^2 <= s20 <= 5r^2 - 1
        assert(((4 * r * r) as nat) * ((4 * r * r) as nat) <= n20) by (nonlinear_arith)
            requires
                r >= 1,
                n20 == 20 * r * r * r * r,
        ;
        lemma_isqrt_ge(n20, (4 * r * r) as nat);
        assert(n20 < ((5 * r * r - 1) as nat + 1) * ((5 * r * r - 1) as nat + 1))
            by (nonlinear_arith)
            requires
                r >= 1,
                n20 == 20 * r * r * r * r,
        ;
        lemma_isqrt_le(n20, (5 * r * r - 1) as nat);
        // rise_outer: t_out <= 4r - 1 since 10r^2 + s20 < 16r^2
        let m_out = (10 * r * r + s20) as nat;
        assert(m_out < ((4 * r - 1) as nat + 1) * ((4 * r - 1) as nat + 1)) by (nonlinear_arith)
            requires
                r >= 1,
                s20 <= 5 * r * r - 1,
                m_out == 10 * r * r + s20,
        ;
        lemma_isqrt_le(m_out, (4 * r - 1) as nat);
        assert(pent_rise_outer(r) <= r - 1);
        // rise_inner: t_in <= 3r - 1 since 10r^2 - s20 - 1 < 9r^2
        assert(10 * r * r - s20 - 1 >= 0) by (nonlinear_arith)
            requires
                r >= 1,
                s20 <= 5 * r * r - 1,
        ;
        let m_in = (10 * r * r - s20 - 1) as nat;
        assert(m_in < ((3 * r - 1) as nat + 1) * ((3 * r - 1) as nat + 1)) by (nonlinear_arith)
            requires
                r >= 1,
                4 * r * r <= s20 <= 5 * r * r - 1,
                m_in == 10 * r * r - s20 - 1,
        ;
        lemma_isqrt_le(m_in, (3 * r - 1) as nat);
        assert(pent_rise_inner(r) <= r - 1);
    }
}

/// The pentagon's five segments close the shape, the fifth vertex landing
/// back on the start, and every vertex lies within Chebyshev distance r of
/// the center.
pub proof fn lemma_pentagon_closes_and_bounded(cx: int, cy: int, r: int)
    requires
        0 <= r,
    ensures
        pentagon_vertex(cx, cy, r, 5) == pentagon_vertex(cx, cy, r, 0),
        forall|i: int|
            0 <= i <= 5 ==> cx - r <= #[trigger] pentagon_vertex(cx, cy, r, i).0 <= cx + r && cy - r
                <= pentagon_vertex(cx, cy, r, i).1 <= cy + r,
{
    lemma_pent_offsets_in_radius(r);
}

/// A regular pentagon: an owned center point and an integer radius; the
/// five vertices are derived at draw time, not stored.
pub struct Pentagon {
    pub center: Point,
    pub radius: i32,
}

impl Pentagon {
    /// A pentagon around a copy of the given center.
    pub fn new(p1: &Point, radius: i32) -> (p: Pentagon)
        ensures
            p.center.x == p1.x,
            p.center.y == p1.y,
            p.radius == radius,
    {
        Pentagon { center: Point { x: p1.x, y: p1.y, color: p1.color }, radius }
    }

    /// A pentagon with a center drawn uniformly from [0, width) x
    /// [0, height) and a radius drawn uniformly below the smaller bound.
    pub fn random(width: i32, height: i32) -> (p: Pentagon)
        requires
            width > 0,
            height > 0,
        ensures
            0 <= p.center.x < width,
            0 <= p.center.y < height,
            0 <= p.radius,
            p.radius < width,
            p.radius < height,
    {
        let bound = if width <= height {
            width
        } else {
            height
        };
        let center = Point::random(width, height);
        let radius = sample_below(0, bound);
        Pentagon::new(&center, radius)
    }
}

impl Drawable for Pentagon {
    /// The radius is non-negative, small enough for the vertex arithmetic
    /// to stay within 128 bits, and the pentagon's bounding square stays
    /// within the surface's i32 coordinates.
    open spec fn wf(&self) -> bool {
        &&& 0 <= self.radius <= 0x4000_0000
        &&& i32::MIN as int <= self.center.x as int - self.radius as int
        &&& self.center.x as int + self.radius as int <= i32::MAX as int
        &&& i32::MIN as int <= self.center.y as int - self.radius as int
        &&& self.center.y as int + self.radius as int <= i32::MAX as int
    }

    open spec fn draw_ops(&self, color: Color) -> Seq<PixelOp> {
        pentagon_ops(self.center.x as int, self.center.y as int, self.radius as int, color)
    }

    #[verifier::rlimit(100)]
    fn draw<D: Displayable>(&self, image: &mut D) {
        let ghost base = image.pixels();
        let color = self.color();
        let cx = self.center.x;
        let cy = self.center.y;
        let r = self.radius;
        let ghost ri = r as int;
        proof {
            lemma_pent_offsets_in_radius(ri);
        }
        let ru = r as u128;
        proof {
            assert(5 * ru * ru < 0x1_0000_0000_0000_0000 && 10 * ru * ru < 0x1_0000_0000_0000_0000
                && 20 * ru * ru < 0x1_0000_0000_0000_0000_0000 && 20 * ru * ru * ru
                < 0x1_0000_0000_0000_0000_0000_0000_0000 && 20 * ru * ru * ru * ru
                < 0x2000_0000_0000_0000_0000_0000_0000_0000) by (nonlinear_arith)
                requires
                    0 <= ru <= 0x4000_0000,
            ;
            assert(ri * ri <= 5 * ri * ri && 0 <= ri * ri) by (nonlinear_arith)
                requires
                    0 <= ri,
            ;
            lemma_isqrt_ge((5 * ri * ri) as nat, ri as nat);
        }
        let s5 = isqrt_u128(5 * ru * ru);
        let dx_outer: i32;
        let dx_inner: i32;
        let dy_outer: i32;
        let dy_inner: i32;
        if r == 0 {
            dx_outer = 0;
            dx_inner = 0;
            dy_outer = 0;
            dy_inner = 0;
            proof {
                assert(5 * ri * ri == 0 && 10 * ri * ri == 0 && 20 * ri * ri * ri * ri == 0)
                    by (nonlinear_arith)
                    requires
                        ri == 0,
                ;
                assert(isqrt_spec(0nat) == 0);
                assert(dx_outer == pent_shift_outer(ri));
                assert(dy_outer == pent_rise_outer(ri));
            }
        } else {
            let s20 = isqrt_u128(20 * ru * ru * ru * ru);
            proof {
                assert(1 <= ri * ri && 4 * ri * ri >= 0 && 4 <= 5 * ri * ri - 1 && (4 * ri * ri) * (
                4 * ri * ri) <= 20 * ri * ri * ri * ri && 20 * ri * ri * ri * ri >= 0 && 20 * ri
                    * ri * ri * ri < (5 * ri * ri) * (5 * ri * ri) && 5 * ri * ri < (3 * ri) * (3
                    * ri)) by (nonlinear_arith)
                    requires
                        1 <= ri,
                ;
                lemma_isqrt_ge((20 * ri * ri * ri * ri) as nat, (4 * ri * ri) as nat);
                lemma_isqrt_le((20 * ri * ri * ri * ri) as nat, (5 * ri * ri - 1) as nat);
                lemma_isqrt_le((5 * ri * ri) as nat, (3 * ri - 1) as nat);
                assert(s20 as int <= 5 * ri * ri - 1);
                assert(10 * ru * ru - s20 - 1 >= 0 && 10 * ru * ru + s20
                    < 0x1_0000_0000_0000_0000_0000) by (nonlinear_arith)
                    requires
                        1 <= ru <= 0x4000_0000,
                        ru == ri,
                        0 <= s20 as int <= 5 * ri * ri - 1,
                ;
            }
            let t_out = isqrt_u128(10 * ru * ru + s20);
            let t_in = isqrt_u128(10 * ru * ru - s20 - 1);
            dx_outer = ((s5 - ru) / 4) as i32;
            dx_inner = -((((ru + s5) / 4) as i32)) - 1;
            dy_outer = (t_out / 4) as i32;
            dy_inner = (t_in / 4) as i32;
        }
        proof {
            assert(dx_outer == pent_shift_outer(ri));
            assert(dx_inner == pent_shift_inner(ri));
            assert(dy_outer == pent_rise_outer(ri));
            assert(dy_inner == pent_rise_inner(ri));
        }
        let dy_inner_neg: i32 = if r == 0 {
            0
        } else {
            -dy_inner - 1
        };
        let dy_outer_neg: i32 = if r == 0 {
            0
        } else {
            -dy_outer - 1
        };
        let v0 = Point::new(cx + r, cy);
        let v1 = Point::new(cx + dx_outer, cy + dy_outer);
        let v2 = Point::new(cx + dx_inner, cy + dy_inner);
        let v3 = Point::new(cx + dx_inner, cy + dy_inner_neg);
        let v4 = Point::new(cx + dx_outer, cy + dy_outer_neg);
        let v5 = Point::new(cx + r, cy);
        Line::new(&v0, &v1).draw_with_color(image, color.clone());
        Line::new(&v1, &v2).draw_with_color(image, color.clone());
        Line::new(&v2, &v3).draw_with_color(image, color.clone());
        Line::new(&v3, &v4).draw_with_color(image, color.clone());
        Line::new(&v4, &v5).draw_with_color(image, color.clone());
        proof {
            assert(image.pixels() =~= base + self.draw_ops(color));
            assert(image.pixels() == old(image).pixels() + self.draw_ops(color));
        }
    }
}

} // verus!
