use geometrical_shapes::canvas::PixelBuffer;
use geometrical_shapes::circle::Circle;
use geometrical_shapes::color::Color;
use geometrical_shapes::cube::Cube;
use geometrical_shapes::drawable::Drawable;
use geometrical_shapes::pentagon::Pentagon;
use geometrical_shapes::point::Point;
use geometrical_shapes::rectangle::Rectangle;
use geometrical_shapes::triangle::Triangle;

fn coords(buf: &PixelBuffer) -> Vec<(i32, i32)> {
    buf.ops.iter().map(|op| (op.0, op.1)).collect()
}

fn single_color(buf: &PixelBuffer) -> Color {
    let c = buf.ops[0].2;
    for op in &buf.ops {
        assert_eq!(op.2, c);
    }
    c
}

#[test]
fn rectangle_corner_order_is_commutative() {
    let p1 = Point::new(9, -2);
    let p2 = Point::new(-4, 13);
    let r1 = Rectangle::new(&p1, &p2);
    let r2 = Rectangle::new(&p2, &p1);
    assert_eq!((r1.a.x, r1.a.y, r1.b.x, r1.b.y), (r2.a.x, r2.a.y, r2.b.x, r2.b.y));
}

#[test]
fn rectangle_normalizes_to_min_and_max_corners() {
    let rect = Rectangle::new(&Point::new(5, 5), &Point::new(0, 0));
    assert_eq!((rect.a.x, rect.a.y), (0, 0));
    assert_eq!((rect.b.x, rect.b.y), (5, 5));
}

#[test]
fn rectangle_invariant_holds_for_mixed_corners() {
    let rect = Rectangle::new(&Point::new(3, -7), &Point::new(-1, 4));
    assert_eq!((rect.a.x, rect.a.y), (-1, -7));
    assert_eq!((rect.b.x, rect.b.y), (3, 4));
    assert!(rect.a.x <= rect.b.x && rect.a.y <= rect.b.y);
}

#[test]
fn rectangle_draws_four_closed_edges() {
    let rect = Rectangle::new(&Point::new(0, 0), &Point::new(3, 2));
    let mut buf = PixelBuffer::new();
    let c = Color::rgb(1, 1, 1);
    rect.draw_with_color(&mut buf, c);
    // edges: 4 + 3 + 4 + 3 pixel-set calls, both endpoints included each
    assert_eq!(buf.ops.len(), 14);
    // top edge runs left to right along y = 0
    assert_eq!(coords(&buf)[0..4], [(0, 0), (1, 0), (2, 0), (3, 0)]);
    // the last edge ends back on the top-left corner
    assert_eq!(coords(&buf)[13], (0, 0));
    single_color(&buf);
}

#[test]
fn triangle_draws_three_edges_in_one_color() {
    let t = Triangle::new(&Point::new(0, 0), &Point::new(4, 0), &Point::new(0, 4));
    let mut buf = PixelBuffer::new();
    t.draw(&mut buf);
    assert_eq!(buf.ops.len(), 15);
    let cs = coords(&buf);
    assert_eq!(cs[0..5], [(0, 0), (1, 0), (2, 0), (3, 0), (4, 0)]);
    assert_eq!(cs[5..10], [(4, 0), (3, 1), (2, 2), (1, 3), (0, 4)]);
    assert_eq!(cs[10..15], [(0, 4), (0, 3), (0, 2), (0, 1), (0, 0)]);
    single_color(&buf);
}

#[test]
fn circle_radius_zero_emits_one_pixel() {
    let circle = Circle::new(&Point::new(0, 0), 0);
    let mut buf = PixelBuffer::new();
    circle.draw(&mut buf);
    assert_eq!(coords(&buf), vec![(0, 0)]);
}

#[test]
fn circle_pixels_stay_within_chebyshev_radius() {
    let circle = Circle::new(&Point::new(50, 40), 10);
    let mut buf = PixelBuffer::new();
    circle.draw(&mut buf);
    assert!(buf.ops.len() > 0);
    assert!(buf.ops.len() <= 80);
    assert_eq!(buf.ops.len() % 8, 0);
    for (x, y) in coords(&buf) {
        assert!((x - 50).abs() <= 10, "x = {} strays from the center", x);
        assert!((y - 40).abs() <= 10, "y = {} strays from the center", y);
    }
    single_color(&buf);
}

#[test]
fn circle_first_iteration_emits_the_cardinal_reflections() {
    let circle = Circle::new(&Point::new(0, 0), 3);
    let mut buf = PixelBuffer::new();
    circle.draw(&mut buf);
    // the first loop iteration reflects the offset (0, -3)
    assert_eq!(
        coords(&buf)[0..8],
        [(0, -3), (0, -3), (0, 3), (0, 3), (-3, 0), (3, 0), (3, 0), (-3, 0)]
    );
}

#[test]
fn pentagon_traces_five_segments_between_derived_vertices() {
    let pent = Pentagon::new(&Point::new(100, 100), 10);
    let mut buf = PixelBuffer::new();
    pent.draw(&mut buf);
    let cs = coords(&buf);
    // vertices at angles 72, 144, 216, 288 and 360 degrees around (100, 100)
    assert_eq!(cs.len(), 59);
    assert_eq!(cs[0], (110, 100));
    assert_eq!(cs[9], (103, 109));
    assert_eq!(cs[22], (91, 105));
    assert_eq!(cs[34], (91, 94));
    assert_eq!(cs[47], (103, 90));
    assert_eq!(cs[58], (110, 100));
    single_color(&buf);
}

#[test]
fn pentagon_vertices_stay_within_the_radius() {
    let pent = Pentagon::new(&Point::new(0, 0), 25);
    let mut buf = PixelBuffer::new();
    pent.draw(&mut buf);
    for (x, y) in coords(&buf) {
        assert!(x.abs() <= 25 && y.abs() <= 25);
    }
}

#[test]
fn pentagon_radius_zero_collapses_to_the_center() {
    let pent = Pentagon::new(&Point::new(4, 5), 0);
    let mut buf = PixelBuffer::new();
    pent.draw(&mut buf);
    assert_eq!(coords(&buf), vec![(4, 5); 5]);
}

#[test]
fn cube_draws_two_squares_and_four_connectors() {
    let cube = Cube::new(&Point::new(10, 10), 9);
    let mut buf = PixelBuffer::new();
    cube.draw(&mut buf);
    let cs = coords(&buf);
    // two squares of four 10-pixel edges, then four 4-pixel connectors
    assert_eq!(cs.len(), 96);
    assert_eq!(cs[0], (10, 10));
    // the back face starts at the depth-shifted corner (13, 7)
    assert_eq!(cs[40], (13, 7));
    // the last connector ends on the shifted copy of (10, 19)
    assert_eq!(cs[95], (13, 16));
    single_color(&buf);
}

#[test]
fn random_circle_respects_its_bounds() {
    for _ in 0..20 {
        let c = Circle::random(6, 4);
        assert!(0 <= c.center.x && c.center.x < 6);
        assert!(0 <= c.center.y && c.center.y < 4);
        assert!(0 <= c.radius && c.radius <= 4);
    }
}

#[test]
fn random_pentagon_respects_its_bounds() {
    for _ in 0..20 {
        let p = Pentagon::random(5, 8);
        assert!(0 <= p.center.x && p.center.x < 5);
        assert!(0 <= p.center.y && p.center.y < 8);
        assert!(0 <= p.radius && p.radius < 5);
    }
}
