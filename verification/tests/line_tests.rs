use geometrical_shapes::canvas::PixelBuffer;
use geometrical_shapes::color::Color;
use geometrical_shapes::drawable::Drawable;
use geometrical_shapes::line::Line;
use geometrical_shapes::point::Point;

fn coords(buf: &PixelBuffer) -> Vec<(i32, i32)> {
    buf.ops.iter().map(|op| (op.0, op.1)).collect()
}

#[test]
fn equal_endpoints_emit_one_pixel() {
    let p = Point::new(7, -3);
    let line = Line::new(&p, &p);
    let mut buf = PixelBuffer::new();
    let c = Color::rgb(1, 2, 3);
    line.draw_with_color(&mut buf, c);
    assert_eq!(buf.ops, vec![(7, -3, c)]);
}

#[test]
fn horizontal_line_hits_every_pixel_in_order() {
    let line = Line::new(&Point::new(0, 0), &Point::new(4, 0));
    let mut buf = PixelBuffer::new();
    let c = Color::rgb(9, 9, 9);
    line.draw_with_color(&mut buf, c);
    assert_eq!(
        buf.ops,
        vec![(0, 0, c), (1, 0, c), (2, 0, c), (3, 0, c), (4, 0, c)]
    );
}

#[test]
fn pixel_count_is_dominant_span_plus_one() {
    let line = Line::new(&Point::new(2, -1), &Point::new(5, 10));
    let mut buf = PixelBuffer::new();
    line.draw_with_color(&mut buf, Color::rgb(0, 0, 0));
    // dx = 3, dy = 11: max(|dx|, |dy|) + 1 calls
    assert_eq!(buf.ops.len(), 12);
    assert_eq!((buf.ops[0].0, buf.ops[0].1), (2, -1));
    assert_eq!((buf.ops[11].0, buf.ops[11].1), (5, 10));
}

#[test]
fn reversed_line_still_lands_on_both_endpoints() {
    let line = Line::new(&Point::new(4, 0), &Point::new(0, 0));
    let mut buf = PixelBuffer::new();
    let c = Color::rgb(5, 5, 5);
    line.draw_with_color(&mut buf, c);
    assert_eq!(
        buf.ops,
        vec![(4, 0, c), (3, 0, c), (2, 0, c), (1, 0, c), (0, 0, c)]
    );
}

#[test]
fn steep_line_truncates_the_slow_axis() {
    let line = Line::new(&Point::new(0, 0), &Point::new(2, 5));
    let mut buf = PixelBuffer::new();
    line.draw_with_color(&mut buf, Color::rgb(0, 0, 0));
    // 5 steps; x advances by 2/5 per step and truncates toward zero
    assert_eq!(
        coords(&buf),
        vec![(0, 0), (0, 1), (0, 2), (1, 3), (1, 4), (2, 5)]
    );
}

#[test]
fn negative_coordinates_truncate_toward_zero() {
    let line = Line::new(&Point::new(0, 0), &Point::new(-2, -5));
    let mut buf = PixelBuffer::new();
    line.draw_with_color(&mut buf, Color::rgb(0, 0, 0));
    assert_eq!(
        coords(&buf),
        vec![(0, 0), (0, -1), (0, -2), (-1, -3), (-1, -4), (-2, -5)]
    );
}

#[test]
fn draw_uses_one_color_for_the_whole_line() {
    let line = Line::new(&Point::new(0, 0), &Point::new(6, 2));
    let mut buf = PixelBuffer::new();
    line.draw(&mut buf);
    assert_eq!(buf.ops.len(), 7);
    let first_color = buf.ops[0].2;
    for op in &buf.ops {
        assert_eq!(op.2, first_color);
    }
    assert_eq!((buf.ops[0].0, buf.ops[0].1), (0, 0));
    assert_eq!((buf.ops[6].0, buf.ops[6].1), (6, 2));
}

#[test]
fn line_construction_copies_its_endpoints() {
    let a = Point::new(1, 2);
    let b = Point::new(3, 4);
    let line = Line::new(&a, &b);
    // mutating the originals afterwards must not affect the line
    let mut a = a;
    a.x = 100;
    a.y = 200;
    let mut buf = PixelBuffer::new();
    let c = Color::rgb(0, 0, 0);
    line.draw_with_color(&mut buf, c);
    assert_eq!((buf.ops[0].0, buf.ops[0].1), (1, 2));
    let last = buf.ops[buf.ops.len() - 1];
    assert_eq!((last.0, last.1), (3, 4));
    assert_eq!(a.x, 100);
}

#[test]
fn random_line_stays_within_bounds() {
    for _ in 0..50 {
        let line = Line::random(5, 7);
        let mut buf = PixelBuffer::new();
        line.draw_with_color(&mut buf, Color::rgb(0, 0, 0));
        let first = buf.ops[0];
        let last = buf.ops[buf.ops.len() - 1];
        assert!(0 <= first.0 && first.0 < 5 && 0 <= first.1 && first.1 < 7);
        assert!(0 <= last.0 && last.0 < 5 && 0 <= last.1 && last.1 < 7);
    }
}

#[test]
fn random_point_in_unit_bounds_is_the_origin() {
    // the sampling ranges [0, 1) leave a single possible value, so a
    // sampler that did not honor its bounds would be caught here
    for _ in 0..20 {
        let p = Point::random(1, 1);
        assert_eq!((p.x, p.y), (0, 0));
    }
}

#[test]
fn point_draws_its_own_stored_color() {
    let p = Point::new(7, 8);
    let expected = p.color;
    let mut buf = PixelBuffer::new();
    p.draw(&mut buf);
    assert_eq!(buf.ops, vec![(7, 8, expected)]);
}
