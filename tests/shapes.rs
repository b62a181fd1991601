use drawing::canvas::{paint, Displayable, Drawable};
use drawing::circle::Circle;
use drawing::line::Line;
use drawing::point::{Color, Point, RangeError};
use drawing::polygon::{cube_wireframe, outline, Rectangle, Square, Triangle};
use raster::Image;
use std::collections::HashSet;

fn pts(v: &[(i32, i32)]) -> Vec<Point> {
    v.iter().map(|&(x, y)| Point::new(x, y)).collect()
}

fn line(a: (i32, i32), b: (i32, i32)) -> Vec<Point> {
    Line::new(&Point::new(a.0, a.1), &Point::new(b.0, b.1)).pixels()
}

fn touches(p: &Point, q: &Point) -> bool {
    p != q && (p.x - q.x).abs() <= 1 && (p.y - q.y).abs() <= 1
}

fn at(img: &Image, x: i32, y: i32) -> Option<Color> {
    if x < 0 || y < 0 || x >= img.width || y >= img.height {
        return None;
    }
    img.get_pixel(x, y).ok().map(|c| Color { r: c.r, g: c.g, b: c.b, a: c.a })
}

#[test]
fn vertical_line_writes_its_column() {
    assert_eq!(line((5, 2), (5, 7)), pts(&[(5, 2), (5, 3), (5, 4), (5, 5), (5, 6), (5, 7)]));
    assert_eq!(line((5, 7), (5, 2)), pts(&[(5, 2), (5, 3), (5, 4), (5, 5), (5, 6), (5, 7)]));
}

#[test]
fn shallow_line_exact_pixels() {
    assert_eq!(line((0, 0), (4, 2)), pts(&[(0, 0), (1, 1), (2, 1), (3, 2), (4, 2)]));
    assert_eq!(line((4, 0), (0, 2)), pts(&[(0, 2), (1, 1), (2, 1), (3, 0), (4, 0)]));
    assert_eq!(line((0, 3), (3, 3)), pts(&[(0, 3), (1, 3), (2, 3), (3, 3)]));
}

#[test]
fn steep_line_exact_pixels() {
    assert_eq!(line((0, 0), (1, 3)), pts(&[(0, 0), (0, 1), (1, 2), (1, 3)]));
    assert_eq!(line((1, 3), (0, 0)), pts(&[(0, 0), (0, 1), (1, 2), (1, 3)]));
}

#[test]
fn coincident_endpoints_give_one_pixel() {
    assert_eq!(line((3, 3), (3, 3)), pts(&[(3, 3)]));
}

#[test]
fn lines_hold_endpoints_and_have_no_gaps() {
    let cases = [
        ((0, 0), (17, 5)),
        ((-4, 9), (3, -20)),
        ((10, 10), (-7, 12)),
        ((2, 2), (9, 9)),
        ((i32::MIN, i32::MIN), (i32::MIN + 40, i32::MIN + 3)),
        ((i32::MAX, 0), (i32::MAX - 5, 30)),
    ];
    for (a, b) in cases {
        let px = line(a, b);
        assert!(px.contains(&Point::new(a.0, a.1)));
        assert!(px.contains(&Point::new(b.0, b.1)));
        for w in px.windows(2) {
            assert!(touches(&w[0], &w[1]));
        }
    }
}

#[test]
fn circle_of_radius_zero_writes_nothing() {
    assert!(Circle::new(0, 0, 0).pixels().is_empty());
    assert!(Circle::new(3, 4, -2).pixels().is_empty());
}

#[test]
fn circle_of_radius_five_holds_axis_points() {
    let px = Circle::new(0, 0, 5).pixels();
    for p in [(5, 0), (0, 5), (-5, 0), (0, -5)] {
        assert!(px.contains(&Point::new(p.0, p.1)));
    }
    for p in &px {
        let r2 = p.x * p.x + p.y * p.y;
        assert!((16..=36).contains(&r2));
    }
}

#[test]
fn circle_of_radius_one_exact_pixels() {
    let px = Circle::new(10, 20, 1).pixels();
    assert_eq!(
        px,
        pts(&[(11, 20), (10, 21), (10, 21), (9, 20), (9, 20), (10, 19), (10, 19), (11, 20)])
    );
}

#[test]
fn tangent_circles_do_not_intersect() {
    let a = Circle::new(0, 0, 4);
    assert!(!a.intersect(&Circle::new(6, 8, 6)));
    assert!(a.intersect(&Circle::new(6, 8, 7)));
    assert!(a.intersect(&Circle::new(0, 0, 1)));
    assert!(!Circle::new(0, 0, 0).intersect(&Circle::new(0, 0, 0)));
    assert!(!Circle::new(0, 0, -3).intersect(&Circle::new(1, 0, 2)));
    assert!(!Circle::new(i32::MIN, 0, i32::MAX).intersect(&Circle::new(i32::MAX, 0, i32::MAX)));
    assert!(!Circle::new(i32::MIN + 1, 0, i32::MAX).intersect(&Circle::new(i32::MAX, 0, i32::MAX)));
    assert!(Circle::new(i32::MIN + 2, 0, i32::MAX).intersect(&Circle::new(i32::MAX, 0, i32::MAX)));
}

#[test]
fn diameter_is_twice_the_radius() {
    assert_eq!(Circle::new(1, 1, 21).diameter(), 42);
    assert_eq!(Circle::new(1, 1, -3).diameter(), -6);
}

#[test]
fn rectangle_is_its_four_sides() {
    let r = Rectangle::new(&Point::new(0, 0), &Point::new(10, 10));
    let mut sides = line((0, 0), (10, 0));
    sides.extend(line((10, 0), (10, 10)));
    sides.extend(line((10, 10), (0, 10)));
    sides.extend(line((0, 10), (0, 0)));
    let px = r.pixels();
    assert_eq!(px, sides);
    let set: HashSet<Point> = px.into_iter().collect();
    let mut border = HashSet::new();
    for k in 0..=10 {
        border.insert(Point::new(k, 0));
        border.insert(Point::new(k, 10));
        border.insert(Point::new(0, k));
        border.insert(Point::new(10, k));
    }
    assert_eq!(set, border);
    assert_eq!(set.len(), 40);
}

#[test]
fn inverted_rectangle_still_closes() {
    let r = Rectangle::new(&Point::new(150, 300), &Point::new(50, 60));
    let px: HashSet<Point> = r.pixels().into_iter().collect();
    for c in [(150, 300), (50, 300), (50, 60), (150, 60)] {
        assert!(px.contains(&Point::new(c.0, c.1)));
    }
}

#[test]
fn square_is_a_rectangle() {
    let s = Square::new(&Point::new(3, 4), 5);
    let r = Rectangle::new(&Point::new(3, 4), &Point::new(8, 9));
    assert_eq!(s.pixels(), r.pixels());
    assert_eq!(s.to_rectangle(), r);
}

#[test]
fn triangle_draws_its_edges_in_order() {
    let t = Triangle::new(&Point::new(0, 0), &Point::new(6, 0), &Point::new(0, 4));
    let mut want = line((0, 0), (6, 0));
    want.extend(line((6, 0), (0, 4)));
    want.extend(line((0, 4), (0, 0)));
    assert_eq!(t.pixels(), want);
}

#[test]
fn outline_of_a_pentagon_closes() {
    let vs = pts(&[(380, 200), (325, 276), (235, 247), (235, 152), (325, 123)]);
    let mut want = Vec::new();
    for i in 0..5 {
        let a = vs[i];
        let b = vs[(i + 1) % 5];
        want.extend(Line::new(&a, &b).pixels());
    }
    assert_eq!(outline(&vs), want);
    assert!(outline(&Vec::new()).is_empty());
}

#[test]
fn flat_cube_reduces_to_its_front_square() {
    let front = pts(&[(-40, -40), (40, -40), (40, 40), (-40, 40)]);
    let mut vs = front.clone();
    vs.extend(front.clone());
    let cube: HashSet<Point> = cube_wireframe(&vs).into_iter().collect();
    let face: HashSet<Point> = outline(&front).into_iter().collect();
    assert_eq!(cube, face);
    assert_eq!(cube_wireframe(&vs).len(), 2 * outline(&front).len() + 4);
}

#[test]
fn cube_wireframe_draws_twelve_edges() {
    let vs = pts(&[(0, 0), (10, 0), (10, 10), (0, 10), (3, 3), (13, 3), (13, 13), (3, 13)]);
    let edges = [(0, 1), (1, 2), (2, 3), (3, 0), (4, 5), (5, 6), (6, 7), (7, 4), (0, 4), (1, 5), (2, 6), (3, 7)];
    let mut want = Vec::new();
    for (i, j) in edges {
        want.extend(Line::new(&vs[i], &vs[j]).pixels());
    }
    assert_eq!(cube_wireframe(&vs), want);
}

#[test]
fn image_ignores_writes_off_its_bounds() {
    let black = Color::rgb(0, 0, 0);
    let mut c = Image::blank(4, 3);
    c.display(3, 2, Color::white());
    c.display(4, 2, Color::white());
    c.display(-1, 0, Color::white());
    c.display(0, 3, Color::white());
    assert_eq!(at(&c, 3, 2), Some(Color::white()));
    assert_eq!(at(&c, 0, 0), Some(black));
    assert_eq!(c.bytes.iter().filter(|&&b| b == 255).count(), 12 + 3);
}

#[test]
fn image_keeps_neighbours_of_a_write() {
    let mut c = Image::blank(3, 3);
    c.display(1, 1, Color::rgb(10, 20, 30));
    assert_eq!(at(&c, 1, 1), Some(Color::rgb(10, 20, 30)));
    assert_eq!(at(&c, 0, 1), Some(Color::rgb(0, 0, 0)));
    assert_eq!(at(&c, 2, 1), Some(Color::rgb(0, 0, 0)));
    assert_eq!(at(&c, 1, 0), Some(Color::rgb(0, 0, 0)));
}

#[test]
fn drawing_twice_equals_drawing_once() {
    let shapes: Vec<Box<dyn Fn(&mut Image)>> = vec![
        Box::new(|c: &mut Image| Line::new(&Point::new(-3, 2), &Point::new(30, 17)).draw(c)),
        Box::new(|c: &mut Image| Circle::new(10, 10, 8).draw(c)),
        Box::new(|c: &mut Image| Rectangle::new(&Point::new(2, 2), &Point::new(15, 9)).draw(c)),
        Box::new(|c: &mut Image| Triangle::new(&Point::new(1, 1), &Point::new(18, 4), &Point::new(5, 19)).draw(c)),
        Box::new(|c: &mut Image| Square::new(&Point::new(4, 4), 6).draw(c)),
        Box::new(|c: &mut Image| Point::new(7, 7).draw(c)),
    ];
    for s in &shapes {
        let mut once = Image::blank(20, 20);
        s(&mut once);
        let mut twice = Image::blank(20, 20);
        s(&mut twice);
        s(&mut twice);
        assert_eq!(once.bytes, twice.bytes);
        assert_ne!(once.bytes, Image::blank(20, 20).bytes);
    }
}

#[test]
fn circle_draws_in_its_own_color() {
    let mut c = Image::blank(20, 20);
    let mut circle = Circle::new(10, 10, 5);
    circle.color = Color::rgb(1, 2, 3);
    assert_eq!(circle.color(), Color::rgb(1, 2, 3));
    circle.draw(&mut c);
    assert_eq!(at(&c, 15, 10), Some(Color::rgb(1, 2, 3)));
    assert_eq!(at(&c, 10, 10), Some(Color::rgb(0, 0, 0)));
}

#[test]
fn point_draws_one_white_pixel() {
    let mut c = Image::blank(5, 5);
    Point::new(2, 3).draw(&mut c);
    assert_eq!(at(&c, 2, 3), Some(Color::white()));
    assert_eq!(at(&c, 3, 2), Some(Color::rgb(0, 0, 0)));
}

#[test]
fn paint_writes_every_listed_pixel() {
    let mut c = Image::blank(3, 3);
    paint(&mut c, &pts(&[(0, 0), (2, 2), (7, 7)]), Color::rgb(9, 9, 9));
    assert_eq!(at(&c, 0, 0), Some(Color::rgb(9, 9, 9)));
    assert_eq!(at(&c, 2, 2), Some(Color::rgb(9, 9, 9)));
    assert_eq!(at(&c, 1, 1), Some(Color::rgb(0, 0, 0)));
}

#[test]
fn random_refuses_non_positive_limits() {
    assert_eq!(Point::random(0, 5), Err(RangeError { limit: 0 }));
    assert_eq!(Point::random(5, -1), Err(RangeError { limit: -1 }));
    assert_eq!(Line::random(-2, 5), Err(RangeError { limit: -2 }));
    assert_eq!(Circle::random(3, 0), Err(RangeError { limit: 0 }));
}

#[test]
fn random_draws_within_limits() {
    assert_eq!(Point::random(1, 1), Ok(Point::new(0, 0)));
    for _ in 0..100 {
        let p = Point::random(7, 3).unwrap();
        assert!((0..7).contains(&p.x) && (0..3).contains(&p.y));
        let l = Line::random(4, 9).unwrap();
        assert!((0..4).contains(&l.a.x) && (0..9).contains(&l.b.y));
        let c = Circle::random(50, 60).unwrap();
        assert!((9..500).contains(&c.radius));
        assert!((0..50).contains(&c.center.x) && (0..60).contains(&c.center.y));
        assert_eq!(c.color.a, 255);
    }
    let draws: HashSet<Point> = (0..50).map(|_| Point::random(1000, 1000).unwrap()).collect();
    assert!(draws.len() > 1);
    assert!(draws.iter().any(|p| p.x != 0 && p.x != 999));
}
