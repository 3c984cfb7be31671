use purpy::geometry::{Pixels, Point, Rect, Subpixels};

#[test]
fn pixels_to_subpixels() {
    let pixels: Pixels = Pixels(4);
    let subpixels: Subpixels = pixels.as_subpixels();
    assert_eq!(subpixels.0, 128);

    let subpixels = pixels.as_subpixels();
    assert_eq!(subpixels.0, 128);
}

#[test]
fn subpixels_to_pixels() {
    let subpixels: Subpixels = Subpixels(128);
    let pixels: Pixels = subpixels.as_pixels();
    assert_eq!(pixels.0, 4);
}

#[test]
fn subpixels_math() {
    let x1 = Subpixels(32);
    let x2 = x1 + Subpixels(12);
    assert_eq!(x2, Subpixels(44));

    let x3 = x2 - Subpixels(12);
    assert_eq!(x3, Subpixels(32));
}

#[test]
fn point_constructor() {
    let point1 = Point {
        x: Subpixels(1),
        y: Subpixels(2),
    };
    let point2 = Point::new(Subpixels(3), Subpixels(4));
    let point3: Point<Pixels> = (Pixels(5), Pixels(6)).into();
    let point4: Point<Pixels> = (Pixels(7), Pixels(8)).into();

    assert_eq!(point1.x, Subpixels(1));
    assert_eq!(point1.y, Subpixels(2));
    assert_eq!(point2.x, Subpixels(3));
    assert_eq!(point2.y, Subpixels(4));
    assert_eq!(point3.x, Pixels(5));
    assert_eq!(point3.y, Pixels(6));
    assert_eq!(point4.x, Pixels(7));
    assert_eq!(point4.y, Pixels(8));
}

#[test]
fn point_conversion() {
    let pixels: Point<Pixels> = (Pixels(1), Pixels(2)).into();
    let subpixels: Point<Subpixels> = pixels.into();
    assert_eq!(subpixels.x, Subpixels(32));
    assert_eq!(subpixels.y, Subpixels(64));

    let subpixels: Point<Subpixels> =
        (Pixels(3).as_subpixels(), Pixels(4).as_subpixels()).into();
    assert_eq!(subpixels.x, Subpixels(96));
    assert_eq!(subpixels.y, Subpixels(128));
}

#[test]
fn point_addition() {
    let point1: Point<Pixels> = (Pixels(1), Pixels(2)).into();
    let point2: Point<Pixels> = (Pixels(3), Pixels(4)).into();
    let point3 = point1 + point2;
    assert_eq!(point3.x, Pixels(4));
    assert_eq!(point3.y, Pixels(6));

    let point1: Point<Subpixels> = point1.into();
    let point2: Point<Subpixels> = point2.into();
    let point3 = point1 + point2;
    assert_eq!(point3.x, Subpixels::new(128));
    assert_eq!(point3.y, Subpixels::new(192));
}

#[test]
fn point_multiplication() {
    let point1: Point<Pixels> = (Pixels::new(1), Pixels::new(2)).into();
    let point2 = point1 * 5;
    assert_eq!(point2.x, Pixels(5));
    assert_eq!(point2.y, Pixels(10));

    let point1: Point<Subpixels> = point1.into();
    let point2 = point1 * 5;
    assert_eq!(point2.x, Subpixels::new(160));
    assert_eq!(point2.y, Subpixels::new(320));
}

#[test]
fn rect_getters() {
    let r = Rect {
        x: 10,
        y: 20,
        w: 3,
        h: 4,
    };
    assert_eq!(r.x, 10);
    assert_eq!(r.y, 20);
    assert_eq!(r.w, 3);
    assert_eq!(r.h, 4);
    assert_eq!(r.left(), 10);
    assert_eq!(r.top(), 20);
    assert_eq!(r.right(), 13);
    assert_eq!(r.bottom(), 24);
}

#[test]
fn rect_add_point() {
    let r = Rect {
        x: 10,
        y: 20,
        w: 3,
        h: 4,
    };
    let p = Point::new(100, 200);
    let r = r + p;
    assert_eq!(r.x, 110);
    assert_eq!(r.y, 220);
    assert_eq!(r.w, 3);
    assert_eq!(r.h, 4);
    assert_eq!(r.left(), 110);
    assert_eq!(r.top(), 220);
    assert_eq!(r.right(), 113);
    assert_eq!(r.bottom(), 224);
}

#[test]
fn rect_pixels_to_subpixels() {
    let r: Rect<Pixels> = Rect {
        x: Pixels(1),
        y: Pixels(2),
        w: Pixels(3),
        h: Pixels(4),
    };
    let r: Rect<Subpixels> = r.into();
    assert_eq!(r.x, Subpixels(32));
    assert_eq!(r.y, Subpixels(64));
    assert_eq!(r.w, Subpixels(96));
    assert_eq!(r.h, Subpixels(128));

    let r = r.as_pixels();
    assert_eq!(r.x, Pixels(1));
    assert_eq!(r.y, Pixels(2));
    assert_eq!(r.w, Pixels(3));
    assert_eq!(r.h, Pixels(4));
}
