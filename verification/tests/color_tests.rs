use ray_kernel::color::Color;

fn b(x: f64) -> u64 {
    x.to_bits()
}

#[test]
fn new_color() {
    let c: Color = Color::new(b(-0.5), b(0.4), b(0.1));

    assert_eq!(c.r, b(-0.5));
    assert_eq!(c.g, b(0.4));
    assert_eq!(c.b, b(0.1));
}

#[test]
fn add_colors() {
    let c1: Color = Color::new(b(0.9), b(0.6), b(0.75));
    let c2: Color = Color::new(b(0.7), b(0.1), b(0.25));

    assert_eq!(c1.add(&c2), Color::new(b(1.6), b(0.7), b(1.0)));
    assert_eq!(c1.r, b(0.9));
    assert_eq!(c2.g, b(0.1));
}

#[test]
fn sub_colors() {
    let c1: Color = Color::new(b(0.9), b(0.6), b(0.75));
    let c2: Color = Color::new(b(0.7), b(0.1), b(0.25));

    assert_eq!(c1.sub(&c2), Color::new(b(0.2), b(0.5), b(0.5)));
    assert_eq!(c1.r, b(0.9));
    assert_eq!(c2.g, b(0.1));
}

#[test]
fn mul_color_by_scalar() {
    let c: Color = Color::new(b(0.2), b(1.0), b(-0.2));

    assert_eq!(c.scale(b(2.0)), Color::new(b(0.4), b(2.0), b(-0.4)));
    assert_eq!(c.r, b(0.2));
}

#[test]
fn mul_color_by_color() {
    let c1: Color = Color::new(b(1.0), b(0.2), b(0.4));
    let c2: Color = Color::new(b(0.9), b(1.0), b(0.1));

    let c3: Color = c1.mul(&c2);

    assert_eq!(c3, Color::new(b(0.9), b(0.2), b(0.04)));
    assert_eq!(c1.r, b(1.0));
    assert_eq!(c2.g, b(1.0));
}

#[test]
fn color_as_u8_tup() {
    let c: Color = Color::new(b(1.0), b(-1.0), b(0.0));
    let (r, g, bl) = c.as_u8_tup();

    assert_eq!(r, 255);
    assert_eq!(g, 0);
    assert_eq!(bl, 0);

    let c2: Color = Color::new(b(-0.5), b(0.5), b(0.5));
    let (r2, g2, b2) = c2.as_u8_tup();

    assert_eq!(r2, 0);
    assert_eq!(g2, 127);
    assert_eq!(b2, 127);
}

#[test]
fn color_as_u8_tup_overflow() {
    // Values above 1.0 truncate through the saturating cast, not a clamp of
    // the component to the unit interval.
    let c: Color = Color::new(b(1.5), b(2.0), b(0.999));
    let (r, g, bl) = c.as_u8_tup();

    assert_eq!(r, 255);
    assert_eq!(g, 255);
    assert_eq!(bl, 254);
}
