use std::f64::consts::PI;

use ray_kernel::matrices::Mat4;
use ray_kernel::vec4::Vec4;

fn b(x: f64) -> u64 {
    x.to_bits()
}

fn m4(d: [[f64; 4]; 4]) -> Mat4 {
    let mut out = [[0u64; 4]; 4];
    for i in 0..4 {
        for j in 0..4 {
            out[i][j] = d[i][j].to_bits();
        }
    }
    Mat4::new(out)
}

fn point(x: f64, y: f64, z: f64) -> Vec4 {
    Vec4::new_point(b(x), b(y), b(z))
}

fn vec(x: f64, y: f64, z: f64) -> Vec4 {
    Vec4::new_vec(b(x), b(y), b(z))
}

#[test]
fn translation() {
    let t = Mat4::new_translation(b(5.0), b(-3.0), b(2.0));
    let t_inv = t.inverted().unwrap();
    let p = point(-3.0, 4.0, 5.0);
    let v = vec(-3.0, 4.0, 5.0);

    assert_eq!(t.mul_vec(&p), point(2.0, 1.0, 7.0));
    assert_eq!(t_inv.mul_vec(&p), point(-8.0, 7.0, 3.0));
    // Translation does not affect vectors
    assert_eq!(t.mul_vec(&v), v);
}

#[test]
fn scale() {
    let s = Mat4::new_scaling(b(2.0), b(3.0), b(4.0));
    let s_inv = s.inverted().unwrap();
    let p = point(-4.0, 6.0, 8.0);
    let v = vec(-4.0, 6.0, 8.0);

    assert_eq!(s.mul_vec(&p), point(-8.0, 18.0, 32.0));
    assert_eq!(s.mul_vec(&v), vec(-8.0, 18.0, 32.0));
    assert_eq!(s_inv.mul_vec(&v), vec(-2.0, 2.0, 2.0));
}

#[test]
fn rotation_x() {
    let p = point(0.0, 1.0, 0.0);
    let half_quarter = Mat4::new_rotation_x(b(PI / 4.0));
    let half_quarter_inv = half_quarter.inverted().unwrap();

    assert_eq!(
        half_quarter_inv.mul_vec(&p),
        point(0.0, 2.0_f64.sqrt() / 2.0, -(2.0_f64.sqrt() / 2.0))
    );
}

#[test]
fn rotation_y() {
    let p = point(0.0, 0.0, 1.0);
    let half_quarter = Mat4::new_rotation_y(b(PI / 4.0));
    let full_quarter = Mat4::new_rotation_y(b(PI / 2.0));

    assert_eq!(
        half_quarter.mul_vec(&p),
        point(2.0_f64.sqrt() / 2.0, 0.0, 2.0_f64.sqrt() / 2.0)
    );
    assert_eq!(full_quarter.mul_vec(&p), point(1.0, 0.0, 0.0));
}

#[test]
fn rotation_z() {
    let p = point(0.0, 1.0, 0.0);
    let half_quarter = Mat4::new_rotation_z(b(PI / 4.0));
    let full_quarter = Mat4::new_rotation_z(b(PI / 2.0));

    assert_eq!(
        half_quarter.mul_vec(&p),
        point(-(2.0_f64.sqrt() / 2.0), 2.0_f64.sqrt() / 2.0, 0.0)
    );
    assert_eq!(full_quarter.mul_vec(&p), point(-1.0, 0.0, 0.0));
}

#[test]
fn shearing() {
    let p = point(2.0, 3.0, 4.0);
    let t_xy = Mat4::new_shearing(b(1.0), b(0.0), b(0.0), b(0.0), b(0.0), b(0.0));
    let t_xz = Mat4::new_shearing(b(0.0), b(1.0), b(0.0), b(0.0), b(0.0), b(0.0));
    let t_yx = Mat4::new_shearing(b(0.0), b(0.0), b(1.0), b(0.0), b(0.0), b(0.0));
    let t_yz = Mat4::new_shearing(b(0.0), b(0.0), b(0.0), b(1.0), b(0.0), b(0.0));
    let t_zx = Mat4::new_shearing(b(0.0), b(0.0), b(0.0), b(0.0), b(1.0), b(0.0));
    let t_zy = Mat4::new_shearing(b(0.0), b(0.0), b(0.0), b(0.0), b(0.0), b(1.0));

    assert_eq!(t_xy.mul_vec(&p), point(5.0, 3.0, 4.0));
    assert_eq!(t_xz.mul_vec(&p), point(6.0, 3.0, 4.0));
    assert_eq!(t_yx.mul_vec(&p), point(2.0, 5.0, 4.0));
    assert_eq!(t_yz.mul_vec(&p), point(2.0, 7.0, 4.0));
    assert_eq!(t_zx.mul_vec(&p), point(2.0, 3.0, 6.0));
    assert_eq!(t_zy.mul_vec(&p), point(2.0, 3.0, 7.0));
}

#[test]
fn fluent_api() {
    let t = Mat4::id().scale(b(2.0), b(2.0), b(1.0)).translate(b(10.0), b(5.0), b(7.0));

    assert_eq!(
        t,
        m4([
            [2.0, 0.0, 0.0, 20.0],
            [0.0, 2.0, 0.0, 10.0],
            [0.0, 0.0, 1.0, 7.0],
            [0.0, 0.0, 0.0, 1.0]
        ])
    );
}

#[test]
fn fluent_applies_last_transform_first() {
    // The transform appended last in the chain acts on the point first:
    // scaling then translating moves the point to scale * p + offset, while
    // the chain written the other way scales the offset too.
    let p = point(1.0, 1.0, 1.0);

    let scale_then_translate = Mat4::id().scale(b(2.0), b(2.0), b(1.0)).translate(
        b(10.0),
        b(5.0),
        b(7.0),
    );
    assert_eq!(scale_then_translate.mul_vec(&p), point(22.0, 12.0, 8.0));

    let translate_then_scale = Mat4::id().translate(b(10.0), b(5.0), b(7.0)).scale(
        b(2.0),
        b(2.0),
        b(1.0),
    );
    assert_eq!(translate_then_scale.mul_vec(&p), point(12.0, 7.0, 8.0));
}
