use ray_kernel::matrices::KernelError;
use ray_kernel::matrices::Mat4;
use ray_kernel::motion::Environment;
use ray_kernel::motion::Projectile;
use ray_kernel::motion::tick;
use ray_kernel::rays::Ray;
use ray_kernel::rays::Sphere;
use ray_kernel::rays::get_intersection;
use ray_kernel::vec4::Vec4;

fn b(x: f64) -> u64 {
    x.to_bits()
}

fn point(x: f64, y: f64, z: f64) -> Vec4 {
    Vec4::new_point(b(x), b(y), b(z))
}

fn vec(x: f64, y: f64, z: f64) -> Vec4 {
    Vec4::new_vec(b(x), b(y), b(z))
}

#[test]
fn new_ray_keeps_origin_and_direction() {
    let origin = point(1.0, 2.0, 3.0);
    let direction = vec(4.0, 5.0, 6.0);
    let r = Ray::new_ray(origin, direction);

    assert_eq!(r.origin, origin);
    assert_eq!(r.direction, direction);
}

#[test]
fn new_sphere_has_identity_transform() {
    let s = Sphere::new_sphere(7);
    assert_eq!(s.id, 7);
    assert_eq!(s.transform, Mat4::id());
}

#[test]
fn sphere_set_transform() {
    let mut s = Sphere::new_sphere(0);
    let t = Mat4::new_translation(b(2.0), b(3.0), b(4.0));
    s.set_transform(t);
    assert_eq!(s.transform, t);
    assert_eq!(s.id, 0);
}

#[test]
fn intersect_unit_sphere_through_center() {
    let s = Sphere::new_sphere(0);
    let r = Ray::new_ray(point(0.0, 0.0, -5.0), vec(0.0, 0.0, 1.0));

    let xs = get_intersection(&s, &r).unwrap();

    assert_eq!(xs.len(), 2);
    assert_eq!(xs[0], b(4.0));
    assert_eq!(xs[1], b(6.0));
}

#[test]
fn intersect_tangent_counts_twice() {
    let s = Sphere::new_sphere(0);
    let r = Ray::new_ray(point(0.0, 1.0, -5.0), vec(0.0, 0.0, 1.0));

    let xs = get_intersection(&s, &r).unwrap();

    assert_eq!(xs.len(), 2);
    assert_eq!(xs[0], b(5.0));
    assert_eq!(xs[1], b(5.0));
}

#[test]
fn intersect_miss_is_empty() {
    let s = Sphere::new_sphere(0);
    let r = Ray::new_ray(point(0.0, 2.0, -5.0), vec(0.0, 0.0, 1.0));

    let xs = get_intersection(&s, &r).unwrap();

    assert_eq!(xs.len(), 0);
}

#[test]
fn intersect_scaled_sphere() {
    let mut s = Sphere::new_sphere(0);
    s.set_transform(Mat4::new_scaling(b(2.0), b(2.0), b(2.0)));
    let r = Ray::new_ray(point(0.0, 0.0, -5.0), vec(0.0, 0.0, 1.0));

    let xs = get_intersection(&s, &r).unwrap();

    assert_eq!(xs.len(), 2);
    assert_eq!(xs[0], b(3.0));
    assert_eq!(xs[1], b(7.0));
}

#[test]
fn intersect_degenerate_transform_fails() {
    let mut s = Sphere::new_sphere(0);
    s.set_transform(Mat4::zeros());
    let r = Ray::new_ray(point(0.0, 0.0, -5.0), vec(0.0, 0.0, 1.0));

    assert_eq!(get_intersection(&s, &r), Err(KernelError::DegenerateMatrix));
}

#[test]
fn tick_moves_projectile() {
    let mut proj = Projectile::new_projectile(point(0.0, 1.0, 0.0), vec(1.0, 2.0, 0.0));
    let env = Environment::new_environment(vec(0.0, -0.1, 0.0), vec(-0.01, 0.0, 0.0));

    tick(&env, &mut proj);

    assert_eq!(proj.pos, point(1.0, 3.0, 0.0));
    assert_eq!(proj.vel, vec(1.0 - 0.01, 2.0 - 0.1, 0.0));
}
