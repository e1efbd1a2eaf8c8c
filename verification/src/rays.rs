//! Rays, spheres and their intersection.
//!
//! A sphere is always the unit sphere at its local origin; all size and
//! position variation comes from its attached 4×4 transform. Intersecting
//! takes the ray into the sphere's object space through the inverse of that
//! transform and solves the quadratic for the two ray parameters.

use vstd::prelude::*;

use crate::fp::F_FOUR;
use crate::fp::F_ONE;
use crate::fp::F_TWO;
use crate::fp::F_ZERO;
use crate::fp::add_bits;
use crate::fp::div_bits;
use crate::fp::f64_eq;
use crate::fp::f64_lt;
use crate::fp::f64_neg;
use crate::fp::fadd;
use crate::fp::fdiv;
use crate::fp::fmul;
use crate::fp::fsqrt;
use crate::fp::fsub;
use crate::fp::lt_bits;
use crate::fp::mul_bits;
use crate::fp::neg_bits;
use crate::fp::sqrt_bits;
use crate::fp::sub_bits;
use crate::matrices::KernelError;
use crate::matrices::Mat4;
use crate::matrices::det4;
use crate::matrices::grid_id4;
use crate::matrices::grid_inv4;
use crate::matrices::mulvec4;
use crate::vec4::Vec4;
use crate::vec4::vec4_diff;
use crate::vec4::vec4_dot;

verus! {

/// A ray: an origin (a point) and a direction (a vector). No invariant is
/// enforced on the direction being unit length.
#[derive(Copy, Clone, Debug)]
pub struct Ray {
    pub origin: Vec4,
    pub direction: Vec4,
}

impl Ray {
    /// A ray with the given origin and direction.
    pub fn new_ray(origin: Vec4, direction: Vec4) -> (r: Ray)
        ensures
            r.origin == origin,
            r.direction == direction,
    {
        Ray { origin, direction }
    }
}

/// A unit sphere at the local origin, carrying a 4×4 transform and an
/// identifier with no effect beyond distinguishing instances.
#[derive(Copy, Clone, Debug)]
pub struct Sphere {
    pub id: i64,
    pub transform: Mat4,
}

impl Sphere {
    /// A sphere with the given identifier and the identity transform.
    pub fn new_sphere(id: i64) -> (s: Sphere)
        ensures
            s.id == id,
            s.transform@ == grid_id4(),
    {
        Sphere { id, transform: Mat4::id() }
    }

    /// Replace the sphere's transform.
    pub fn set_transform(&mut self, transform: Mat4)
        ensures
            final(self).transform == transform,
            final(self).id == old(self).id,
    {
        self.transform = transform;
    }
}

/// The point at the local origin.
pub open spec fn origin_point() -> Vec4 {
    (Vec4 { x: F_ZERO, y: F_ZERO, z: F_ZERO, w: F_ONE })
}

/// The quadratic coefficient `a` of the intersection: the squared length of
/// the ray's direction in the sphere's object space, reached through the
/// inverse `inv` of the sphere's transform.
pub open spec fn isect_a(inv: Seq<Seq<u64>>, ray: Ray) -> u64 {
    vec4_dot(mulvec4(inv, ray.direction), mulvec4(inv, ray.direction))
}

/// The quadratic coefficient `b` of the intersection.
pub open spec fn isect_b(inv: Seq<Seq<u64>>, ray: Ray) -> u64 {
    fmul(
        F_TWO,
        vec4_dot(
            mulvec4(inv, ray.direction),
            vec4_diff(mulvec4(inv, ray.origin), origin_point()),
        ),
    )
}

/// The quadratic coefficient `c` of the intersection.
pub open spec fn isect_c(inv: Seq<Seq<u64>>, ray: Ray) -> u64 {
    fsub(
        vec4_dot(
            vec4_diff(mulvec4(inv, ray.origin), origin_point()),
            vec4_diff(mulvec4(inv, ray.origin), origin_point()),
        ),
        F_ONE,
    )
}

/// The discriminant `b*b - 4*a*c` of the intersection quadratic.
pub open spec fn isect_disc(inv: Seq<Seq<u64>>, ray: Ray) -> u64 {
    fsub(
        fmul(isect_b(inv, ray), isect_b(inv, ray)),
        fmul(fmul(F_FOUR, isect_a(inv, ray)), isect_c(inv, ray)),
    )
}

/// One root of the intersection quadratic: `(-b ± sqrt(disc)) / (2a)`,
/// where `sum` is the already-combined numerator.
pub open spec fn isect_root(inv: Seq<Seq<u64>>, ray: Ray, numerator: u64) -> u64 {
    fdiv(numerator, fmul(F_TWO, isect_a(inv, ray)))
}

/// The ray parameters at which a ray meets the sphere whose transform's
/// grid is `t`: empty when the discriminant is negative, else the root with
/// the subtracted square root first and the added one second (equal on a
/// tangent hit).
pub open spec fn isect_ts(t: Seq<Seq<u64>>, ray: Ray) -> Seq<u64> {
    let inv = grid_inv4(t);
    let disc = isect_disc(inv, ray);
    if f64_lt(disc, F_ZERO) {
        Seq::empty()
    } else {
        seq![
            isect_root(inv, ray, fsub(f64_neg(isect_b(inv, ray)), fsqrt(disc))),
            isect_root(inv, ray, fadd(f64_neg(isect_b(inv, ray)), fsqrt(disc))),
        ]
    }
}

/// The ray parameters at which `ray` meets the surface of `sphere`, in the
/// order stated by `isect_ts`, or `DegenerateMatrix` exactly when the
/// sphere's transform cannot be inverted.
pub fn get_intersection(sphere: &Sphere, ray: &Ray) -> (r: Result<Vec<u64>, KernelError>)
    ensures
        f64_eq(det4(sphere.transform@), F_ZERO) <==> r == Err::<Vec<u64>, KernelError>(
            KernelError::DegenerateMatrix,
        ),
        !f64_eq(det4(sphere.transform@), F_ZERO) ==> (r matches Ok(ts) && ts@ == isect_ts(
            sphere.transform@,
            *ray,
        )),
{
    let inv = match sphere.transform.inverted() {
        Ok(m) => m,
        Err(e) => {
            return Err(e);
        },
    };
    let local_origin = inv.mul_vec(&ray.origin);
    let local_direction = inv.mul_vec(&ray.direction);
    let sphere_to_ray = local_origin.sub(&Vec4::new_point(F_ZERO, F_ZERO, F_ZERO));

    let a = local_direction.dot(&local_direction);
    let b = mul_bits(F_TWO, local_direction.dot(&sphere_to_ray));
    let c = sub_bits(sphere_to_ray.dot(&sphere_to_ray), F_ONE);

    let discriminant = sub_bits(mul_bits(b, b), mul_bits(mul_bits(F_FOUR, a), c));

    if lt_bits(discriminant, F_ZERO) {
        let ts: Vec<u64> = Vec::new();
        proof {
            assert(ts@ =~= isect_ts(sphere.transform@, *ray));
        }
        Ok(ts)
    } else {
        let sq = sqrt_bits(discriminant);
        let two_a = mul_bits(F_TWO, a);
        let t1 = div_bits(sub_bits(neg_bits(b), sq), two_a);
        let t2 = div_bits(add_bits(neg_bits(b), sq), two_a);
        let mut ts: Vec<u64> = Vec::new();
        ts.push(t1);
        ts.push(t2);
        proof {
            assert(ts@ =~= isect_ts(sphere.transform@, *ray));
        }
        Ok(ts)
    }
}

} // verus!
