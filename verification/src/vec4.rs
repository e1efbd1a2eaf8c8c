//! Homogeneous-coordinate points and vectors.
//!
//! A `Vec4` holds four binary64 components as bit patterns. The `w`
//! component discriminates points (`w == 1.0`) from free vectors
//! (`w == 0.0`); the same arithmetic serves both roles, so subtracting two
//! points yields a vector and adding a vector to a point yields a point.

use vstd::prelude::*;

use crate::fp::F_APPROX_EPS;
use crate::fp::F_NEG_ONE;
use crate::fp::F_NUDGE;
use crate::fp::F_ONE;
use crate::fp::F_ZERO;
use crate::fp::abs_bits;
use crate::fp::add_bits;
use crate::fp::div_bits;
use crate::fp::eq_bits;
use crate::fp::f64_abs;
use crate::fp::f64_eq;
use crate::fp::f64_lt;
use crate::fp::f64_sign_unit;
use crate::fp::fadd;
use crate::fp::fdiv;
use crate::fp::fmul;
use crate::fp::fsqrt;
use crate::fp::fsub;
use crate::fp::lt_bits;
use crate::fp::mul_bits;
use crate::fp::sign_unit_bits;
use crate::fp::sqrt_bits;
use crate::fp::sub_bits;

verus! {

/// Whether two scalars are approximately equal: their difference is
/// strictly below 1e-5 in absolute value.
pub open spec fn f64_approx_eq(a: u64, b: u64) -> bool {
    f64_lt(f64_abs(fsub(a, b)), F_APPROX_EPS)
}

/// Whether two scalars are approximately equal (1e-5 tolerance).
pub fn equal_approx(a: u64, b: u64) -> (r: bool)
    ensures
        r == f64_approx_eq(a, b),
{
    lt_bits(abs_bits(sub_bits(a, b)), F_APPROX_EPS)
}

/// A homogeneous 4-component point or vector; each field is the bit
/// pattern of a binary64 value.
#[derive(Copy, Clone, Debug)]
pub struct Vec4 {
    pub x: u64,
    pub y: u64,
    pub z: u64,
    pub w: u64,
}

/// Whether the components of `a` and `b` are pairwise approximately equal.
pub open spec fn vec4_approx_eq(a: Vec4, b: Vec4) -> bool {
    &&& f64_approx_eq(a.x, b.x)
    &&& f64_approx_eq(a.y, b.y)
    &&& f64_approx_eq(a.z, b.z)
    &&& f64_approx_eq(a.w, b.w)
}

/// The componentwise sum of `a` and `b`.
pub open spec fn vec4_sum(a: Vec4, b: Vec4) -> Vec4 {
    (Vec4 { x: fadd(a.x, b.x), y: fadd(a.y, b.y), z: fadd(a.z, b.z), w: fadd(a.w, b.w) })
}

/// The componentwise difference of `a` and `b`.
pub open spec fn vec4_diff(a: Vec4, b: Vec4) -> Vec4 {
    (Vec4 { x: fsub(a.x, b.x), y: fsub(a.y, b.y), z: fsub(a.z, b.z), w: fsub(a.w, b.w) })
}

/// The magnitude of `v`: the square root of the sum of the squared
/// components, summed left to right.
pub open spec fn vec4_magnitude(v: Vec4) -> u64 {
    fsqrt(
        fadd(
            fadd(fadd(fmul(v.x, v.x), fmul(v.y, v.y)), fmul(v.z, v.z)),
            fmul(v.w, v.w),
        ),
    )
}

/// `v` scaled by the reciprocal of its own magnitude, componentwise.
pub open spec fn vec4_scaled_to_unit(v: Vec4) -> Vec4 {
    let m = vec4_magnitude(v);
    (Vec4 { x: fdiv(v.x, m), y: fdiv(v.y, m), z: fdiv(v.z, m), w: fdiv(v.w, m) })
}

/// The correction applied when division by the magnitude leaves the result's
/// magnitude off 1.0: the first of x, y, z that is non-zero is moved by
/// 1.7e-16, signed like that component.
pub open spec fn vec4_nudged(n: Vec4) -> Vec4 {
    if !f64_eq(n.x, F_ZERO) {
        (Vec4 { x: fadd(n.x, fmul(F_NUDGE, f64_sign_unit(n.x))), y: n.y, z: n.z, w: n.w })
    } else if !f64_eq(n.y, F_ZERO) {
        (Vec4 { x: n.x, y: fadd(n.y, fmul(F_NUDGE, f64_sign_unit(n.y))), z: n.z, w: n.w })
    } else {
        (Vec4 { x: n.x, y: n.y, z: fadd(n.z, fmul(F_NUDGE, f64_sign_unit(n.z))), w: n.w })
    }
}

/// The normalized form of `v`: `v` divided by its magnitude, nudged when the
/// quotient's magnitude is not exactly 1.0.
pub open spec fn vec4_normalized(v: Vec4) -> Vec4 {
    let n = vec4_scaled_to_unit(v);
    if f64_eq(vec4_magnitude(n), F_ONE) {
        n
    } else {
        vec4_nudged(n)
    }
}

/// The dot product of `a` and `b`: the componentwise products, summed left
/// to right.
pub open spec fn vec4_dot(a: Vec4, b: Vec4) -> u64 {
    fadd(
        fadd(fadd(fmul(a.x, b.x), fmul(a.y, b.y)), fmul(a.z, b.z)),
        fmul(a.w, b.w),
    )
}

/// The cross product of `a` and `b`, computed on the x, y, z components
/// only; the result is a free vector regardless of the operands' roles.
pub open spec fn vec4_cross(a: Vec4, b: Vec4) -> Vec4 {
    (Vec4 {
        x: fsub(fmul(a.y, b.z), fmul(a.z, b.y)),
        y: fsub(fmul(a.z, b.x), fmul(a.x, b.z)),
        z: fsub(fmul(a.x, b.y), fmul(a.y, b.x)),
        w: F_ZERO,
    })
}

impl Vec4 {
    /// Whether this value plays the role of a point.
    pub open spec fn is_point(self) -> bool {
        self.w == F_ONE
    }

    /// Whether this value plays the role of a free vector.
    pub open spec fn is_vector(self) -> bool {
        self.w == F_ZERO
    }

    /// A value with the four given components.
    pub fn new_vec4(x: u64, y: u64, z: u64, w: u64) -> (r: Vec4)
        ensures
            r == (Vec4 { x, y, z, w }),
    {
        Vec4 { x, y, z, w }
    }

    /// A point: `w` is 1.0.
    pub fn new_point(x: u64, y: u64, z: u64) -> (r: Vec4)
        ensures
            r == (Vec4 { x, y, z, w: F_ONE }),
            r.is_point(),
    {
        Vec4 { x, y, z, w: F_ONE }
    }

    /// A free vector: `w` is 0.0.
    pub fn new_vec(x: u64, y: u64, z: u64) -> (r: Vec4)
        ensures
            r == (Vec4 { x, y, z, w: F_ZERO }),
            r.is_vector(),
    {
        Vec4 { x, y, z, w: F_ZERO }
    }

    /// Whether all four components of `self` and `other` are approximately
    /// equal (1e-5 tolerance).
    pub fn equal_approx(&self, other: &Vec4) -> (r: bool)
        ensures
            r == vec4_approx_eq(*self, *other),
    {
        equal_approx(self.x, other.x) && equal_approx(self.y, other.y)
            && equal_approx(self.z, other.z) && equal_approx(self.w, other.w)
    }

    /// The componentwise sum. A point plus a vector is a point, and the sum
    /// of two vectors is a vector, because 1.0 + 0.0 and 0.0 + 0.0 are exact.
    pub fn add(&self, other: &Vec4) -> (r: Vec4)
        ensures
            r == vec4_sum(*self, *other),
            self.is_point() && other.is_vector() ==> r.is_point(),
            self.is_vector() && other.is_point() ==> r.is_point(),
            self.is_vector() && other.is_vector() ==> r.is_vector(),
    {
        Vec4 {
            x: add_bits(self.x, other.x),
            y: add_bits(self.y, other.y),
            z: add_bits(self.z, other.z),
            w: add_bits(self.w, other.w),
        }
    }

    /// The componentwise difference. A point minus a point is a vector, a
    /// point minus a vector is a point, and a vector minus a vector is a
    /// vector, because differences of 0.0 and 1.0 are exact.
    pub fn sub(&self, other: &Vec4) -> (r: Vec4)
        ensures
            r == vec4_diff(*self, *other),
            self.is_point() && other.is_point() ==> r.is_vector(),
            self.is_point() && other.is_vector() ==> r.is_point(),
            self.is_vector() && other.is_vector() ==> r.is_vector(),
    {
        Vec4 {
            x: sub_bits(self.x, other.x),
            y: sub_bits(self.y, other.y),
            z: sub_bits(self.z, other.z),
            w: sub_bits(self.w, other.w),
        }
    }

    /// Every component multiplied by the scalar `k`.
    pub fn scale(&self, k: u64) -> (r: Vec4)
        ensures
            r == (Vec4 {
                x: fmul(self.x, k),
                y: fmul(self.y, k),
                z: fmul(self.z, k),
                w: fmul(self.w, k),
            }),
    {
        Vec4 {
            x: mul_bits(self.x, k),
            y: mul_bits(self.y, k),
            z: mul_bits(self.z, k),
            w: mul_bits(self.w, k),
        }
    }

    /// Every component divided by the scalar `k`.
    pub fn div(&self, k: u64) -> (r: Vec4)
        ensures
            r == (Vec4 {
                x: fdiv(self.x, k),
                y: fdiv(self.y, k),
                z: fdiv(self.z, k),
                w: fdiv(self.w, k),
            }),
    {
        Vec4 {
            x: div_bits(self.x, k),
            y: div_bits(self.y, k),
            z: div_bits(self.z, k),
            w: div_bits(self.w, k),
        }
    }

    /// Every component multiplied by -1.0.
    pub fn negated(&self) -> (r: Vec4)
        ensures
            r == (Vec4 {
                x: fmul(self.x, F_NEG_ONE),
                y: fmul(self.y, F_NEG_ONE),
                z: fmul(self.z, F_NEG_ONE),
                w: fmul(self.w, F_NEG_ONE),
            }),
    {
        Vec4 {
            x: mul_bits(self.x, F_NEG_ONE),
            y: mul_bits(self.y, F_NEG_ONE),
            z: mul_bits(self.z, F_NEG_ONE),
            w: mul_bits(self.w, F_NEG_ONE),
        }
    }

    /// The magnitude of `self`.
    pub fn magnitude(&self) -> (r: u64)
        ensures
            r == vec4_magnitude(*self),
    {
        let xx = mul_bits(self.x, self.x);
        let yy = mul_bits(self.y, self.y);
        let zz = mul_bits(self.z, self.z);
        let ww = mul_bits(self.w, self.w);
        sqrt_bits(add_bits(add_bits(add_bits(xx, yy), zz), ww))
    }

    /// `self` divided by its magnitude; when floating error leaves the
    /// quotient's magnitude off 1.0 exactly, the first non-zero axis among
    /// x, y, z is moved by a signed 1.7e-16. `self` is not changed.
    pub fn normalized(&self) -> (r: Vec4)
        ensures
            r == vec4_normalized(*self),
    {
        let m = self.magnitude();
        let normed = self.div(m);
        if eq_bits(normed.magnitude(), F_ONE) {
            normed
        } else if !eq_bits(normed.x, F_ZERO) {
            Vec4 {
                x: add_bits(normed.x, mul_bits(F_NUDGE, sign_unit_bits(normed.x))),
                y: normed.y,
                z: normed.z,
                w: normed.w,
            }
        } else if !eq_bits(normed.y, F_ZERO) {
            Vec4 {
                x: normed.x,
                y: add_bits(normed.y, mul_bits(F_NUDGE, sign_unit_bits(normed.y))),
                z: normed.z,
                w: normed.w,
            }
        } else {
            Vec4 {
                x: normed.x,
                y: normed.y,
                z: add_bits(normed.z, mul_bits(F_NUDGE, sign_unit_bits(normed.z))),
                w: normed.w,
            }
        }
    }

    /// The dot product of `self` and `other`.
    pub fn dot(&self, other: &Vec4) -> (r: u64)
        ensures
            r == vec4_dot(*self, *other),
    {
        let xs = mul_bits(self.x, other.x);
        let ys = mul_bits(self.y, other.y);
        let zs = mul_bits(self.z, other.z);
        let ws = mul_bits(self.w, other.w);
        add_bits(add_bits(add_bits(xs, ys), zs), ws)
    }

    /// The cross product of `self` and `other`; always a free vector.
    pub fn cross(&self, other: &Vec4) -> (r: Vec4)
        ensures
            r == vec4_cross(*self, *other),
            r.is_vector(),
    {
        Vec4 {
            x: sub_bits(mul_bits(self.y, other.z), mul_bits(self.z, other.y)),
            y: sub_bits(mul_bits(self.z, other.x), mul_bits(self.x, other.z)),
            z: sub_bits(mul_bits(self.x, other.y), mul_bits(self.y, other.x)),
            w: F_ZERO,
        }
    }
}

impl PartialEq for Vec4 {
    /// Equality of points and vectors is approximate: all four components
    /// must agree within the 1e-5 tolerance.
    fn eq(&self, other: &Vec4) -> (r: bool) {
        self.equal_approx(other)
    }
}

impl vstd::std_specs::cmp::PartialEqSpecImpl for Vec4 {
    open spec fn obeys_eq_spec() -> bool {
        true
    }

    open spec fn eq_spec(&self, other: &Vec4) -> bool {
        vec4_approx_eq(*self, *other)
    }
}

} // verus!
