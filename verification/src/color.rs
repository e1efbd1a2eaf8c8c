//! RGB colors with linear arithmetic and 8-bit quantization.
//!
//! Components are unclamped binary64 values carried as bit patterns;
//! only `as_u8_tup` quantizes, by multiplying each component by 255 and
//! converting with the saturating, truncating numeric cast.

use vstd::prelude::*;

use crate::fp::F_255;
use crate::fp::add_bits;
use crate::fp::as_u8_bits;
use crate::fp::f64_as_u8;
use crate::fp::fadd;
use crate::fp::fmul;
use crate::fp::fsub;
use crate::fp::mul_bits;
use crate::fp::sub_bits;
use crate::vec4::equal_approx;
use crate::vec4::f64_approx_eq;

verus! {

/// An RGB color; each field is the bit pattern of a binary64 value.
#[derive(Copy, Clone, Debug)]
pub struct Color {
    pub r: u64,
    pub g: u64,
    pub b: u64,
}

/// The 8-bit quantization of a color: each component multiplied by 255 and
/// converted by the saturating, truncating numeric cast.
pub open spec fn color_quantized(c: Color) -> (u8, u8, u8) {
    (f64_as_u8(fmul(c.r, F_255)), f64_as_u8(fmul(c.g, F_255)), f64_as_u8(fmul(c.b, F_255)))
}

/// Whether the components of `a` and `b` are pairwise approximately equal.
pub open spec fn color_approx_eq(a: Color, b: Color) -> bool {
    &&& f64_approx_eq(a.r, b.r)
    &&& f64_approx_eq(a.g, b.g)
    &&& f64_approx_eq(a.b, b.b)
}

impl Color {
    /// A color with the three given components.
    pub fn new(r: u64, g: u64, b: u64) -> (c: Color)
        ensures
            c == (Color { r, g, b }),
    {
        Color { r, g, b }
    }

    /// The componentwise sum.
    pub fn add(&self, other: &Color) -> (c: Color)
        ensures
            c == (Color {
                r: fadd(self.r, other.r),
                g: fadd(self.g, other.g),
                b: fadd(self.b, other.b),
            }),
    {
        Color {
            r: add_bits(self.r, other.r),
            g: add_bits(self.g, other.g),
            b: add_bits(self.b, other.b),
        }
    }

    /// The componentwise difference.
    pub fn sub(&self, other: &Color) -> (c: Color)
        ensures
            c == (Color {
                r: fsub(self.r, other.r),
                g: fsub(self.g, other.g),
                b: fsub(self.b, other.b),
            }),
    {
        Color {
            r: sub_bits(self.r, other.r),
            g: sub_bits(self.g, other.g),
            b: sub_bits(self.b, other.b),
        }
    }

    /// The componentwise (Hadamard) product.
    pub fn mul(&self, other: &Color) -> (c: Color)
        ensures
            c == (Color {
                r: fmul(self.r, other.r),
                g: fmul(self.g, other.g),
                b: fmul(self.b, other.b),
            }),
    {
        Color {
            r: mul_bits(self.r, other.r),
            g: mul_bits(self.g, other.g),
            b: mul_bits(self.b, other.b),
        }
    }

    /// Every component multiplied by the scalar `k`.
    pub fn scale(&self, k: u64) -> (c: Color)
        ensures
            c == (Color { r: fmul(self.r, k), g: fmul(self.g, k), b: fmul(self.b, k) }),
    {
        Color { r: mul_bits(self.r, k), g: mul_bits(self.g, k), b: mul_bits(self.b, k) }
    }

    /// Each component multiplied by 255 and converted to `u8` by the
    /// saturating, truncating numeric cast — deliberately not a clamp to
    /// the unit interval.
    pub fn as_u8_tup(&self) -> (t: (u8, u8, u8))
        ensures
            t == color_quantized(*self),
    {
        (
            as_u8_bits(mul_bits(self.r, F_255)),
            as_u8_bits(mul_bits(self.g, F_255)),
            as_u8_bits(mul_bits(self.b, F_255)),
        )
    }
}

impl PartialEq for Color {
    /// Equality of colors is approximate: all three components must agree
    /// within the 1e-5 tolerance.
    fn eq(&self, other: &Color) -> (r: bool) {
        equal_approx(self.r, other.r) && equal_approx(self.g, other.g)
            && equal_approx(self.b, other.b)
    }
}

impl vstd::std_specs::cmp::PartialEqSpecImpl for Color {
    open spec fn obeys_eq_spec() -> bool {
        true
    }

    open spec fn eq_spec(&self, other: &Color) -> bool {
        color_approx_eq(*self, *other)
    }
}

} // verus!
