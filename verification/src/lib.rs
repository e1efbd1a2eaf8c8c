//! A minimal geometry kernel for a toy ray tracer: homogeneous-coordinate
//! points and vectors, colors, fixed-size square matrices with cofactor
//! inversion, a pixel canvas with a plain-text PPM encoder, and a ray-sphere
//! intersection test. Every scalar is an IEEE 754 binary64 value carried as
//! its bit pattern; see the `fp` module.

pub mod fp;
pub mod vec4;
pub mod color;
pub mod canvas;
pub mod motion;
pub mod matrices;
pub mod rays;
