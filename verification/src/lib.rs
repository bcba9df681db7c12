//! A software ray marcher for scenes of implicit spheres, built on a verified
//! fixed-point numeric core.
//!
//! The target is a display device without hardware floating point, so every
//! quantity is carried as a signed fixed-point number (20 fractional bits in an
//! `i64`) with saturating arithmetic. The numeric kernel (integer square root,
//! inverse square root), the vector algebra, the polynomial trigonometric
//! approximations and the per-pixel sphere tracer are all specified and proved
//! here; pushing the finished frame to a physical screen is left to the caller.

pub mod color;
pub mod fixed;
pub mod scene;
pub mod trig;
pub mod vec;

pub use fixed::Fx;
