//! The exact core of a sphere ray caster: index coercion, 3x3 matrices over
//! any scalar, pixel addressing, painter's-order compositing and the text
//! form of a finished image.
//!
//! Everything here is stated over integers, sequences and values that are
//! only moved, never computed with, so every contract is exact. The geometry
//! of rays and spheres works in rounded arithmetic and is left to the
//! program that uses this library: it hands the scalars of a matrix, the
//! samples of a pixel and the bytes of an image to the functions here.

pub mod canvas;
pub mod matrix;
pub mod ppm;
pub mod render;
pub mod traits;
