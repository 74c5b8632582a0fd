//! Procedural surface-texture synthesis for celestial bodies.
//!
//! Every surface is a pure function from a normalized surface coordinate and a
//! time value to a color: value noise built from a deterministic lattice hash,
//! a seam-aware sampler for the cylindrical wrap of the horizontal axis, a
//! fractal composer (`fbm`), and one hand-authored pipeline per known body.
//! A synthesis driver rasterizes a pipeline into a square RGBA image.
//!
//! All arithmetic is 16.16 fixed point over `i64`, saturating at a wide guard
//! range, so every computation is deterministic and verified free of overflow.

pub mod fixed;
pub mod vec;
pub mod noise;
pub mod image;
pub mod shaders;
pub mod manager;
