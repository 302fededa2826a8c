//! An interactive Barnsley-fern renderer: a chaos-game sampler over four
//! affine maps, and an accumulator that projects each visited point onto a
//! pixel raster which persists across generation calls.
//!
//! Fractal coordinates are held in fixed point: an `i64` counts millionths of
//! a coordinate unit, so every transform coefficient (all are multiples of
//! one hundredth) and every projection is computed exactly.

pub mod canvas;
pub mod color;
pub mod fern;
pub mod rng;
pub mod sampler;
