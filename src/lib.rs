//! Audio-reactive procedural geometry.
//!
//! Each frame, [`analysis`] turns a raw sample window or a pair of byte
//! spectra into band energies, levels, a beat flag, spectral centroid and
//! flux, and smoothed variants of them. Those features drive three
//! generators: [`particle`] (beat-spawned particles), [`fractal`] (a recursive
//! branching tree) and [`ridgeline`] (a stack of perspective lines, one per
//! frequency sub-range, with per-line smoothing memory). The generators emit
//! plain drawing primitives from [`geometry`].
//!
//! Every scalar is a fixed-point number: a value `v` stands for `v / ONE`
//! (see [`fixed`]); angles are radians in the same scale, with sine and
//! cosine from [`angle`].
use vstd::prelude::*;

pub mod fixed;
mod rng;
pub mod angle;
pub mod analysis;
pub mod geometry;
pub mod particle;
pub mod config;
pub mod fractal;
pub mod ridgeline;
pub mod color;
pub mod graph;
pub mod playlist;
pub mod frame;
pub mod panels;
pub mod demo;

verus! {

} // verus!
