//! Scene compilation, evaluation and progressive accumulation for a
//! signed-distance-field path tracer.
//!
//! Geometry and material values are carried as IEEE-754 single-precision bit
//! patterns: the library moves them into the flat records that the GPU reads,
//! or writes them into generated shader source, and never computes on them.
//! What it does compute is verified:
//! - [`compile`]: flattening of the CSG tree into records whose references only
//!   point backwards, and material resolution;
//! - [`eval`]: the one-pass evaluation of those records, and the laws of the
//!   union, intersection and inversion combinators;
//! - [`shader`]: the GLSL form of a scene;
//! - [`order`]: a canonical, lexicographic order of the named materials;
//! - [`march`]: the decision step of sphere tracing and its step budget;
//! - [`schedule`] and [`frame`]: the compute passes of a frame, the buffers they
//!   bind, and the per-frame counter;
//! - [`accumulate`]: the per-pixel running mean and its tone mapping.

mod error;
pub mod scene;
pub mod compile;
pub mod eval;
pub mod order;
pub mod schedule;
pub mod shader;
pub mod accumulate;
pub mod frame;
pub mod march;

pub use error::{ErrorWrapper, WrappableError};
