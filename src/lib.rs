//! Integer geometry, screen mapping and frame scheduling for vector animations.
//!
//! - `number`: the scalar abstraction, with exact integer meaning and checked arithmetic.
//! - `vector`, `point`, `matrix`: n-dimensional algebra, including 2x2 eigenvalues,
//!   singular value and polar decompositions. Each operation is specified by a model over
//!   mathematical integers that also says exactly when a value is not representable.
//! - `screen`: the screen context, its frame counter, and the exact mapping from world
//!   coordinates to pixels.
//! - `animation`: objects attached to a context, and the planning and all-or-nothing
//!   commit of the frame batches that animate them.
pub mod animation;
pub mod error;
pub mod matrix;
pub mod number;
pub mod point;
pub mod screen;
pub mod util;
pub mod vector;
