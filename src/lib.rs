//! Runtime core of a small 2D/3D rendering engine: frame-coherent input
//! tracking, quad batching, text layout, bitmap-font atlas packing and the
//! frame engine's lifecycle decisions.

use vstd::prelude::*;

pub mod atlas;
pub mod batch;
pub mod camera;
pub mod engine;
pub mod fps;
pub mod input;
pub mod math;
pub mod text;
pub mod viewport;

verus! {

} // verus!
