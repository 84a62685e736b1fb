//! The latest known size of the drawing surface.

use vstd::prelude::*;

verus! {

/// The size of the drawing surface in pixels, as of the last resize.
#[derive(Clone, Copy, Debug, PartialEq, Eq, Structural)]
pub struct ViewportState {
    pub width: u32,
    pub height: u32,
}

impl ViewportState {
    /// A viewport before the first resize: 0 by 0.
    pub fn new() -> (r: ViewportState)
        ensures
            r.width == 0 && r.height == 0,
    {
        ViewportState { width: 0, height: 0 }
    }
}

/// The viewport size, as (width, height).
pub fn viewport(state: &ViewportState) -> (r: (u32, u32))
    ensures
        r == (state.width, state.height),
{
    (state.width, state.height)
}

/// Records a new viewport size, given as (width, height).
pub fn set_viewport(state: &mut ViewportState, size: (u32, u32))
    ensures
        final(state).width == size.0,
        final(state).height == size.1,
{
    state.width = size.0;
    state.height = size.1;
}

} // verus!
