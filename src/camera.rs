//! Which way held keys move the camera; the distances, scaled by speed and
//! frame time, are applied by the caller.

use crate::input::{key_pressed, InputKey, InputState, InputTracker, Key};
use vstd::prelude::*;

verus! {

/// The keys bound to panning and zooming. The zoom factor scales the
/// visible area: raising it shows more of the world.
#[derive(Clone, Copy, Debug, PartialEq, Eq, Structural)]
pub struct CameraKeys {
    pub left: Key,
    pub right: Key,
    pub up: Key,
    pub down: Key,
    pub zoom_up: Key,
    pub zoom_down: Key,
}

/// A direction per axis: -1, 0 or 1.
#[derive(Clone, Copy, Debug, PartialEq, Eq, Structural)]
pub struct Motion {
    pub x: i8,
    pub y: i8,
    pub zoom: i8,
}

/// The key is down this frame, newly or held.
pub open spec fn down(input: InputTracker, k: Key) -> bool {
    input.state_of(InputKey::Keyboard(k)) == InputState::PressedThisFrame || input.state_of(
        InputKey::Keyboard(k),
    ) == InputState::Held
}

/// The direction of one axis: `first_dir` when the `first` key is down,
/// else the opposite when the `second` key is down, else 0.
pub open spec fn axis(input: InputTracker, first: Key, second: Key, first_dir: int) -> int {
    if down(input, first) {
        first_dir
    } else if down(input, second) {
        -first_dir
    } else {
        0
    }
}

/// How the camera moves this frame. When both keys of an axis are down,
/// left wins over right, up over down, and raising the zoom over lowering
/// it.
pub fn camera_motion(input: &InputTracker, keys: &CameraKeys) -> (r: Motion)
    ensures
        r.x as int == axis(*input, keys.left, keys.right, -1),
        r.y as int == axis(*input, keys.up, keys.down, 1),
        r.zoom as int == axis(*input, keys.zoom_up, keys.zoom_down, 1),
{
    let x: i8 = if key_pressed(input, keys.left) {
        -1
    } else if key_pressed(input, keys.right) {
        1
    } else {
        0
    };
    let y: i8 = if key_pressed(input, keys.up) {
        1
    } else if key_pressed(input, keys.down) {
        -1
    } else {
        0
    };
    let zoom: i8 = if key_pressed(input, keys.zoom_up) {
        1
    } else if key_pressed(input, keys.zoom_down) {
        -1
    } else {
        0
    };
    Motion { x, y, zoom }
}

} // verus!
